//! What the pending key presses come to: a bound command, text to type
//! when no binding can grow from them, or nothing yet.
use vstd::prelude::*;
use crate::engine::commands::CmdRc;
use crate::engine::map_keys::{same_binding, Mapper};
use crate::engine::mode::Mode;
use crate::engine::parse_keys::KeyParser;
use crate::strings::string_of;
use crate::ui::key::{keys_char, Keys};

verus! {

/// The characters the key presses type, leaving out those that type none.
pub open spec fn typed_chars(ks: Seq<Keys>) -> Seq<char>
    decreases ks.len(),
{
    if ks.len() == 0 {
        Seq::empty()
    } else {
        let rest = typed_chars(ks.drop_last());
        match keys_char(ks.last()) {
            Some(c) => if c == '\0' {
                rest
            } else {
                rest.push(c)
            },
            None => rest,
        }
    }
}

/// The text the key presses type.
pub fn pending_input(keys: &[Keys]) -> (r: String)
    ensures
        r@ == typed_chars(keys@),
{
    let mut out: Vec<char> = Vec::new();
    let mut i: usize = 0;
    while i < keys.len()
        invariant
            i <= keys@.len(),
            out@ == typed_chars(keys@.take(i as int)),
        decreases keys@.len() - i,
    {
        proof {
            assert(keys@.take(i + 1).drop_last() =~= keys@.take(i as int));
        }
        if let Some(c) = keys[i].as_char() {
            if c != '\0' {
                out.push(c);
            }
        }
        i += 1;
    }
    proof {
        assert(keys@.take(keys@.len() as int) =~= keys@);
    }
    string_of(out.as_slice())
}

/// What the pending key presses come to.
#[derive(Debug)]
pub enum KeyDecision<'a> {
    /// The command they are bound to.
    Mapping(&'a CmdRc),
    /// The text they type, as no binding can grow from them.
    Insert(String),
    /// Nothing yet: a binding can still grow from them.
    Wait,
}

/// Decides on the pending key presses in `mode`: when no binding can grow
/// from them, the text they type, and they are cleared; when they are
/// bound, the command, and they are cleared; else nothing, and they stay.
pub fn decide_keys<'a>(mapper: &'a Mapper, parser: &mut KeyParser, mode: Mode) -> (r: KeyDecision<'a>)
    requires
        old(parser).wf(),
    ensures
        final(parser).wf(),
        !mapper.possible(mode, old(parser).pending()) ==> (r matches KeyDecision::Insert(s) && s@
            == typed_chars(old(parser).pending()) && final(parser).pending() == Seq::<Keys>::empty()),
        mapper.possible(mode, old(parser).pending()) && mapper.binding(mode, old(parser).pending()) is Some
            ==> (r matches KeyDecision::Mapping(c) && mapper.binding(mode, old(parser).pending())
            == Some(*c) && final(parser).pending() == Seq::<Keys>::empty()),
        mapper.possible(mode, old(parser).pending()) && mapper.binding(mode, old(parser).pending()) is None
            ==> (r is Wait && final(parser).pending() == old(parser).pending()),
{
    let cmd = mapper.get_mapping(&mode, parser.get_keys());
    let is_possible_mapping = mapper.is_possible_mapping(&mode, parser.get_keys());
    if !is_possible_mapping {
        let input = pending_input(parser.get_keys());
        parser.clear();
        return KeyDecision::Insert(input);
    }
    match cmd {
        Some(c) => {
            parser.clear();
            KeyDecision::Mapping(c)
        },
        None => KeyDecision::Wait,
    }
}

} // verus!
