//! The text rope of the editor: `ropey::Rope`, used through trusted wrappers.
//!
//! What a rope holds is named `rope_text`: the sequence of its characters.
//! The crate is built with ropey's line-break features off, so a line break is
//! exactly the character `'\n'`; the line structure of a rope is then the
//! spec functions below, over its characters.
//!
//! The contracts of the wrappers below that speak of lines (`rope_len_lines`,
//! `rope_line_to_char`, `rope_char_to_line`, `rope_line_len`, `rope_line_string`)
//! hold only for that build: with ropey's default features, `'\r'`, `'\u{2028}'`
//! and other characters also end a line, and those contracts would be false.
//! The `default-features = false` line for ropey in Cargo.toml must stay.
use ropey::Rope;
use vstd::prelude::*;
use crate::strings::count_of;

verus! {

#[verifier::external_type_specification]
#[verifier::external_body]
pub struct ExRope(Rope);

/// The characters a rope holds, in order.
pub uninterp spec fn rope_text(r: Rope) -> Seq<char>;

/// Number of lines of `s`: one more than its number of `'\n'`.
pub open spec fn line_count(s: Seq<char>) -> nat {
    count_of(s, '\n') + 1
}

/// Index of the first character of line `k` of `s`: the position just after
/// its `k`-th `'\n'`; for `k == line_count(s)` it is `s.len()`.
pub open spec fn line_start(s: Seq<char>, k: nat) -> nat
    decreases s.len(),
{
    if k == 0 {
        0
    } else if s.len() == 0 {
        0
    } else if s[0] == '\n' {
        1 + line_start(s.drop_first(), (k - 1) as nat)
    } else {
        1 + line_start(s.drop_first(), k)
    }
}

/// Line `k` of `s`, with its terminating `'\n'` if it has one.
pub open spec fn line_text(s: Seq<char>, k: nat) -> Seq<char> {
    s.subrange(line_start(s, k) as int, line_start(s, k + 1) as int)
}

/// `Rope::new`: an empty rope.
#[verifier::external_body]
pub(crate) fn rope_new() -> (r: Rope)
    ensures
        rope_text(r) == Seq::<char>::empty(),
{
    Rope::new()
}

/// `Rope::from_str`: a rope holding the characters of `s`.
#[verifier::external_body]
pub(crate) fn rope_from_str(s: &str) -> (r: Rope)
    ensures
        rope_text(r) == s@,
{
    Rope::from_str(s)
}

/// `Rope::len_chars`: the number of characters.
#[verifier::external_body]
pub(crate) fn rope_len_chars(r: &Rope) -> (n: usize)
    ensures
        n == rope_text(*r).len(),
{
    r.len_chars()
}

/// `Rope::len_lines`: the number of line breaks plus one.
#[verifier::external_body]
pub(crate) fn rope_len_lines(r: &Rope) -> (n: usize)
    ensures
        n == line_count(rope_text(*r)),
{
    r.len_lines()
}

/// `Rope::line_to_char`: the character index where line `line` starts
/// (one past the end for `line == len_lines()`). It panics beyond that.
#[verifier::external_body]
pub(crate) fn rope_line_to_char(r: &Rope, line: usize) -> (c: usize)
    requires
        line <= line_count(rope_text(*r)),
    ensures
        c == line_start(rope_text(*r), line as nat),
{
    r.line_to_char(line)
}

/// `Rope::char_to_line`: the number of line breaks before character `idx`.
/// It panics for `idx > len_chars()`.
#[verifier::external_body]
pub(crate) fn rope_char_to_line(r: &Rope, idx: usize) -> (l: usize)
    requires
        idx <= rope_text(*r).len(),
    ensures
        l == count_of(rope_text(*r).take(idx as int), '\n'),
{
    r.char_to_line(idx)
}

/// `Rope::insert`: inserts the characters of `text` before character `idx`.
/// It panics for `idx > len_chars()`.
#[verifier::external_body]
pub(crate) fn rope_insert(r: &mut Rope, idx: usize, text: &str)
    requires
        idx <= rope_text(*old(r)).len(),
    ensures
        rope_text(*final(r)) == rope_text(*old(r)).take(idx as int) + text@ + rope_text(
            *old(r),
        ).skip(idx as int),
{
    r.insert(idx, text)
}

/// `Rope::insert_char`: inserts `c` before character `idx`.
/// It panics for `idx > len_chars()`.
#[verifier::external_body]
pub(crate) fn rope_insert_char(r: &mut Rope, idx: usize, c: char)
    requires
        idx <= rope_text(*old(r)).len(),
    ensures
        rope_text(*final(r)) == rope_text(*old(r)).take(idx as int).push(c) + rope_text(
            *old(r),
        ).skip(idx as int),
{
    r.insert_char(idx, c)
}

/// `Rope::remove(start..end)`: removes the characters in `start..end`.
/// It panics unless `start <= end <= len_chars()`.
#[verifier::external_body]
pub(crate) fn rope_remove(r: &mut Rope, start: usize, end: usize)
    requires
        start <= end <= rope_text(*old(r)).len(),
    ensures
        rope_text(*final(r)) == rope_text(*old(r)).take(start as int) + rope_text(
            *old(r),
        ).skip(end as int),
{
    r.remove(start..end)
}

/// `Rope::line(k).len_chars()`: the length of line `k`, its line break
/// included. `Rope::line` panics for `k >= len_lines()`.
#[verifier::external_body]
pub(crate) fn rope_line_len(r: &Rope, k: usize) -> (n: usize)
    requires
        k < line_count(rope_text(*r)),
    ensures
        n == line_text(rope_text(*r), k as nat).len(),
{
    r.line(k).len_chars()
}

/// `Rope::line(k)` as a `String`: line `k` with its line break.
/// `Rope::line` panics for `k >= len_lines()`.
#[verifier::external_body]
pub(crate) fn rope_line_string(r: &Rope, k: usize) -> (s: String)
    requires
        k < line_count(rope_text(*r)),
    ensures
        s@ == line_text(rope_text(*r), k as nat),
{
    r.line(k).to_string()
}

/// `Rope`'s `clone`: a rope holding the same characters.
pub assume_specification[ <Rope as Clone>::clone ](r: &Rope) -> (c: Rope)
    ensures
        rope_text(c) == rope_text(*r),
;

} // verus!
