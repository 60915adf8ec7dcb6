//! Parsing of key strings such as `"<C-a>dd"` or `"<space>w"` into keys: a
//! character stands for its own key, and a name in angle brackets for a
//! named key, or for a modifier and a key when it holds a `-`.
use vstd::prelude::*;
use crate::strings::{chars_of, slice_chars, str_eq, string_of, to_lower_spec, to_lowercase};
use crate::ui::key::{key_of_char, key_of_name, Key, Keys};

verus! {

/// The index of the first `>` at or after `i`, or the length of `s`.
pub open spec fn close_of(s: Seq<char>, i: int) -> int
    decreases s.len() - i,
{
    if i >= s.len() {
        s.len() as int
    } else if s[i] == '>' {
        i
    } else {
        close_of(s, i + 1)
    }
}

/// Where parsing goes on after the bracket body that starts at `i`: past
/// its `>`, or at the end.
pub open spec fn after_close(s: Seq<char>, i: int) -> int {
    if close_of(s, i) < s.len() { close_of(s, i) + 1 } else { s.len() as int }
}

/// The index of the first `-` in `s`, or its length.
pub open spec fn dash_of(s: Seq<char>) -> int
    decreases s.len(),
{
    if s.len() == 0 {
        0
    } else if s[0] == '-' {
        0
    } else {
        1 + dash_of(s.drop_first())
    }
}

/// The modifier name a bracket prefix stands for, once lowercased: `c` for
/// `ctrl`, `a` for `alt`, any other name for itself.
pub open spec fn modifier_name(lower: Seq<char>) -> Seq<char> {
    if lower == "c"@ {
        "ctrl"@
    } else if lower == "a"@ {
        "alt"@
    } else {
        lower
    }
}

/// A bracket body that can be decoded: without a `-`, or with a character
/// other than `-` right after its first `-`.
pub open spec fn bracket_ok(name: Seq<char>) -> bool {
    dash_of(name) < name.len() ==> (dash_of(name) + 1 < name.len() && name[dash_of(name) + 1]
        != '-')
}

/// The keys a bracket body stands for: with a `-`, the modifier named
/// before it and the key of the character after it; else the named key.
pub open spec fn bracket_keys(name: Seq<char>) -> Seq<Key> {
    let d = dash_of(name);
    if d < name.len() {
        seq![
            key_of_name(to_lower_spec(modifier_name(to_lower_spec(name.take(d))))),
            key_of_char(name[d + 1]),
        ]
    } else {
        seq![key_of_name(to_lower_spec(name))]
    }
}

/// Whether every bracket body from `i` on can be decoded.
pub open spec fn parse_ok(s: Seq<char>, i: int) -> bool
    decreases s.len() - i,
{
    if i < 0 || i >= s.len() {
        true
    } else if s[i] == '<' {
        proof {
            lemma_close_of_bounds(s, i + 1);
        }
        bracket_ok(s.subrange(i + 1, close_of(s, i + 1))) && parse_ok(s, after_close(s, i + 1))
    } else {
        parse_ok(s, i + 1)
    }
}

/// The keys of `s` from index `i` on.
pub open spec fn keys_of_string(s: Seq<char>, i: int) -> Seq<Key>
    decreases s.len() - i,
{
    if i < 0 || i >= s.len() {
        Seq::empty()
    } else if s[i] == '<' {
        proof {
            lemma_close_of_bounds(s, i + 1);
        }
        bracket_keys(s.subrange(i + 1, close_of(s, i + 1))) + keys_of_string(
            s,
            after_close(s, i + 1),
        )
    } else {
        seq![key_of_char(s[i])] + keys_of_string(s, i + 1)
    }
}

/// The first `>` from `i` on bounds the bracket body that starts there.
pub proof fn lemma_close_of_bounds(s: Seq<char>, i: int)
    requires
        0 <= i <= s.len(),
    ensures
        i <= close_of(s, i) <= s.len(),
        forall|k: int| i <= k < close_of(s, i) ==> s[k] != '>',
        close_of(s, i) < s.len() ==> s[close_of(s, i)] == '>',
    decreases s.len() - i,
{
    if i < s.len() && s[i] != '>' {
        lemma_close_of_bounds(s, i + 1);
    }
}

proof fn lemma_dash_of(s: Seq<char>)
    ensures
        0 <= dash_of(s) <= s.len(),
        forall|k: int| 0 <= k < dash_of(s) ==> s[k] != '-',
        dash_of(s) < s.len() ==> s[dash_of(s)] == '-',
    decreases s.len(),
{
    if s.len() > 0 && s[0] != '-' {
        lemma_dash_of(s.drop_first());
        assert forall|k: int| 0 <= k < dash_of(s) implies s[k] != '-' by {
            if k > 0 {
                assert(s[k] == s.drop_first()[k - 1]);
            }
        }
    }
}

/// The keys of the bracket body that starts at `pos` (just past a `<`), and
/// where parsing goes on after it.
pub fn specal_keys(chars: &Vec<char>, pos: usize) -> (r: (Vec<Key>, usize))
    requires
        pos <= chars@.len(),
        bracket_ok(chars@.subrange(pos as int, close_of(chars@, pos as int))),
    ensures
        r.0@ == bracket_keys(chars@.subrange(pos as int, close_of(chars@, pos as int))),
        r.1 == after_close(chars@, pos as int),
{
    let n = chars.len();
    let mut end = pos;
    proof {
        lemma_close_of_bounds(chars@, pos as int);
    }
    while end < n && chars[end] != '>'
        invariant
            n == chars@.len(),
            pos <= end <= n,
            close_of(chars@, end as int) == close_of(chars@, pos as int),
        decreases n - end,
    {
        end += 1;
    }
    let next = if end < n { end + 1 } else { end };
    let ghost name = chars@.subrange(pos as int, end as int);
    let mut d = pos;
    while d < end && chars[d] != '-'
        invariant
            n == chars@.len(),
            pos <= d <= end <= n,
            name == chars@.subrange(pos as int, end as int),
            forall|k: int| pos <= k < d ==> chars@[k] != '-',
        decreases end - d,
    {
        d += 1;
    }
    proof {
        lemma_dash_of(name);
        if dash_of(name) < d - pos {
            assert(name[dash_of(name)] == chars@[pos + dash_of(name)]);
        }
        if d < end {
            assert(name[d - pos] == '-');
        }
        assert(dash_of(name) == d - pos);
    }
    if d < end {
        let left_chars = slice_chars(chars.as_slice(), pos, d);
        let left = string_of(left_chars.as_slice());
        let lower = to_lowercase(left.as_str());
        let modifier: &str = if str_eq(lower.as_str(), "c") {
            "ctrl"
        } else if str_eq(lower.as_str(), "a") {
            "alt"
        } else {
            lower.as_str()
        };
        proof {
            assert(left@ =~= name.take(d - pos));
            assert(modifier@ == modifier_name(to_lower_spec(name.take(d - pos)))) by {
                reveal_strlit("ctrl");
                reveal_strlit("alt");
            }
            assert(chars@[d + 1] == name[d - pos + 1]);
        }
        let mut keys: Vec<Key> = Vec::new();
        keys.push(Key::from(modifier));
        keys.push(Key::from(chars[d + 1]));
        proof {
            assert(keys@ =~= bracket_keys(name));
        }
        return (keys, next);
    }
    let name_chars = slice_chars(chars.as_slice(), pos, end);
    let string = string_of(name_chars.as_slice());
    let mut keys: Vec<Key> = Vec::new();
    keys.push(Key::from(string.as_str()));
    proof {
        assert(string@ =~= name);
        assert(keys@ =~= bracket_keys(name));
    }
    (keys, next)
}

/// The keys a key string stands for, in order.
pub fn string_to_key(keys_string: &str) -> (keys: Vec<Key>)
    requires
        parse_ok(keys_string@, 0),
    ensures
        keys@ == keys_of_string(keys_string@, 0),
{
    let chars = chars_of(keys_string);
    let n = chars.len();
    let mut keys: Vec<Key> = Vec::new();
    let mut pos: usize = 0;
    proof {
        assert(keys@ + keys_of_string(chars@, 0) =~= keys_of_string(chars@, 0));
    }
    while pos < n
        invariant
            n == chars@.len(),
            chars@ == keys_string@,
            pos <= n,
            parse_ok(chars@, pos as int),
            keys@ + keys_of_string(chars@, pos as int) == keys_of_string(chars@, 0),
        decreases n - pos,
    {
        let c = chars[pos];
        pos += 1;
        if c == '<' {
            proof {
                lemma_close_of_bounds(chars@, pos as int);
            }
            let ghost before = keys@;
            let (mut special, next) = specal_keys(&chars, pos);
            keys.append(&mut special);
            proof {
                assert(keys@ + keys_of_string(chars@, next as int) =~= before + keys_of_string(
                    chars@,
                    pos - 1,
                ));
            }
            pos = next;
        } else {
            let ghost before = keys@;
            keys.push(Key::from(c));
            proof {
                assert(keys@ + keys_of_string(chars@, pos as int) =~= before + keys_of_string(
                    chars@,
                    pos - 1,
                ));
            }
        }
    }
    proof {
        assert(keys@ + keys_of_string(chars@, n as int) =~= keys@);
    }
    keys
}

/// A modifier key, which combines with the key after it.
pub open spec fn is_modifier(k: Key) -> bool {
    k == Key::Ctrl || k == Key::Alt
}

/// Key presses from keys: a modifier key and the key after it make one
/// press with that modifier; every other key is a press of its own.
pub open spec fn group_keys(ks: Seq<Key>) -> Seq<Keys>
    decreases ks.len(),
{
    if ks.len() == 0 {
        Seq::empty()
    } else if is_modifier(ks[0]) && ks.len() >= 2 {
        seq![Keys::KeyAndMod { key: ks[1], modk: ks[0] }] + group_keys(ks.skip(2))
    } else {
        seq![Keys::Key(ks[0])] + group_keys(ks.drop_first())
    }
}

/// The key presses a key string stands for: `"<C-a>"` is `a` with Control
/// held.
pub fn string_to_keys(keys_string: &str) -> (r: Vec<Keys>)
    requires
        parse_ok(keys_string@, 0),
    ensures
        r@ == group_keys(keys_of_string(keys_string@, 0)),
{
    let keys = string_to_key(keys_string);
    let ghost ks = keys@;
    let n = keys.len();
    let mut out: Vec<Keys> = Vec::new();
    let mut i: usize = 0;
    proof {
        assert(ks.skip(0) =~= ks);
    }
    while i < n
        invariant
            n == keys@.len(),
            ks == keys@,
            i <= n,
            out@ + group_keys(ks.skip(i as int)) == group_keys(ks),
        decreases n - i,
    {
        let k = keys[i];
        let ghost rest = ks.skip(i as int);
        if (matches!(k, Key::Ctrl) || matches!(k, Key::Alt)) && i + 1 < n {
            out.push(Keys::KeyAndMod { key: keys[i + 1], modk: k });
            proof {
                assert(rest.skip(2) =~= ks.skip(i + 2));
                assert(out@ + group_keys(ks.skip(i + 2)) =~= out@.drop_last() + group_keys(rest));
            }
            i += 2;
        } else {
            out.push(Keys::Key(k));
            proof {
                assert(rest.drop_first() =~= ks.skip(i + 1));
                assert(out@ + group_keys(ks.skip(i + 1)) =~= out@.drop_last() + group_keys(rest));
            }
            i += 1;
        }
    }
    proof {
        assert(ks.skip(n as int) =~= Seq::<Key>::empty());
        assert(out@ + group_keys(Seq::<Key>::empty()) =~= out@);
    }
    out
}

} // verus!
