//! The command line: what a typed command asks the editor to do. The text
//! is trimmed, its first word picks the command and the rest are its
//! arguments; running the command is the runtime's part.
use vstd::prelude::*;
use crate::engine::commands::Command;
use crate::strings::{chars_of, slice_chars, string_of};
use crate::editor::position::Position;

verus! {

/// The characters with the Unicode `White_Space` property.
pub open spec fn is_ws(c: char) -> bool {
    ||| c == '\t'
    ||| c == '\n'
    ||| c == '\u{0B}'
    ||| c == '\u{0C}'
    ||| c == '\r'
    ||| c == ' '
    ||| c == '\u{85}'
    ||| c == '\u{A0}'
    ||| c == '\u{1680}'
    ||| ('\u{2000}' <= c && c <= '\u{200A}')
    ||| c == '\u{2028}'
    ||| c == '\u{2029}'
    ||| c == '\u{202F}'
    ||| c == '\u{205F}'
    ||| c == '\u{3000}'
}

/// Whether `c` has the Unicode `White_Space` property.
pub fn is_whitespace(c: char) -> (r: bool)
    ensures
        r == is_ws(c),
{
    c == '\t' || c == '\n' || c == '\u{0B}' || c == '\u{0C}' || c == '\r' || c == ' ' || c
        == '\u{85}' || c == '\u{A0}' || c == '\u{1680}' || ('\u{2000}' <= c && c <= '\u{200A}')
        || c == '\u{2028}' || c == '\u{2029}' || c == '\u{202F}' || c == '\u{205F}' || c
        == '\u{3000}'
}

/// `s` without its leading white space.
pub open spec fn trim_start(s: Seq<char>) -> Seq<char>
    decreases s.len(),
{
    if s.len() > 0 && is_ws(s[0]) {
        trim_start(s.drop_first())
    } else {
        s
    }
}

/// `s` without its trailing white space.
pub open spec fn trim_end(s: Seq<char>) -> Seq<char>
    decreases s.len(),
{
    if s.len() > 0 && is_ws(s.last()) {
        trim_end(s.drop_last())
    } else {
        s
    }
}

/// `s` without leading and trailing white space, as `str::trim` gives it.
pub open spec fn trim(s: Seq<char>) -> Seq<char> {
    trim_end(trim_start(s))
}

/// The index of the first space in `s`, or its length.
pub open spec fn space_of(s: Seq<char>) -> int
    decreases s.len(),
{
    if s.len() == 0 {
        0
    } else if s[0] == ' ' {
        0
    } else {
        1 + space_of(s.drop_first())
    }
}

/// The first word of `s`: all of it before its first space.
pub open spec fn first_word(s: Seq<char>) -> Seq<char> {
    s.take(space_of(s))
}

/// The rest of `s` after its first space; empty without one.
pub open spec fn after_word(s: Seq<char>) -> Seq<char> {
    if space_of(s) < s.len() { s.skip(space_of(s) + 1) } else { Seq::empty() }
}

/// The pieces of `s` between single spaces, as `str::split(' ')` gives
/// them.
pub open spec fn split_spaces(s: Seq<char>) -> Seq<Seq<char>>
    decreases s.len(),
{
    if space_of(s) >= s.len() {
        seq![s]
    } else {
        proof {
            lemma_space_of(s);
        }
        seq![s.take(space_of(s))] + split_spaces(s.skip(space_of(s) + 1))
    }
}

/// The value of a string of decimal digits.
pub open spec fn digits_value(s: Seq<char>) -> nat
    decreases s.len(),
{
    if s.len() == 0 {
        0
    } else {
        digits_value(s.drop_last()) * 10 + ((s.last() as u32) - ('0' as u32)) as nat
    }
}

/// Whether every character is a decimal digit.
pub open spec fn all_digits(s: Seq<char>) -> bool {
    forall|i: int| 0 <= i < s.len() ==> '0' <= #[trigger] s[i] && s[i] <= '9'
}

/// The number `s` writes, as `usize::from_str` reads it: decimal digits,
/// at least one, after an optional `+`, of a value that fits.
pub open spec fn parse_usize(s: Seq<char>) -> Option<usize> {
    let d = if s.len() > 0 && s[0] == '+' { s.drop_first() } else { s };
    if d.len() > 0 && all_digits(d) && digits_value(d) <= usize::MAX {
        Some(digits_value(d) as usize)
    } else {
        None
    }
}

pub proof fn lemma_space_of(s: Seq<char>)
    ensures
        0 <= space_of(s) <= s.len(),
        space_of(s) < s.len() ==> s[space_of(s)] == ' ',
        forall|i: int| 0 <= i < space_of(s) ==> s[i] != ' ',
    decreases s.len(),
{
    if s.len() > 0 && s[0] != ' ' {
        lemma_space_of(s.drop_first());
        assert forall|i: int| 0 <= i < space_of(s) implies s[i] != ' ' by {
            if i > 0 {
                assert(s[i] == s.drop_first()[i - 1]);
            }
        }
    }
}

proof fn lemma_trim_start_skip(s: Seq<char>, i: int)
    requires
        0 <= i <= s.len(),
        forall|k: int| 0 <= k < i ==> is_ws(#[trigger] s[k]),
    ensures
        trim_start(s) == trim_start(s.skip(i)),
    decreases i,
{
    if i > 0 {
        assert(s.skip(1) =~= s.drop_first());
        lemma_trim_start_skip(s.drop_first(), i - 1);
        assert(s.drop_first().skip(i - 1) =~= s.skip(i));
    } else {
        assert(s.skip(0) =~= s);
    }
}

proof fn lemma_trim_end_take(s: Seq<char>, j: int)
    requires
        0 <= j <= s.len(),
        forall|k: int| j <= k < s.len() ==> is_ws(#[trigger] s[k]),
    ensures
        trim_end(s) == trim_end(s.take(j)),
    decreases s.len() - j,
{
    if j < s.len() {
        assert(s.take(s.len() - 1) =~= s.drop_last());
        lemma_trim_end_take(s.drop_last(), j);
        assert(s.drop_last().take(j) =~= s.take(j));
    } else {
        assert(s.take(j) =~= s);
    }
}

/// `s` without leading and trailing white space.
pub fn trim_chars(s: &Vec<char>) -> (r: Vec<char>)
    ensures
        r@ == trim(s@),
{
    let n = s.len();
    let mut i: usize = 0;
    while i < n && is_whitespace(s[i])
        invariant
            n == s@.len(),
            i <= n,
            forall|k: int| 0 <= k < i ==> is_ws(#[trigger] s@[k]),
        decreases n - i,
    {
        i += 1;
    }
    proof {
        lemma_trim_start_skip(s@, i as int);
        if i < n {
            assert(s@.skip(i as int)[0] == s@[i as int]);
        } else {
            assert(s@.skip(i as int).len() == 0);
        }
        assert(trim_start(s@.skip(i as int)) == s@.skip(i as int));
    }
    let ghost mid = s@.skip(i as int);
    let mut j: usize = n;
    while j > i && is_whitespace(s[j - 1])
        invariant
            n == s@.len(),
            i <= j <= n,
            mid == s@.skip(i as int),
            forall|k: int| j <= k < n ==> is_ws(#[trigger] s@[k]),
        decreases j - i,
    {
        j -= 1;
    }
    proof {
        assert forall|k: int| (j - i) <= k < mid.len() implies is_ws(#[trigger] mid[k]) by {
            assert(mid[k] == s@[i + k]);
        }
        lemma_trim_end_take(mid, j - i);
        let t = mid.take(j - i);
        if j > i {
            assert(t.last() == s@[j - 1]);
        }
        assert(trim_end(t) == t);
    }
    let r = slice_chars(s.as_slice(), i, j);
    proof {
        assert(r@ =~= mid.take(j - i));
    }
    r
}

/// The index of the first space in `s`, or its length.
fn find_space(s: &Vec<char>) -> (k: usize)
    ensures
        k == space_of(s@),
{
    proof {
        lemma_space_of(s@);
    }
    let mut k: usize = 0;
    while k < s.len() && s[k] != ' '
        invariant
            k <= s@.len(),
            forall|i: int| 0 <= i < k ==> s@[i] != ' ',
        decreases s@.len() - k,
    {
        k += 1;
    }
    proof {
        if space_of(s@) < k {
            assert(s@[space_of(s@)] == ' ');
        }
        if k < s@.len() {
            assert(s@[k as int] == ' ');
        }
    }
    k
}

/// The pieces of `s` between single spaces.
pub fn split_on_spaces(s: &Vec<char>) -> (r: Vec<Vec<char>>)
    ensures
        r@.map_values(|p: Vec<char>| p@) == split_spaces(s@),
{
    let mut out: Vec<Vec<char>> = Vec::new();
    let mut rest: Vec<char> = slice_chars(s.as_slice(), 0, s.len());
    proof {
        assert(rest@ =~= s@);
        assert(out@.map_values(|p: Vec<char>| p@) + split_spaces(rest@) =~= split_spaces(s@));
    }
    loop
        invariant
            out@.map_values(|p: Vec<char>| p@) + split_spaces(rest@) == split_spaces(s@),
        decreases rest@.len(),
    {
        let k = find_space(&rest);
        let ghost before = out@.map_values(|p: Vec<char>| p@);
        if k >= rest.len() {
            let ghost r0 = rest@;
            out.push(rest);
            proof {
                assert(out@.map_values(|p: Vec<char>| p@) =~= before + split_spaces(r0));
            }
            return out;
        }
        proof {
            lemma_space_of(rest@);
        }
        let piece = slice_chars(rest.as_slice(), 0, k);
        let next = slice_chars(rest.as_slice(), k + 1, rest.len());
        let ghost r0 = rest@;
        out.push(piece);
        proof {
            assert(piece@ =~= r0.take(k as int));
            assert(next@ =~= r0.skip(k + 1));
            assert(out@.map_values(|p: Vec<char>| p@) + split_spaces(next@) =~= before
                + split_spaces(r0));
        }
        rest = next;
    }
}

proof fn lemma_digits_push(s: Seq<char>, c: char)
    ensures
        digits_value(s.push(c)) == digits_value(s) * 10 + ((c as u32) - ('0' as u32)) as nat,
{
    assert(s.push(c).drop_last() =~= s);
}

proof fn lemma_digits_mono(s: Seq<char>, i: int)
    requires
        0 <= i <= s.len(),
    ensures
        digits_value(s.take(i)) <= digits_value(s),
    decreases s.len() - i,
{
    if i < s.len() {
        lemma_digits_mono(s, i + 1);
        assert(s.take(i + 1).drop_last() =~= s.take(i));
        assert(digits_value(s.take(i + 1)) == digits_value(s.take(i)) * 10 + ((s[i] as u32) - (
        '0' as u32)) as nat);
        assert(digits_value(s.take(i)) <= digits_value(s.take(i)) * 10) by (nonlinear_arith);
    } else {
        assert(s.take(i) =~= s);
    }
}

/// The number `s` writes, if it writes one that fits.
pub fn parse_usize_chars(s: &Vec<char>) -> (r: Option<usize>)
    ensures
        r == parse_usize(s@),
{
    let start: usize = if s.len() > 0 && s[0] == '+' {
        1
    } else {
        0
    };
    let ghost d = if s@.len() > 0 && s@[0] == '+' { s@.drop_first() } else { s@ };
    proof {
        assert(d =~= s@.skip(start as int));
    }
    if start >= s.len() {
        return None;
    }
    let mut value: usize = 0;
    let mut i = start;
    while i < s.len()
        invariant
            start <= i <= s@.len(),
            start < s@.len(),
            d == s@.skip(start as int),
            d == (if s@.len() > 0 && s@[0] == '+' { s@.drop_first() } else { s@ }),
            all_digits(d.take(i - start)),
            value == digits_value(d.take(i - start)),
        decreases s@.len() - i,
    {
        let c = s[i];
        proof {
            assert(d.take(i - start + 1) =~= d.take(i - start).push(c));
            lemma_digits_push(d.take(i - start), c);
        }
        if c < '0' || c > '9' {
            proof {
                assert(d[i - start] == c);
                assert(!all_digits(d));
                assert(parse_usize(s@) is None);
            }
            return None;
        }
        let digit = (c as u32 - '0' as u32) as usize;
        match value.checked_mul(10) {
            Some(v) => match v.checked_add(digit) {
                Some(w) => {
                    value = w;
                },
                None => {
                    proof {
                        lemma_all_digits_take(d, i - start + 1);
                        lemma_digits_mono(d, i - start + 1);
                        assert(digits_value(d.take(i - start + 1)) == v + digit);
                        assert(digits_value(d) > usize::MAX);
                        assert(parse_usize(s@) is None);
                    }
                    return None;
                },
            },
            None => {
                proof {
                    lemma_all_digits_take(d, i - start + 1);
                    lemma_digits_mono(d, i - start + 1);
                    assert(digits_value(d.take(i - start + 1)) >= value * 10);
                    assert(digits_value(d) > usize::MAX);
                    assert(parse_usize(s@) is None);
                }
                return None;
            },
        }
        i += 1;
    }
    proof {
        assert(d.take(i - start) =~= d);
    }
    Some(value)
}

/// A digit prefix of a digit string is one, and a non-digit in the prefix
/// is a non-digit in the whole.
proof fn lemma_all_digits_take(d: Seq<char>, i: int)
    requires
        0 <= i <= d.len(),
    ensures
        all_digits(d) ==> all_digits(d.take(i)),
{
    if all_digits(d) {
        assert forall|k: int| 0 <= k < i implies '0' <= #[trigger] d.take(i)[k] && d.take(i)[k] <= '9' by {
            assert(d.take(i)[k] == d[k]);
        }
    }
}

/// The command words, spelled out.
proof fn lemma_command_words()
    ensures
        "exit"@ == seq!['e', 'x', 'i', 't'],
        "quit"@ == seq!['q', 'u', 'i', 't'],
        "q"@ == seq!['q'],
        "write"@ == seq!['w', 'r', 'i', 't', 'e'],
        "w"@ == seq!['w'],
        "edit"@ == seq!['e', 'd', 'i', 't'],
        "e"@ == seq!['e'],
        "buffer"@ == seq!['b', 'u', 'f', 'f', 'e', 'r'],
        "b"@ == seq!['b'],
        "ls"@ == seq!['l', 's'],
        "wq"@ == seq!['w', 'q'],
{
    reveal_strlit("exit");
    assert("exit"@ =~= seq!['e', 'x', 'i', 't']);
    reveal_strlit("quit");
    assert("quit"@ =~= seq!['q', 'u', 'i', 't']);
    reveal_strlit("q");
    assert("q"@ =~= seq!['q']);
    reveal_strlit("write");
    assert("write"@ =~= seq!['w', 'r', 'i', 't', 'e']);
    reveal_strlit("w");
    assert("w"@ =~= seq!['w']);
    reveal_strlit("edit");
    assert("edit"@ =~= seq!['e', 'd', 'i', 't']);
    reveal_strlit("e");
    assert("e"@ =~= seq!['e']);
    reveal_strlit("buffer");
    assert("buffer"@ =~= seq!['b', 'u', 'f', 'f', 'e', 'r']);
    reveal_strlit("b");
    assert("b"@ =~= seq!['b']);
    reveal_strlit("ls");
    assert("ls"@ =~= seq!['l', 's']);
    reveal_strlit("wq");
    assert("wq"@ =~= seq!['w', 'q']);
}

/// Whether a word starts with `!`: a command for the terminal.
pub open spec fn is_bang(c: Seq<char>) -> bool {
    c.len() > 0 && c[0] == '!'
}

/// The words that quit.
pub open spec fn is_quit_word(c: Seq<char>) -> bool {
    c == "exit"@ || c == "quit"@ || c == "q"@
}

/// The words that save.
pub open spec fn is_write_word(c: Seq<char>) -> bool {
    c == "write"@ || c == "w"@
}

/// The words that open a file.
pub open spec fn is_edit_word(c: Seq<char>) -> bool {
    c == "edit"@ || c == "e"@
}

/// The words that switch buffers.
pub open spec fn is_buffer_word(c: Seq<char>) -> bool {
    c == "buffer"@ || c == "b"@
}

/// The command a command-bar line asks for: `!` runs the rest in the
/// terminal; `exit`, `quit`, `q` quit; `write`, `w` save; `edit`, `e` open
/// the file named on the line; `buffer`, `b` switch to the buffer named on
/// the line; `ls` lists the buffers; any other first word names a user
/// command.
pub fn execute_command_line(line: &str) -> (r: Command)
    ensures
        ({
            let t = trim(line@);
            let c = first_word(t);
            &&& is_bang(c) ==> (r is ExecuteTerminalCommand && r->ExecuteTerminalCommand_0@ == trim(
                t.drop_first(),
            ))
            &&& (!is_bang(c) && is_quit_word(c)) ==> r is Quit
            &&& (!is_bang(c) && is_write_word(c)) ==> r is SaveFile
            &&& (!is_bang(c) && is_edit_word(c)) ==> (r is EditFile && r->EditFile_0@ == t)
            &&& (!is_bang(c) && is_buffer_word(c)) ==> (r is JumpToBuffer && r->JumpToBuffer_0@
                == t)
            &&& (!is_bang(c) && c == "ls"@) ==> r is ListBuffers
            &&& (!is_bang(c) && !is_quit_word(c) && !is_write_word(c) && !is_edit_word(c)
                && !is_buffer_word(c) && c != "ls"@) ==> (r is UserCommand && r->UserCommand_0@
                == c)
        }),
{
    proof {
        lemma_command_words();
    }
    let chars = chars_of(line);
    let t = trim_chars(&chars);
    let k = find_space(&t);
    proof {
        lemma_space_of(t@);
    }
    let cmd = slice_chars(t.as_slice(), 0, k);
    proof {
        assert(cmd@ =~= first_word(t@));
    }
    if cmd.len() > 0 && cmd[0] == '!' {
        let tail = slice_chars(t.as_slice(), 1, t.len());
        proof {
            assert(tail@ =~= t@.drop_first());
        }
        let rest = trim_chars(&tail);
        return Command::ExecuteTerminalCommand(string_of(rest.as_slice()));
    }
    let c = cmd.as_slice();
    if crate::strings::chars_eq_str(c, "exit") || crate::strings::chars_eq_str(c, "quit")
        || crate::strings::chars_eq_str(c, "q") {
        Command::Quit
    } else if crate::strings::chars_eq_str(c, "write") || crate::strings::chars_eq_str(c, "w") {
        Command::SaveFile
    } else if crate::strings::chars_eq_str(c, "edit") || crate::strings::chars_eq_str(c, "e") {
        Command::EditFile(string_of(t.as_slice()))
    } else if crate::strings::chars_eq_str(c, "buffer") || crate::strings::chars_eq_str(c, "b") {
        Command::JumpToBuffer(string_of(t.as_slice()))
    } else if crate::strings::chars_eq_str(c, "ls") {
        Command::ListBuffers
    } else {
        Command::UserCommand(string_of(c))
    }
}

/// What a command typed on the command line asks of the editor.
#[derive(Debug)]
pub enum CommandLineAction {
    /// Move the cursor to this line, at most the last.
    GotoLine(usize),
    /// Run a program in the terminal with arguments and show its output.
    Terminal { program: String, args: Vec<String> },
    /// Open this file in a new buffer.
    AddBuffer(String),
    CloseWindow,
    Save,
    SaveAndExit,
    SwitchBuffer(usize),
    ListBuffers,
    /// Nothing to do.
    NoAction,
    /// Show this error.
    Error(String),
}

/// Where a go-to-line action puts the cursor of a file with `len_lines`
/// lines whose cursor is at `cursor`: the same column, on the asked line, or
/// on line `len_lines` when the asked one is past it.
pub fn goto_line_position(cursor: Position, len_lines: usize, line: usize) -> (p: Position)
    ensures
        p.x == cursor.x,
        p.y == if line <= len_lines { line } else { len_lines },
{
    let y = if line <= len_lines { line } else { len_lines };
    Position::new(cursor.x, y)
}

/// The pieces joined with single spaces.
pub open spec fn join_spaces(ps: Seq<Seq<char>>) -> Seq<char>
    decreases ps.len(),
{
    if ps.len() == 0 {
        Seq::empty()
    } else if ps.len() == 1 {
        ps[0]
    } else {
        join_spaces(ps.drop_last()) + seq![' '] + ps.last()
    }
}

/// The words of a command line: its trimmed text split at single spaces.
pub open spec fn words_of(command: Seq<char>) -> Seq<Seq<char>> {
    split_spaces(trim(command))
}

/// Whether the spec of a string list equals a list of sequences.
pub open spec fn string_views(v: Seq<String>) -> Seq<Seq<char>> {
    v.map_values(|s: String| s@)
}

proof fn lemma_split_nonempty(s: Seq<char>)
    ensures
        split_spaces(s).len() >= 1,
        split_spaces(s)[0] == first_word(s),
{
    lemma_space_of(s);
    if space_of(s) >= s.len() {
        assert(s.take(s.len() as int) =~= s);
    }
}

/// The action a command line asks for: a number goes to that line; `!`
/// runs a program with the other words as its arguments; `e` opens the
/// file the other words name; `q` closes the window, `w` saves and `wq`
/// saves and exits; `b` with an argument switches to the buffer it numbers,
/// if it is a number; `ls` lists the buffers; any other word is an error.
pub fn run_command_line(command: &str) -> (r: CommandLineAction)
    ensures
        ({
            let ws = words_of(command@);
            let c = ws[0];
            let rest = ws.drop_first();
            &&& parse_usize(c) is Some ==> r == CommandLineAction::GotoLine(parse_usize(c)->0)
            &&& (parse_usize(c) is None && is_bang(c)) ==> (r matches CommandLineAction::Terminal {
                program,
                args,
            } && program@ == c.drop_first() && string_views(args@) == rest)
            &&& (parse_usize(c) is None && !is_bang(c) && c == "e"@) ==> (r is AddBuffer
                && r->AddBuffer_0@ == join_spaces(rest))
            &&& (parse_usize(c) is None && !is_bang(c) && c == "q"@) ==> r is CloseWindow
            &&& (parse_usize(c) is None && !is_bang(c) && c == "w"@) ==> r is Save
            &&& (parse_usize(c) is None && !is_bang(c) && c == "wq"@) ==> r is SaveAndExit
            &&& (parse_usize(c) is None && !is_bang(c) && c == "b"@ && rest.len() > 0) ==> r == (
            match parse_usize(rest[0]) {
                Some(i) => CommandLineAction::SwitchBuffer(i),
                None => CommandLineAction::NoAction,
            })
            &&& (parse_usize(c) is None && !is_bang(c) && c == "ls"@) ==> r is ListBuffers
            &&& (parse_usize(c) is None && !is_bang(c) && c != "e"@ && c != "q"@ && c != "w"@ && c
                != "wq"@ && !(c == "b"@ && rest.len() > 0) && c != "ls"@) ==> (r is Error
                && r->Error_0@ == "unknown command: "@ + c)
        }),
{
    proof {
        lemma_command_words();
    }
    let chars = chars_of(command);
    let t = trim_chars(&chars);
    let mut items = split_on_spaces(&t);
    proof {
        lemma_split_nonempty(t@);
    }
    let ghost ws = items@.map_values(|p: Vec<char>| p@);
    let first = items.remove(0);
    proof {
        assert(items@.map_values(|p: Vec<char>| p@) =~= ws.drop_first());
    }
    if let Some(n) = parse_usize_chars(&first) {
        return CommandLineAction::GotoLine(n);
    }
    if first.len() > 0 && first[0] == '!' {
        let program = slice_chars(first.as_slice(), 1, first.len());
        let mut args: Vec<String> = Vec::new();
        let mut i: usize = 0;
        while i < items.len()
            invariant
                i <= items@.len(),
                string_views(args@) == items@.map_values(|p: Vec<char>| p@).take(i as int),
            decreases items@.len() - i,
        {
            let ghost before = string_views(args@);
            let arg = string_of(items[i].as_slice());
            proof {
                assert(arg@ == items@[i as int]@);
            }
            args.push(arg);
            proof {
                assert(string_views(args@) =~= before.push(items@[i as int]@));
                assert(items@.map_values(|p: Vec<char>| p@).take(i + 1) =~= items@.map_values(|p: Vec<char>| p@).take(i as int).push(items@[i as int]@));
            }
            i += 1;
        }
        proof {
            assert(program@ =~= first@.drop_first());
            assert(items@.map_values(|p: Vec<char>| p@).take(items@.len() as int) =~= items@.map_values(|p: Vec<char>| p@));
        }
        return CommandLineAction::Terminal { program: string_of(program.as_slice()), args };
    }
    let c = first.as_slice();
    if crate::strings::chars_eq_str(c, "e") {
        let mut joined: Vec<char> = Vec::new();
        let mut i: usize = 0;
        while i < items.len()
            invariant
                i <= items@.len(),
                joined@ == join_spaces(items@.map_values(|p: Vec<char>| p@).take(i as int)),
            decreases items@.len() - i,
        {
            let ghost before = items@.map_values(|p: Vec<char>| p@).take(i as int);
            if i > 0 {
                joined.push(' ');
            }
            crate::strings::extend_chars(&mut joined, items[i].as_slice());
            i += 1;
            proof {
                let now = items@.map_values(|p: Vec<char>| p@).take(i as int);
                assert(now.drop_last() =~= before);
                if i > 1 {
                    assert(joined@ =~= join_spaces(now.drop_last()) + seq![' '] + now.last());
                } else {
                    assert(joined@ =~= now[0]);
                }
            }
        }
        proof {
            assert(items@.map_values(|p: Vec<char>| p@).take(items@.len() as int) =~= items@.map_values(|p: Vec<char>| p@));
        }
        return CommandLineAction::AddBuffer(string_of(joined.as_slice()));
    }
    if crate::strings::chars_eq_str(c, "q") {
        return CommandLineAction::CloseWindow;
    }
    if crate::strings::chars_eq_str(c, "w") {
        return CommandLineAction::Save;
    }
    if crate::strings::chars_eq_str(c, "wq") {
        return CommandLineAction::SaveAndExit;
    }
    if crate::strings::chars_eq_str(c, "b") && items.len() > 0 {
        proof {
            assert(items@[0]@ == ws.drop_first()[0]);
        }
        return match parse_usize_chars(&items[0]) {
            Some(idx) => CommandLineAction::SwitchBuffer(idx),
            None => CommandLineAction::NoAction,
        };
    }
    if crate::strings::chars_eq_str(c, "ls") {
        return CommandLineAction::ListBuffers;
    }
    let prefix = "unknown command: ";
    let mut msg: Vec<char> = chars_of(prefix);
    crate::strings::extend_chars(&mut msg, c);
    proof {
        assert(msg@ =~= "unknown command: "@ + first@);
    }
    CommandLineAction::Error(string_of(msg.as_slice()))
}

} // verus!
