//! The decisions of the editor's state machine: what a typed command asks
//! for, what the buffer list shows, which buffer a switch goes to, and what
//! typed text becomes in each mode.
use vstd::prelude::*;
use crate::editor::buffer::{Buffer, Cursor};
use crate::editor::command::{
    aligned_cursor, buffer_view, buffer_views, down_cursor, insert_index, left_cursor,
    right_cursor, typed_cursor, up_cursor,
};
use crate::editor::buffer::{line_len_of, min_u16, sat_add_u16, sat_sub as sat_sub_int, sat_sub_u16};
use crate::rope::line_count;
use crate::editor::message::{Message, UserMessageBuilder};
use crate::engine::map_keys::Mapper;
use crate::engine::parse_keys::KeyParser;
use crate::ui::key::{keys_of_event, KeyEvent, Keys};
use crate::ui::layout::{Pos, Size};
use crate::ui::tui::CursorStyle;
use crate::editor::buffer::{screen_piece, screen_rows};
use crate::engine::commands::Command;
use crate::engine::dispatch::{decide_keys, typed_chars, KeyDecision};
use crate::ui::key::keys_is_null;
use crate::rope::{line_start, line_text};
use crate::engine::command_line::{
    after_word, first_word, is_buffer_word, is_edit_word, is_quit_word, lemma_space_of,
    parse_usize, parse_usize_chars, trim, trim_chars,
};
use crate::engine::line_number::LineNumberKind;
use crate::engine::mode::Mode;
use crate::strings::{
    chars_eq_str, chars_of, decimal, decimal_chars, extend_chars, slice_chars, string_from,
    string_of,
};
use crate::ui::style::{Color, Style};
use crate::engine::text_formater::byte_len;
use crate::strings::count_of;
use vstd::utf8::{encode_scalar, encode_utf8, has_width_1_encoding};

verus! {

/// The row numbering a trimmed command line asks for: `set number`
/// numbers rows absolutely, `set relativenumber` relative to the cursor,
/// `set nonumber` not at all.
pub open spec fn line_numbers_asked(t: Seq<char>) -> Option<LineNumberKind> {
    if first_word(t) == "set"@ {
        let a = after_word(t);
        if a == "number"@ {
            Some(LineNumberKind::AbsoluteNumber)
        } else if a == "relativenumber"@ {
            Some(LineNumberKind::RelativeNumber)
        } else if a == "nonumber"@ {
            Some(LineNumberKind::Off)
        } else {
            None
        }
    } else {
        None
    }
}

/// Whether `m` is what the command line `command` asks for: its first
/// word after trimming picks the message.
pub open spec fn commanded(command: Seq<char>, m: Message) -> bool {
    let t = trim(command);
    let c = first_word(t);
    &&& is_quit_word(c) ==> m is Quit
    &&& c == "ls"@ ==> m is BufferList
    &&& is_edit_word(c) ==> (m is EditFile && m->EditFile_0@ == after_word(t))
    &&& is_buffer_word(c) ==> (m is SwapBuffer && m->SwapBuffer_0@ == after_word(t))
    &&& line_numbers_asked(t) matches Some(k) ==> m == Message::SetLineNumbers(k)
    &&& (!is_quit_word(c) && c != "ls"@ && !is_edit_word(c) && !is_buffer_word(c)
        && line_numbers_asked(t) is None) ==> (
    m matches Message::UserMessage(b) && b.message_view() == t && b.footer_view()
        == "UnKnown Command"@ && b.style_view().foreground_color == Some(Color::Red))
}

/// What a command typed on the command bar asks for: `quit`, `exit`, `q`
/// quit; `ls` lists the buffers; `edit`, `e` open the file named after
/// the first space; `buffer`, `b` switch to the buffer named after it;
/// `set number`, `set relativenumber` and `set nonumber` set how rows are
/// numbered; any other command is shown back in red as unknown.
pub fn command_message(command: &str) -> (m: Message)
    ensures
        commanded(command@, m),
{
    proof {
        reveal_strlit("quit");
        reveal_strlit("exit");
        reveal_strlit("q");
        reveal_strlit("ls");
        reveal_strlit("edit");
        reveal_strlit("e");
        reveal_strlit("buffer");
        reveal_strlit("b");
        reveal_strlit("set");
        reveal_strlit("number");
        reveal_strlit("relativenumber");
        reveal_strlit("nonumber");
        assert("set"@ =~= seq!['s', 'e', 't']);
        assert("quit"@ =~= seq!['q', 'u', 'i', 't']);
        assert("exit"@ =~= seq!['e', 'x', 'i', 't']);
        assert("q"@ =~= seq!['q']);
        assert("ls"@ =~= seq!['l', 's']);
        assert("edit"@ =~= seq!['e', 'd', 'i', 't']);
        assert("e"@ =~= seq!['e']);
        assert("buffer"@ =~= seq!['b', 'u', 'f', 'f', 'e', 'r']);
        assert("b"@ =~= seq!['b']);
        assert("q"@[0] != "e"@[0] && "q"@[0] != "b"@[0] && "e"@[0] != "b"@[0]);
    }
    let chars = chars_of(command);
    let t = trim_chars(&chars);
    let mut k: usize = 0;
    proof {
        lemma_space_of(t@);
    }
    while k < t.len() && t[k] != ' '
        invariant
            k <= t@.len(),
            forall|i: int| 0 <= i < k ==> t@[i] != ' ',
        decreases t@.len() - k,
    {
        k += 1;
    }
    proof {
        let s = crate::engine::command_line::space_of(t@);
        if s < k {
            assert(t@[s] == ' ');
        }
        if k < t@.len() {
            assert(t@[k as int] == ' ');
        }
        assert(s == k);
    }
    let cmd = slice_chars(t.as_slice(), 0, k);
    let tail = if k < t.len() {
        slice_chars(t.as_slice(), k + 1, t.len())
    } else {
        Vec::new()
    };
    proof {
        assert(cmd@ =~= first_word(t@));
        assert(tail@ =~= after_word(t@));
    }
    let c = cmd.as_slice();
    if chars_eq_str(c, "quit") || chars_eq_str(c, "exit") || chars_eq_str(c, "q") {
        proof {
            assert(!is_edit_word(cmd@) && !is_buffer_word(cmd@) && cmd@ != "ls"@);
        }
        Message::Quit
    } else if chars_eq_str(c, "ls") {
        proof {
            assert(!is_edit_word(cmd@) && !is_buffer_word(cmd@));
        }
        Message::BufferList
    } else if chars_eq_str(c, "edit") || chars_eq_str(c, "e") {
        let r = Message::EditFile(string_of(tail.as_slice()));
        proof {
            assert(is_edit_word(first_word(trim(command@))));
            assert(r->EditFile_0@ == after_word(trim(command@)));
        }
        r
    } else if chars_eq_str(c, "buffer") || chars_eq_str(c, "b") {
        proof {
            assert(!is_edit_word(cmd@));
        }
        Message::SwapBuffer(string_of(tail.as_slice()))
    } else if chars_eq_str(c, "set") && chars_eq_str(tail.as_slice(), "number") {
        Message::SetLineNumbers(LineNumberKind::AbsoluteNumber)
    } else if chars_eq_str(c, "set") && chars_eq_str(tail.as_slice(), "relativenumber") {
        Message::SetLineNumbers(LineNumberKind::RelativeNumber)
    } else if chars_eq_str(c, "set") && chars_eq_str(tail.as_slice(), "nonumber") {
        Message::SetLineNumbers(LineNumberKind::Off)
    } else {
        let footer = string_from("UnKnown Command");
        UserMessageBuilder::default().message(string_of(t.as_slice())).footer(footer).fg(
            Color::Red,
        ).build()
    }
}

/// The lines listing the buffers: each line its index, a space and its
/// name, the lines joined by newlines.
pub open spec fn buffer_listing(names: Seq<Seq<char>>) -> Seq<char>
    decreases names.len(),
{
    if names.len() == 0 {
        Seq::empty()
    } else {
        let line = decimal((names.len() - 1) as nat) + seq![' '] + names.last();
        if names.len() == 1 {
            line
        } else {
            buffer_listing(names.drop_last()) + seq!['\n'] + line
        }
    }
}

/// Whether `m` is the message box listing buffers named `names`.
pub open spec fn lists_buffers(names: Seq<Seq<char>>, m: Message) -> bool {
    m matches Message::UserMessage(b) && b.message_view() == buffer_listing(names)
        && b.footer_view() == "ls List Buffers"@ && b.style_view().foreground_color == Some(
        Color::Red,
    )
}

/// The message box listing the buffers by index and name, in red, with
/// the footer `ls List Buffers`.
pub fn buffer_list_message(names: &Vec<String>) -> (m: Message)
    ensures
        lists_buffers(names@.map_values(|s: String| s@), m),
{
    let ghost ns = names@.map_values(|s: String| s@);
    let mut out: Vec<char> = Vec::new();
    let mut i: usize = 0;
    proof {
        assert(ns.take(0) =~= Seq::<Seq<char>>::empty());
    }
    while i < names.len()
        invariant
            i <= names@.len(),
            ns == names@.map_values(|s: String| s@),
            out@ == buffer_listing(ns.take(i as int)),
        decreases names@.len() - i,
    {
        let ghost before = out@;
        if i > 0 {
            out.push('\n');
        }
        let digits = decimal_chars(i);
        extend_chars(&mut out, digits.as_slice());
        out.push(' ');
        let name = chars_of(names[i].as_str());
        extend_chars(&mut out, name.as_slice());
        proof {
            let now = ns.take(i + 1);
            assert(now.drop_last() =~= ns.take(i as int));
            assert(now.last() == names@[i as int]@);
            if i > 0 {
                assert(out@ =~= before + seq!['\n'] + (decimal(i as nat) + seq![' '] + now.last()));
            } else {
                assert(out@ =~= decimal(i as nat) + seq![' '] + now.last());
            }
        }
        i += 1;
    }
    proof {
        assert(ns.take(names@.len() as int) =~= ns);
    }
    let footer = string_from("ls List Buffers");
    UserMessageBuilder::default().message(string_of(out.as_slice())).footer(footer).fg(Color::Red).build()
}

/// The index of the first buffer named `arg`, if any.
pub open spec fn first_named(names: Seq<Seq<char>>, arg: Seq<char>) -> Option<nat>
    decreases names.len(),
{
    if names.len() == 0 {
        None
    } else {
        match first_named(names.drop_last(), arg) {
            Some(i) => Some(i),
            None => if names.last() == arg {
                Some((names.len() - 1) as nat)
            } else {
                None
            },
        }
    }
}

/// The buffer a switch to `arg` goes to: the one it numbers, or else the
/// first one it names.
pub open spec fn switch_target(names: Seq<Seq<char>>, arg: Seq<char>) -> Option<nat> {
    match parse_usize(arg) {
        Some(i) => if i < names.len() {
            Some(i as nat)
        } else {
            None
        },
        None => first_named(names, arg),
    }
}

/// The buffer to switch to for `arg`: the one it numbers, or else the
/// first one it names; it must be one of them.
pub fn swap_buffer_target(names: &Vec<String>, arg: &str) -> (r: usize)
    requires
        arg@.len() > 0,
        switch_target(names@.map_values(|s: String| s@), arg@) is Some,
    ensures
        Some(r as nat) == switch_target(names@.map_values(|s: String| s@), arg@),
{
    let ghost ns = names@.map_values(|s: String| s@);
    let a = chars_of(arg);
    if let Some(idx) = parse_usize_chars(&a) {
        return idx;
    }
    let mut i: usize = 0;
    proof {
        assert(ns.take(0) =~= Seq::<Seq<char>>::empty());
    }
    while i < names.len()
        invariant
            i <= names@.len(),
            ns == names@.map_values(|s: String| s@),
            a@ == arg@,
            parse_usize(arg@) is None,
            first_named(ns.take(i as int), arg@) is None,
            first_named(ns, arg@) is Some,
        decreases names@.len() - i,
    {
        proof {
            assert(ns.take(i + 1).drop_last() =~= ns.take(i as int));
            assert(ns.take(i + 1).last() == names@[i as int]@);
        }
        let same = chars_eq_str(a.as_slice(), names[i].as_str());
        proof {
            assert(same == (arg@ == ns.take(i + 1).last()));
            if same {
                assert(first_named(ns.take(i + 1), arg@) == Some(i as nat));
            } else {
                assert(first_named(ns.take(i + 1), arg@) is None);
            }
        }
        if same {
            proof {
                lemma_first_named_prefix(ns, arg@, i + 1);
            }
            return i;
        }
        i += 1;
    }
    proof {
        assert(ns.take(names@.len() as int) =~= ns);
    }
    i
}

/// The first name found in a prefix is the first found in the whole.
proof fn lemma_first_named_prefix(ns: Seq<Seq<char>>, arg: Seq<char>, i: int)
    requires
        0 <= i <= ns.len(),
    ensures
        first_named(ns.take(i), arg) is Some ==> first_named(ns, arg) == first_named(ns.take(i), arg),
    decreases ns.len() - i,
{
    if i < ns.len() {
        lemma_first_named_prefix(ns, arg, i + 1);
        assert(ns.take(i + 1).drop_last() =~= ns.take(i));
    } else {
        assert(ns.take(i) =~= ns);
    }
}

/// What typed text becomes: text for the command bar in Command mode, text
/// for the buffer in Insert mode, nothing in Normal mode.
pub fn insert_message(mode: Mode, input: String) -> (m: Option<Message>)
    ensures
        mode == Mode::Command ==> (m matches Some(Message::ModeCommandInsertStr(s)) && s@
            == input@),
        mode == Mode::Insert ==> (m matches Some(Message::ModeInsertInsertStr(s)) && s@
            == input@),
        mode == Mode::Normal ==> m is None,
{
    match mode {
        Mode::Command => Some(Message::ModeCommandInsertStr(input)),
        Mode::Insert => Some(Message::ModeInsertInsertStr(input)),
        _ => None,
    }
}


/// The editor's state: the focused buffer, the buffers, the message boxes
/// shown (the last one on top), the command bar's buffer, the key
/// bindings, the pending keys, the mode, the terminal's size and whether
/// it runs.
#[derive(Debug)]
pub struct State {
    pub focused: usize,
    pub buffers: Vec<Buffer>,
    pub messages: Vec<UserMessageBuilder>,
    pub command: Buffer,
    pub map_keys: Mapper,
    pub key_parse: KeyParser,
    pub mode: Mode,
    pub size: Size,
    pub is_running: bool,
    pub line_numbers: LineNumberKind,
}

/// What the state holds, buffers by their views and the pending keys as
/// a sequence.
pub struct StateView {
    pub focused: usize,
    pub buffers: Seq<(Seq<char>, Seq<char>, Cursor)>,
    pub messages: Seq<UserMessageBuilder>,
    pub command: (Seq<char>, Seq<char>, Cursor),
    pub map_keys: Mapper,
    pub pending: Seq<Keys>,
    pub mode: Mode,
    pub size: Size,
    pub is_running: bool,
    pub line_numbers: LineNumberKind,
}

impl View for State {
    type V = StateView;

    open spec fn view(&self) -> StateView {
        StateView {
            focused: self.focused,
            buffers: buffer_views(self.buffers@),
            messages: self.messages@,
            command: buffer_view(self.command),
            map_keys: self.map_keys,
            pending: self.key_parse.pending(),
            mode: self.mode,
            size: self.size,
            is_running: self.is_running,
            line_numbers: self.line_numbers,
        }
    }
}

/// The buffer keys act on: the command bar's in Command mode, else the
/// focused one.
pub open spec fn focused_buffer(v: StateView) -> (Seq<char>, Seq<char>, Cursor) {
    match v.mode {
        Mode::Command => v.command,
        _ => v.buffers[v.focused as int],
    }
}

/// The state with the buffer keys act on replaced.
pub open spec fn with_focused_buffer(v: StateView, b: (Seq<char>, Seq<char>, Cursor)) -> StateView {
    match v.mode {
        Mode::Command => StateView { command: b, ..v },
        _ => StateView { buffers: v.buffers.update(v.focused as int, b), ..v },
    }
}

impl State {
    /// The state's invariant: the focused buffer exists and the pending
    /// keys are well formed.
    pub open spec fn wf(&self) -> bool {
        self.focused < self.buffers@.len() && self.key_parse.wf()
    }

    /// A state over `buffers` (one empty buffer when there are none), on
    /// the first, with the built-in key bindings, in Normal mode, for a
    /// terminal of `size`.
    pub fn new(buffers: Vec<Buffer>, size: Size) -> (st: State)
        ensures
            st.wf(),
            st.focused == 0,
            st.buffers@.len() == if buffers@.len() == 0 { 1 } else { buffers@.len() },
            buffers@.len() != 0 ==> st.buffers@ == buffers@,
            buffers@.len() == 0 ==> buffer_view(st.buffers@[0]) == ("N/A"@, Seq::<char>::empty(), Cursor::origin()),
            st.messages@.len() == 0,
            buffer_view(st.command) == ("N/A"@, Seq::<char>::empty(), Cursor::origin()),
            st.key_parse.pending() == Seq::<Keys>::empty(),
            st.mode == Mode::Normal,
            st.size == size,
            st.is_running,
            st.line_numbers == LineNumberKind::Off,
    {
        let buffers = if buffers.len() == 0 {
            let mut v: Vec<Buffer> = Vec::new();
            v.push(Buffer::default());
            v
        } else {
            buffers
        };
        State {
            focused: 0,
            buffers,
            messages: Vec::new(),
            command: Buffer::default(),
            map_keys: Mapper::default(),
            key_parse: KeyParser::default(),
            mode: Mode::Normal,
            size,
            is_running: true,
            line_numbers: LineNumberKind::Off,
        }
    }

    /// Adds `buf` as the last buffer and focuses it.
    pub fn set_new_buffer_as_focused(&mut self, buf: Buffer)
        requires
            old(self).wf(),
        ensures
            final(self).wf(),
            final(self).buffers@ == old(self).buffers@.push(buf),
            final(self).focused == old(self).buffers@.len(),
            final(self).messages@ == old(self).messages@,
            final(self).command == old(self).command,
            final(self).mode == old(self).mode,
            final(self).size == old(self).size,
            final(self).is_running == old(self).is_running,
            final(self).key_parse == old(self).key_parse,
            final(self).map_keys == old(self).map_keys,
            final(self).line_numbers == old(self).line_numbers,
    {
        let idx = self.buffers.len();
        self.buffers.push(buf);
        self.focused = idx;
    }

    /// The buffer keys act on: the command bar's in Command mode, else the
    /// focused one.
    pub fn get_focused_buffer(&self) -> (b: &Buffer)
        requires
            self.wf(),
        ensures
            buffer_view(*b) == focused_buffer(self@),
    {
        match self.mode {
            Mode::Command => &self.command,
            _ => &self.buffers[self.focused],
        }
    }

    /// The buffer keys act on, to change in place.
    pub fn get_focused_buffer_mut(&mut self) -> (b: &mut Buffer)
        requires
            old(self).wf(),
        ensures
            buffer_view(*b) == focused_buffer(old(self)@),
            old(self).mode == Mode::Command ==> final(self).command == *final(b)
                && final(self).buffers@ == old(self).buffers@,
            old(self).mode != Mode::Command ==> final(self).buffers@ == old(self).buffers@.update(
                old(self).focused as int,
                *final(b),
            ) && final(self).command == old(self).command,
            final(self).focused == old(self).focused,
            final(self).mode == old(self).mode,
            final(self).size == old(self).size,
            final(self).is_running == old(self).is_running,
            final(self).key_parse == old(self).key_parse,
            final(self).map_keys == old(self).map_keys,
            final(self).line_numbers == old(self).line_numbers,
            final(self).messages@ == old(self).messages@,
            final(self).buffers@.len() == old(self).buffers@.len(),
    {
        match self.mode {
            Mode::Command => &mut self.command,
            _ => {
                let f = self.focused;
                &mut self.buffers[f]
            },
        }
    }
}


/// The focused buffer's text.
pub open spec fn ftext(v: StateView) -> Seq<char> {
    focused_buffer(v).1
}

/// The focused buffer's cursor.
pub open spec fn fcur(v: StateView) -> Cursor {
    focused_buffer(v).2
}

/// The state with the focused buffer's cursor replaced.
pub open spec fn with_fcur(v: StateView, c: Cursor) -> StateView {
    let b = focused_buffer(v);
    with_focused_buffer(v, (b.0, b.1, c))
}

/// The rows a pane of the state's terminal shows: three fewer than the
/// terminal's.
pub open spec fn pane_rows(v: StateView) -> u16 {
    (v.size.height - 3) as u16
}

/// Putting back the focused buffer as it is leaves the state as it is.
proof fn lemma_same_focused(v: StateView)
    requires
        v.focused < v.buffers.len(),
    ensures
        with_focused_buffer(v, focused_buffer(v)) == v,
{
    if v.mode != Mode::Command {
        assert(v.buffers.update(v.focused as int, v.buffers[v.focused as int]) =~= v.buffers);
    }
}

/// After the focused buffer changed in place, the state's view is the old
/// one with that buffer's new view.
proof fn lemma_focused_changed(s0: State, s1: State, b: Buffer)
    requires
        s0.wf(),
        s1.focused == s0.focused,
        s1.mode == s0.mode,
        s1.size == s0.size,
        s1.is_running == s0.is_running,
        s1.line_numbers == s0.line_numbers,
        s1.messages@ == s0.messages@,
        s1.key_parse == s0.key_parse,
        s1.map_keys == s0.map_keys,
        s0.mode == Mode::Command ==> s1.command == b && s1.buffers@ == s0.buffers@,
        s0.mode != Mode::Command ==> s1.buffers@ == s0.buffers@.update(s0.focused as int, b)
            && s1.command == s0.command,
    ensures
        s1@ == with_focused_buffer(s0@, buffer_view(b)),
{
    if s0.mode != Mode::Command {
        assert(buffer_views(s1.buffers@) =~= buffer_views(s0.buffers@).update(
            s0.focused as int,
            buffer_view(b),
        ));
    }
}

/// What the pending keys come to in state `v`, with `q` the keys pending
/// after: when no binding can grow from them, typing their text in Command
/// or Insert mode (nothing in Normal mode), and they are cleared; when they
/// are bound, the message their command stands for, and they are cleared;
/// else nothing yet, and they stay.
pub open spec fn mapping_decided(v: StateView, q: Seq<Keys>, r: Option<Message>) -> bool {
    let p = v.pending;
    let m = v.mode;
    let mk = v.map_keys;
    if !mk.possible(m, p) {
        &&& q == Seq::<Keys>::empty()
        &&& m == Mode::Command ==> (r matches Some(Message::ModeCommandInsertStr(s)) && s@
            == typed_chars(p))
        &&& m == Mode::Insert ==> (r matches Some(Message::ModeInsertInsertStr(s)) && s@
            == typed_chars(p))
        &&& m == Mode::Normal ==> r is None
    } else if mk.binding(m, p) is Some {
        stands_for_message(mk.binding(m, p)->0.command, r) && q == Seq::<Keys>::empty()
    } else {
        r is None && q == p
    }
}

impl State {
    /// Moves the cursor of the buffer keys act on one row up; on the first
    /// row it asks for a scroll instead.
    pub fn cursor_up(&mut self) -> (r: Option<Message>)
        requires
            old(self).wf(),
            fcur(old(self)@).pos.y <= line_count(ftext(old(self)@)),
        ensures
            final(self).wf(),
            fcur(old(self)@).pos.y != 0 ==> r is None && final(self)@ == with_fcur(
                old(self)@,
                up_cursor(ftext(old(self)@), fcur(old(self)@)),
            ),
            fcur(old(self)@).pos.y == 0 ==> (r matches Some(Message::ScrollUp) && final(self)@
                == old(self)@),
    {
        let buf = self.get_focused_buffer_mut();
        let moved = buf.cursor_up();
        proof {
            let b = if old(self).mode == Mode::Command { self.command } else { self.buffers@[old(self).focused as int] };
            lemma_focused_changed(*old(self), *self, b);
            lemma_same_focused(old(self)@);
        }
        if moved {
            return None;
        }
        Some(Message::ScrollUp)
    }

    /// Moves the cursor of the buffer keys act on one row down while it is
    /// above the pane's last row; there it asks for a scroll instead.
    pub fn cursor_down(&mut self) -> (r: Option<Message>)
        requires
            old(self).wf(),
            old(self).size.height >= 3,
            fcur(old(self)@).pos.y < pane_rows(old(self)@) ==> fcur(old(self)@).pos.y + 1
                < line_count(ftext(old(self)@)),
        ensures
            final(self).wf(),
            fcur(old(self)@).pos.y < pane_rows(old(self)@) ==> r is None && final(self)@
                == with_fcur(
                old(self)@,
                down_cursor(ftext(old(self)@), fcur(old(self)@), pane_rows(old(self)@)),
            ),
            fcur(old(self)@).pos.y >= pane_rows(old(self)@) ==> (r matches Some(
                Message::ScrollDown,
            ) && final(self)@ == old(self)@),
    {
        let height = (self.size.height - 3) as usize;
        let buf = self.get_focused_buffer_mut();
        let moved = buf.cursor_down(height);
        proof {
            let b = if old(self).mode == Mode::Command { self.command } else { self.buffers@[old(self).focused as int] };
            lemma_focused_changed(*old(self), *self, b);
            lemma_same_focused(old(self)@);
        }
        if moved {
            return None;
        }
        Some(Message::ScrollDown)
    }

    /// Moves the cursor of the buffer keys act on one column left, unless
    /// it is in the first column.
    pub fn cursor_left(&mut self) -> (r: Option<Message>)
        requires
            old(self).wf(),
        ensures
            final(self).wf(),
            r is None,
            final(self)@ == if fcur(old(self)@).pos.x != 0 {
                with_fcur(old(self)@, left_cursor(fcur(old(self)@)))
            } else {
                old(self)@
            },
    {
        let buf = self.get_focused_buffer_mut();
        buf.cursor_left();
        proof {
            let b = if old(self).mode == Mode::Command { self.command } else { self.buffers@[old(self).focused as int] };
            lemma_focused_changed(*old(self), *self, b);
            lemma_same_focused(old(self)@);
        }
        None
    }

    /// Moves the cursor of the buffer keys act on one column right, within
    /// its line and the terminal's width.
    pub fn cursor_right(&mut self) -> (r: Option<Message>)
        requires
            old(self).wf(),
            fcur(old(self)@).pos.y + fcur(old(self)@).scroll.y <= u16::MAX,
            fcur(old(self)@).pos.y + fcur(old(self)@).scroll.y < line_count(ftext(old(self)@)),
        ensures
            final(self).wf(),
            r is None,
            ({
                let t = ftext(old(self)@);
                let c = fcur(old(self)@);
                let w = old(self).size.width;
                final(self)@ == if (c.pos.x as int) < line_len_of(t, (c.pos.y + c.scroll.y) as nat)
                    && c.pos.x < w {
                    with_fcur(old(self)@, right_cursor(t, c, w))
                } else {
                    old(self)@
                }
            }),
    {
        let width = self.size.width as usize;
        let buf = self.get_focused_buffer_mut();
        buf.cursor_right(width);
        proof {
            let b = if old(self).mode == Mode::Command { self.command } else { self.buffers@[old(self).focused as int] };
            lemma_focused_changed(*old(self), *self, b);
            lemma_same_focused(old(self)@);
        }
        None
    }

    /// Puts the cursor of the buffer keys act on in the first column.
    pub fn cursor_home(&mut self) -> (r: Option<Message>)
        requires
            old(self).wf(),
        ensures
            final(self).wf(),
            r is None,
            final(self)@ == with_fcur(
                old(self)@,
                Cursor { pos: crate::ui::layout::Pos { x: 0, ..fcur(old(self)@).pos }, ..fcur(old(self)@) },
            ),
    {
        let buf = self.get_focused_buffer_mut();
        buf.cursor_home();
        proof {
            let b = if old(self).mode == Mode::Command { self.command } else { self.buffers@[old(self).focused as int] };
            lemma_focused_changed(*old(self), *self, b);
            lemma_same_focused(old(self)@);
        }
        None
    }

    /// Puts the cursor of the buffer keys act on at the end of its line.
    pub fn cursor_end(&mut self) -> (r: Option<Message>)
        requires
            old(self).wf(),
            (fcur(old(self)@).pos.y as int) < line_count(ftext(old(self)@)),
        ensures
            final(self).wf(),
            r is None,
            final(self)@ == with_fcur(
                old(self)@,
                Cursor {
                    pos: crate::ui::layout::Pos {
                        x: line_len_of(ftext(old(self)@), fcur(old(self)@).pos.y as nat) as u16,
                        ..fcur(old(self)@).pos
                    },
                    ..fcur(old(self)@)
                },
            ),
    {
        let buf = self.get_focused_buffer_mut();
        buf.cursor_end();
        proof {
            let b = if old(self).mode == Mode::Command { self.command } else { self.buffers@[old(self).focused as int] };
            lemma_focused_changed(*old(self), *self, b);
            lemma_same_focused(old(self)@);
        }
        None
    }

    /// Scrolls the view of the buffer keys act on one row up.
    pub fn scroll_up(&mut self) -> (r: Option<Message>)
        requires
            old(self).wf(),
        ensures
            final(self).wf(),
            r is None,
            final(self)@ == with_fcur(
                old(self)@,
                Cursor {
                    scroll: crate::ui::layout::Pos {
                        y: sat_sub_u16(fcur(old(self)@).scroll.y, 1),
                        ..fcur(old(self)@).scroll
                    },
                    ..fcur(old(self)@)
                },
            ),
    {
        let buf = self.get_focused_buffer_mut();
        buf.scroll_up();
        proof {
            let b = if old(self).mode == Mode::Command { self.command } else { self.buffers@[old(self).focused as int] };
            lemma_focused_changed(*old(self), *self, b);
            lemma_same_focused(old(self)@);
        }
        None
    }

    /// Scrolls the view of the buffer keys act on one row down, keeping a
    /// pane's worth of rows below its top.
    pub fn scroll_down(&mut self) -> (r: Option<Message>)
        requires
            old(self).wf(),
            old(self).size.height >= 3,
        ensures
            final(self).wf(),
            r is None,
            final(self)@ == with_fcur(
                old(self)@,
                Cursor {
                    scroll: crate::ui::layout::Pos {
                        y: min_u16(
                            sat_add_u16(fcur(old(self)@).scroll.y, 1),
                            sat_sub_int(
                                line_count(ftext(old(self)@)) as int,
                                pane_rows(old(self)@) as int,
                            ) as usize as u16,
                        ),
                        ..fcur(old(self)@).scroll
                    },
                    ..fcur(old(self)@)
                },
            ),
    {
        let height = (self.size.height - 3) as usize;
        let buf = self.get_focused_buffer_mut();
        buf.scroll_down(height);
        proof {
            let b = if old(self).mode == Mode::Command { self.command } else { self.buffers@[old(self).focused as int] };
            lemma_focused_changed(*old(self), *self, b);
            lemma_same_focused(old(self)@);
        }
        None
    }

    /// Pulls the cursor of the buffer keys act on back into its line, then
    /// takes `mode`.
    pub fn change_mode(&mut self, mode: Mode) -> (r: Option<Message>)
        requires
            old(self).wf(),
            fcur(old(self)@).pos.y + fcur(old(self)@).scroll.y <= u16::MAX,
            fcur(old(self)@).pos.y + fcur(old(self)@).scroll.y < line_count(ftext(old(self)@)),
        ensures
            final(self).wf(),
            r is None,
            final(self)@ == (StateView {
                mode,
                ..with_fcur(old(self)@, aligned_cursor(ftext(old(self)@), fcur(old(self)@)))
            }),
    {
        let buf = self.get_focused_buffer_mut();
        buf.align_cursor();
        proof {
            let b = if old(self).mode == Mode::Command { self.command } else { self.buffers@[old(self).focused as int] };
            lemma_focused_changed(*old(self), *self, b);
            lemma_same_focused(old(self)@);
        }
        self.mode = mode;
        None
    }
}


/// The text and cursor after backspace: the character before the cursor
/// goes; at the start of a row the cursor goes to the end of the row above,
/// else one column left.
pub open spec fn backspace_result(t: Seq<char>, c: Cursor) -> (Seq<char>, Cursor) {
    let end = line_start(t, c.pos.y as nat) + c.pos.x;
    let t2 = t.take(sat_sub_int(end, 1)) + t.skip(end);
    if c.pos.x == 0 {
        let row = sat_sub_u16(c.pos.y, 1);
        (t2, Cursor { pos: Pos { x: line_len_of(t2, row as nat) as u16, y: row }, ..c })
    } else {
        (
            t2,
            Cursor {
                pos: Pos { x: (c.pos.x - 1) as u16, y: c.pos.y },
                max: Pos { x: (c.pos.x - 1) as u16, y: c.max.y },
                ..c
            },
        )
    }
}

/// When backspace stays within the text.
pub open spec fn backspace_ok(t: Seq<char>, c: Cursor) -> bool {
    &&& c.pos.y <= line_count(t)
    &&& line_start(t, c.pos.y as nat) + c.pos.x <= t.len()
    &&& c.pos.x == 0 ==> {
        let end = line_start(t, c.pos.y as nat);
        sat_sub_u16(c.pos.y, 1) < line_count(t.take(sat_sub_int(end as int, 1)) + t.skip(end as int))
    }
}

/// The text and cursor after typing `s`.
pub open spec fn typed_result(t: Seq<char>, c: Cursor, s: Seq<char>) -> (Seq<char>, Cursor) {
    let i = insert_index(t, c);
    (t.take(i) + s + t.skip(i), typed_cursor(c, s))
}

/// When typing stays within the text.
pub open spec fn type_ok(t: Seq<char>, c: Cursor) -> bool {
    c.pos.y <= line_count(t) && insert_index(t, c) <= t.len()
}

/// The rows the buffer shows in `size`, one after the other.
pub open spec fn screen_text(t: Seq<char>, c: Cursor, size: Size) -> Seq<char> {
    let n = screen_rows(line_count(t), c.scroll.y as nat, (c.scroll.y + size.height) as nat);
    rows_joined(t, c, size, n)
}

/// The first `k` rows the buffer shows in `size`, one after the other.
pub open spec fn rows_joined(t: Seq<char>, c: Cursor, size: Size, k: nat) -> Seq<char>
    decreases k,
{
    if k == 0 {
        Seq::empty()
    } else {
        rows_joined(t, c, size, (k - 1) as nat) + screen_piece(
            line_text(t, (c.scroll.y + k - 1) as nat),
            c.scroll.x as nat,
            (c.scroll.x + size.width) as nat,
        )
    }
}

/// The message a binding's command stands for in this state machine: the
/// moves, the scrolls, the edits, the changes of mode, the command line,
/// the buffer commands and quitting; the others stand for none.
pub open spec fn stands_for_message(e: Command, m: Option<Message>) -> bool {
    match e {
        Command::CursorUp => m matches Some(Message::CursorUp),
        Command::CursorDown => m matches Some(Message::CursorDown),
        Command::CursorLeft => m matches Some(Message::CursorLeft),
        Command::CursorRight => m matches Some(Message::CursorRight),
        Command::CursorHome => m matches Some(Message::CursorHome),
        Command::ScrollUp => m matches Some(Message::ScrollUp),
        Command::ScrollDown => m matches Some(Message::ScrollDown),
        Command::BackSpace => m matches Some(Message::BackSpace),
        Command::Delete => m matches Some(Message::Delete),
        Command::ChangeMode(md) => m matches Some(Message::ChangeMode(x)) && x == md,
        Command::ExecuteCommandLine => m matches Some(Message::ExecuteCommand),
        Command::ListBuffers => m matches Some(Message::BufferList),
        Command::EditFile(f) => m matches Some(Message::EditFile(x)) && x@ == f@,
        Command::JumpToBuffer(b) => m matches Some(Message::SwapBuffer(x)) && x@ == b@,
        Command::Quit => m matches Some(Message::Quit),
        _ => m is None,
    }
}

/// The message a binding's command stands for, if any.
pub fn message_of(e: &Command) -> (m: Option<Message>)
    ensures
        stands_for_message(*e, m),
{
    match e {
        Command::CursorUp => Some(Message::CursorUp),
        Command::CursorDown => Some(Message::CursorDown),
        Command::CursorLeft => Some(Message::CursorLeft),
        Command::CursorRight => Some(Message::CursorRight),
        Command::CursorHome => Some(Message::CursorHome),
        Command::ScrollUp => Some(Message::ScrollUp),
        Command::ScrollDown => Some(Message::ScrollDown),
        Command::BackSpace => Some(Message::BackSpace),
        Command::Delete => Some(Message::Delete),
        Command::ChangeMode(md) => Some(Message::ChangeMode(*md)),
        Command::ExecuteCommandLine => Some(Message::ExecuteCommand),
        Command::ListBuffers => Some(Message::BufferList),
        Command::EditFile(f) => Some(Message::EditFile(string_from(f.as_str()))),
        Command::JumpToBuffer(b) => Some(Message::SwapBuffer(string_from(b.as_str()))),
        Command::Quit => Some(Message::Quit),
        _ => None,
    }
}

impl State {
    /// Removes the character before the cursor of the buffer keys act on.
    pub fn backspace(&mut self) -> (r: Option<Message>)
        requires
            old(self).wf(),
            backspace_ok(ftext(old(self)@), fcur(old(self)@)),
        ensures
            final(self).wf(),
            r is None,
            ({
                let (t, c) = backspace_result(ftext(old(self)@), fcur(old(self)@));
                final(self)@ == with_focused_buffer(old(self)@, (focused_buffer(old(self)@).0, t, c))
            }),
    {
        let buf = self.get_focused_buffer_mut();
        buf.backspace();
        proof {
            let b = if old(self).mode == Mode::Command { self.command } else { self.buffers@[old(self).focused as int] };
            lemma_focused_changed(*old(self), *self, b);
        }
        None
    }

    /// Shows the message box `builder` on top.
    pub fn user_message(&mut self, builder: UserMessageBuilder) -> (r: Option<Message>)
        requires
            old(self).wf(),
        ensures
            final(self).wf(),
            r is None,
            final(self)@ == (StateView { messages: old(self)@.messages.push(builder), ..old(self)@ }),
    {
        self.messages.push(builder);
        None
    }

    /// Takes a key press into the pending keys and asks to look for a
    /// binding.
    pub fn key_press(&mut self, keys: Keys) -> (r: Option<Message>)
        requires
            old(self).wf(),
        ensures
            final(self).wf(),
            r matches Some(Message::CheckForMapping),
            final(self)@ == (StateView {
                pending: if keys_is_null(keys) {
                    old(self)@.pending
                } else {
                    old(self)@.pending.push(keys)
                },
                ..old(self)@
            }),
    {
        self.key_parse.push(keys);
        Some(Message::CheckForMapping)
    }

    /// Types `c` into the focused buffer.
    pub fn insert_mode_insert(&mut self, c: String) -> (r: Option<Message>)
        requires
            old(self).wf(),
            type_ok(old(self)@.buffers[old(self).focused as int].1, old(self)@.buffers[old(self).focused as int].2),
        ensures
            final(self).wf(),
            r is None,
            ({
                let b = old(self)@.buffers[old(self).focused as int];
                let (t, k) = typed_result(b.1, b.2, c@);
                final(self)@ == (StateView {
                    buffers: old(self)@.buffers.update(old(self).focused as int, (b.0, t, k)),
                    ..old(self)@
                })
            }),
    {
        let f = self.focused;
        let mut buf = self.buffers.remove(f);
        proof {
            assert(buffer_view(buf) == old(self)@.buffers[f as int]);
        }
        buf.insert(c.as_str());
        self.buffers.insert(f, buf);
        proof {
            assert(buffer_views(self.buffers@) =~= buffer_views(old(self).buffers@).update(
                f as int,
                buffer_view(buf),
            ));
        }
        None
    }

    /// Types `c` into the command bar's buffer.
    pub fn command_mode_insert(&mut self, c: String) -> (r: Option<Message>)
        requires
            old(self).wf(),
            type_ok(old(self)@.command.1, old(self)@.command.2),
        ensures
            final(self).wf(),
            r is None,
            ({
                let b = old(self)@.command;
                let (t, k) = typed_result(b.1, b.2, c@);
                final(self)@ == (StateView { command: (b.0, t, k), ..old(self)@ })
            }),
    {
        self.command.insert(c.as_str());
        None
    }

    /// Opens the file `filename`, which holds `contents`, in a new buffer
    /// and focuses it.
    pub fn edit_file_command(&mut self, filename: &str, contents: &str) -> (r: Option<Message>)
        requires
            old(self).wf(),
        ensures
            final(self).wf(),
            r is None,
            final(self)@ == (StateView {
                focused: old(self).buffers@.len() as usize,
                buffers: old(self)@.buffers.push((filename@, contents@, Cursor::origin())),
                ..old(self)@
            }),
    {
        let buf = Buffer::from_contents(filename, contents);
        self.set_new_buffer_as_focused(buf);
        proof {
            assert(buffer_views(self.buffers@) =~= buffer_views(old(self).buffers@).push(
                buffer_view(buf),
            ));
        }
        None
    }

    /// Takes the top message box away.
    pub fn close_message(&mut self) -> (r: Option<Message>)
        requires
            old(self).wf(),
        ensures
            final(self).wf(),
            r is None,
            final(self)@ == (StateView {
                messages: if old(self)@.messages.len() > 0 {
                    old(self)@.messages.drop_last()
                } else {
                    old(self)@.messages
                },
                ..old(self)@
            }),
    {
        self.messages.pop();
        None
    }

    /// Where the terminal's cursor goes: after the colon on the command
    /// bar's row in Command mode, else at the focused buffer's cursor.
    pub fn cursor_pos(&self) -> (p: Option<Pos>)
        requires
            self.wf(),
            self.mode == Mode::Command ==> self@.command.2.pos.x + 1 <= u16::MAX
                && self@.command.2.pos.y + self.size.height <= u16::MAX,
        ensures
            self.mode == Mode::Command ==> p == Some(
                Pos {
                    x: (self@.command.2.pos.x + 1) as u16,
                    y: (self@.command.2.pos.y + self.size.height) as u16,
                },
            ),
            self.mode != Mode::Command ==> p == Some(fcur(self@).pos),
    {
        match self.mode {
            Mode::Command => {
                let cursor = self.command.get_cursor();
                let x = cursor.pos.x + 1;
                let y = cursor.pos.y + self.size.height;
                Some(Pos { x, y })
            },
            _ => {
                let buf = self.get_focused_buffer();
                let cursor = buf.get_cursor();
                Some(cursor.pos)
            },
        }
    }

    /// A blinking block in Normal mode, a blinking bar otherwise.
    pub fn cursor_shape(&self) -> (r: Option<CursorStyle>)
        ensures
            r == Some(
                if self.mode == Mode::Normal {
                    CursorStyle::BlinkingBlock
                } else {
                    CursorStyle::BlinkingBar
                },
            ),
    {
        match self.mode {
            Mode::Normal => Some(CursorStyle::BlinkingBlock),
            Mode::Command => Some(CursorStyle::BlinkingBar),
            Mode::Insert => Some(CursorStyle::BlinkingBar),
        }
    }

    /// Whether the editor runs on.
    pub fn quit(&self) -> (r: bool)
        ensures
            r == self.is_running,
    {
        self.is_running
    }

    /// The message the pending keys come to: when no binding can grow from
    /// them, typing their text in Command or Insert mode (none in Normal
    /// mode), and they are cleared; when bound, the message their command
    /// stands for, and they are cleared; else none yet.
    pub fn check_for_mapping(&mut self) -> (r: Option<Message>)
        requires
            old(self).wf(),
        ensures
            final(self).wf(),
            final(self)@ == (StateView { pending: final(self)@.pending, ..old(self)@ }),
            mapping_decided(old(self)@, final(self)@.pending, r),
    {
        let mode = self.mode;
        let decision = decide_keys(&self.map_keys, &mut self.key_parse, mode);
        match decision {
            KeyDecision::Insert(s) => insert_message(mode, s),
            KeyDecision::Mapping(c) => message_of(&c.command),
            KeyDecision::Wait => None,
        }
    }
}


/// The state after a change to `m`: the cursor of the buffer keys act on
/// is pulled back into its line, then the mode changes.
pub open spec fn mode_changed(v: StateView, m: Mode) -> StateView {
    StateView { mode: m, ..with_fcur(v, aligned_cursor(ftext(v), fcur(v))) }
}

/// The cursor at the end of its line of `t`.
pub open spec fn end_cursor(t: Seq<char>, c: Cursor) -> Cursor {
    Cursor { pos: Pos { x: line_len_of(t, c.pos.y as nat) as u16, ..c.pos }, ..c }
}

/// When a change of mode can pull the cursor into its line.
pub open spec fn change_ok(v: StateView) -> bool {
    fcur(v).pos.y + fcur(v).scroll.y <= u16::MAX && fcur(v).pos.y + fcur(v).scroll.y < line_count(
        ftext(v),
    )
}

/// The names of the buffers.
pub open spec fn buffer_names(v: StateView) -> Seq<Seq<char>> {
    v.buffers.map_values(|b: (Seq<char>, Seq<char>, Cursor)| b.0)
}

/// The state with an empty command bar buffer.
pub open spec fn command_cleared(v: StateView) -> StateView {
    StateView { command: ("N/A"@, Seq::<char>::empty(), Cursor::origin()), ..v }
}

impl State {
    /// Enters Insert mode with the cursor at the end of its line.
    pub fn insert_at_end(&mut self) -> (r: Option<Message>)
        requires
            old(self).wf(),
            change_ok(old(self)@),
            (fcur(mode_changed(old(self)@, Mode::Insert)).pos.y as int) < line_count(
                ftext(mode_changed(old(self)@, Mode::Insert)),
            ),
        ensures
            final(self).wf(),
            r is None,
            ({
                let v = mode_changed(old(self)@, Mode::Insert);
                final(self)@ == with_fcur(v, end_cursor(ftext(v), fcur(v)))
            }),
    {
        self.change_mode(Mode::Insert);
        self.cursor_end();
        None
    }

    /// Runs the command typed on the command bar: its text is read and the
    /// bar emptied, the mode goes back to Normal, and the message the
    /// command asks for is returned.
    pub fn execute_command(&mut self) -> (r: Option<Message>)
        requires
            old(self).wf(),
            old(self).mode != Mode::Command ==> change_ok(old(self)@),
        ensures
            final(self).wf(),
            r matches Some(m) && commanded(
                screen_text(
                    old(self)@.command.1,
                    old(self)@.command.2,
                    Size { width: old(self).size.width, height: 2 },
                ),
                m,
            ),
            final(self)@ == mode_changed(command_cleared(old(self)@), Mode::Normal),
    {
        let size = Size { width: self.size.width, height: 2 };
        let lines = self.command.on_screen(&size);
        let ghost t = old(self)@.command.1;
        let ghost c = old(self)@.command.2;
        let mut text: Vec<char> = Vec::new();
        let mut i: usize = 0;
        while i < lines.len()
            invariant
                i <= lines@.len(),
                forall|j: int|
                    0 <= j < lines@.len() ==> #[trigger] lines@[j]@ == screen_piece(
                        line_text(t, (c.scroll.y + j) as nat),
                        c.scroll.x as nat,
                        (c.scroll.x + size.width) as nat,
                    ),
                text@ == rows_joined(t, c, size, i as nat),
            decreases lines@.len() - i,
        {
            extend_chars(&mut text, chars_of(lines[i].as_str()).as_slice());
            i += 1;
        }
        let command = string_of(text.as_slice());
        self.command = Buffer::default();
        proof {
            assert(self@ == command_cleared(old(self)@));
            assert(line_count(Seq::<char>::empty()) == 1) by {
                assert(crate::strings::count_of(Seq::<char>::empty(), '\n') == 0);
            }
        }
        self.change_mode(Mode::Normal);
        Some(command_message(command.as_str()))
    }

    /// The message box listing the buffers by index and name.
    pub fn buffer_list_command(&mut self) -> (r: Option<Message>)
        requires
            old(self).wf(),
        ensures
            final(self).wf(),
            final(self)@ == old(self)@,
            r matches Some(m) && lists_buffers(buffer_names(old(self)@), m),
    {
        let mut names: Vec<String> = Vec::new();
        let mut i: usize = 0;
        while i < self.buffers.len()
            invariant
                i <= self.buffers@.len(),
                names@.len() == i,
                forall|j: int| 0 <= j < i ==> #[trigger] names@[j]@ == self.buffers@[j].name_view(),
            decreases self.buffers@.len() - i,
        {
            names.push(self.buffers[i].name_of());
            i += 1;
        }
        proof {
            assert(names@.map_values(|s: String| s@) =~= buffer_names(self@));
        }
        Some(buffer_list_message(&names))
    }

    /// Switches to the buffer `arg` numbers, or else to the first one it
    /// names; there must be one.
    pub fn swap_buffer_command(&mut self, arg: &str) -> (r: Option<Message>)
        requires
            old(self).wf(),
            arg@.len() > 0,
            switch_target(buffer_names(old(self)@), arg@) is Some,
        ensures
            final(self).wf(),
            r is None,
            final(self)@ == (StateView {
                focused: switch_target(buffer_names(old(self)@), arg@)->0 as usize,
                ..old(self)@
            }),
    {
        let mut names: Vec<String> = Vec::new();
        let mut i: usize = 0;
        while i < self.buffers.len()
            invariant
                i <= self.buffers@.len(),
                names@.len() == i,
                forall|j: int| 0 <= j < i ==> #[trigger] names@[j]@ == self.buffers@[j].name_view(),
            decreases self.buffers@.len() - i,
        {
            names.push(self.buffers[i].name_of());
            i += 1;
        }
        proof {
            assert(names@.map_values(|s: String| s@) =~= buffer_names(self@));
            lemma_switch_target_bound(buffer_names(self@), arg@);
        }
        self.focused = swap_buffer_target(&names, arg);
        None
    }
}

/// When the state can take `m`: what the step for `m` asks of the state.
/// A buffer switch needs a buffer to go to.
pub open spec fn update_ok(v: StateView, m: Message) -> bool {
    match m {
        Message::CursorUp => fcur(v).pos.y <= line_count(ftext(v)),
        Message::CursorDown => v.size.height >= 3 && (fcur(v).pos.y < pane_rows(v) ==> fcur(v).pos.y
            + 1 < line_count(ftext(v))),
        Message::CursorRight => change_ok(v),
        Message::CursorEnd => (fcur(v).pos.y as int) < line_count(ftext(v)),
        Message::ScrollDown => v.size.height >= 3,
        Message::InsertAtEnd => change_ok(v) && (fcur(mode_changed(v, Mode::Insert)).pos.y as int)
            < line_count(ftext(mode_changed(v, Mode::Insert))),
        Message::BackSpace => backspace_ok(ftext(v), fcur(v)),
        Message::ModeCommandInsertStr(_) => type_ok(v.command.1, v.command.2),
        Message::ModeInsertInsertStr(_) => type_ok(
            v.buffers[v.focused as int].1,
            v.buffers[v.focused as int].2,
        ),
        Message::ChangeMode(_) => change_ok(v),
        Message::ExecuteCommand => v.mode != Mode::Command ==> change_ok(v),
        Message::SwapBuffer(arg) => arg@.len() > 0 && switch_target(buffer_names(v), arg@) is Some,
        _ => true,
    }
}

/// What taking `m` in state `v` gives: the state `w` and the message `r`
/// to take next.
pub open spec fn updated(v: StateView, m: Message, w: StateView, r: Option<Message>) -> bool {
    let t = ftext(v);
    let c = fcur(v);
    match m {
        Message::CursorUp => if c.pos.y != 0 {
            r is None && w == with_fcur(v, up_cursor(t, c))
        } else {
            (r matches Some(Message::ScrollUp)) && w == v
        },
        Message::CursorDown => if c.pos.y < pane_rows(v) {
            r is None && w == with_fcur(v, down_cursor(t, c, pane_rows(v)))
        } else {
            (r matches Some(Message::ScrollDown)) && w == v
        },
        Message::CursorLeft => r is None && w == if c.pos.x != 0 {
            with_fcur(v, left_cursor(c))
        } else {
            v
        },
        Message::CursorRight => r is None && w == if (c.pos.x as int) < line_len_of(
            t,
            (c.pos.y + c.scroll.y) as nat,
        ) && c.pos.x < v.size.width {
            with_fcur(v, right_cursor(t, c, v.size.width))
        } else {
            v
        },
        Message::CursorHome => r is None && w == with_fcur(
            v,
            Cursor { pos: Pos { x: 0, ..c.pos }, ..c },
        ),
        Message::CursorEnd => r is None && w == with_fcur(v, end_cursor(t, c)),
        Message::ScrollUp => r is None && w == with_fcur(
            v,
            Cursor { scroll: Pos { y: sat_sub_u16(c.scroll.y, 1), ..c.scroll }, ..c },
        ),
        Message::ScrollDown => r is None && w == with_fcur(
            v,
            Cursor {
                scroll: Pos {
                    y: min_u16(
                        sat_add_u16(c.scroll.y, 1),
                        sat_sub_int(line_count(t) as int, pane_rows(v) as int) as usize as u16,
                    ),
                    ..c.scroll
                },
                ..c
            },
        ),
        Message::InsertAtEnd => r is None && w == with_fcur(
            mode_changed(v, Mode::Insert),
            end_cursor(ftext(mode_changed(v, Mode::Insert)), fcur(mode_changed(v, Mode::Insert))),
        ),
        Message::BackSpace => r is None && w == with_focused_buffer(
            v,
            (focused_buffer(v).0, backspace_result(t, c).0, backspace_result(t, c).1),
        ),
        Message::UserMessage(b) => r is None && w == (StateView {
            messages: v.messages.push(b),
            ..v
        }),
        Message::KeyPress(k) => (r matches Some(Message::CheckForMapping)) && w == (StateView {
            pending: if keys_is_null(k) {
                v.pending
            } else {
                v.pending.push(k)
            },
            ..v
        }),
        Message::CheckForMapping => w == (StateView { pending: w.pending, ..v }) && mapping_decided(
            v,
            w.pending,
            r,
        ),
        Message::ModeCommandInsertStr(s) => r is None && w == (StateView {
            command: (
                v.command.0,
                typed_result(v.command.1, v.command.2, s@).0,
                typed_result(v.command.1, v.command.2, s@).1,
            ),
            ..v
        }),
        Message::ModeInsertInsertStr(s) => r is None && ({
            let b = v.buffers[v.focused as int];
            let (t2, k) = typed_result(b.1, b.2, s@);
            w == (StateView { buffers: v.buffers.update(v.focused as int, (b.0, t2, k)), ..v })
        }),
        Message::ChangeMode(md) => r is None && w == mode_changed(v, md),
        Message::ExecuteCommand => (r matches Some(x) && commanded(
            screen_text(v.command.1, v.command.2, Size { width: v.size.width, height: 2 }),
            x,
        )) && w == mode_changed(command_cleared(v), Mode::Normal),
        Message::BufferList => w == v && (r matches Some(x) && lists_buffers(buffer_names(v), x)),
        Message::EditFile(f) => w == v && (r matches Some(Message::EditFile(g)) && g@ == f@),
        Message::SwapBuffer(arg) => r is None && w == (StateView {
            focused: switch_target(buffer_names(v), arg@)->0 as usize,
            ..v
        }),
        Message::CloseCurrentPaneOnKeyPress => r is None && w == (StateView {
            messages: if v.messages.len() > 0 {
                v.messages.drop_last()
            } else {
                v.messages
            },
            ..v
        }),
        Message::Resize(sz) => r is None && w == (StateView { size: sz, ..v }),
        Message::Quit => r is None && w == (StateView { is_running: false, ..v }),
        Message::SetLineNumbers(k) => r is None && w == (StateView { line_numbers: k, ..v }),
        _ => r is None && w == v,
    }
}

impl State {
    /// Takes one message: each asks for one step of the state machine,
    /// which may ask for a next one. Opening a file (`EditFile`) reads it,
    /// which is the runtime's part: the message comes back as it is, and
    /// the runtime calls `edit_file_command` with the file's contents. The
    /// horizontal scrolls and `Delete` change nothing.
    pub fn update(&mut self, message: Message) -> (r: Option<Message>)
        requires
            old(self).wf(),
            update_ok(old(self)@, message),
        ensures
            final(self).wf(),
            updated(old(self)@, message, final(self)@, r),
    {
        match message {
            Message::CursorUp => self.cursor_up(),
            Message::CursorDown => self.cursor_down(),
            Message::CursorLeft => self.cursor_left(),
            Message::CursorRight => self.cursor_right(),
            Message::CursorHome => self.cursor_home(),
            Message::CursorEnd => self.cursor_end(),
            Message::ScrollUp => self.scroll_up(),
            Message::ScrollDown => self.scroll_down(),
            Message::InsertAtEnd => self.insert_at_end(),
            Message::BackSpace => self.backspace(),
            Message::UserMessage(builder) => self.user_message(builder),
            Message::KeyPress(keys) => self.key_press(keys),
            Message::CheckForMapping => self.check_for_mapping(),
            Message::ModeCommandInsertStr(s) => self.command_mode_insert(s),
            Message::ModeInsertInsertStr(s) => self.insert_mode_insert(s),
            Message::ChangeMode(mode) => self.change_mode(mode),
            Message::ExecuteCommand => self.execute_command(),
            Message::BufferList => self.buffer_list_command(),
            Message::EditFile(filename) => Some(Message::EditFile(filename)),
            Message::SwapBuffer(arg) => self.swap_buffer_command(arg.as_str()),
            Message::CloseCurrentPaneOnKeyPress => self.close_message(),
            Message::Resize(size) => {
                self.size = size;
                None
            },
            Message::Quit => {
                self.is_running = false;
                None
            },
            Message::SetLineNumbers(kind) => {
                self.line_numbers = kind;
                None
            },
            Message::ScrollLeft => None,
            Message::ScrollRight => None,
            Message::Delete => None,
        }
    }
}

/// What the terminal reports: a key pressed, a new size, or something the
/// editor does not take.
#[derive(Debug, Clone, Copy)]
pub enum TermEvent {
    Key(KeyEvent),
    Resize(u16, u16),
    Other,
}

impl State {
    /// The message a terminal event asks for: while a message box shows, a
    /// key closes it, else the key is pressed; a resize takes the new size;
    /// other events ask for nothing.
    pub fn subscription(&self, event: TermEvent) -> (r: Option<Message>)
        ensures
            match event {
                TermEvent::Key(k) => if self.messages@.len() > 0 {
                    r matches Some(Message::CloseCurrentPaneOnKeyPress)
                } else {
                    r == Some(Message::KeyPress(keys_of_event(k)))
                },
                TermEvent::Resize(w, h) => r == Some(Message::Resize(Size { width: w, height: h })),
                TermEvent::Other => r is None,
            },
    {
        let close_message = self.messages.len() > 0;
        match event {
            TermEvent::Key(k) => {
                if close_message {
                    return Some(Message::CloseCurrentPaneOnKeyPress);
                }
                Some(Message::KeyPress(Keys::from(k)))
            },
            TermEvent::Resize(w, h) => Some(Message::Resize(Size::new(w, h))),
            TermEvent::Other => None,
        }
    }
}

/// A character occurs in two texts put together as often as in both.
pub(crate) proof fn lemma_count_concat(p: Seq<char>, q: Seq<char>, c: char)
    ensures
        count_of(p + q, c) == count_of(p, c) + count_of(q, c),
    decreases q.len(),
{
    if q.len() == 0 {
        assert(p + q =~= p);
    } else {
        lemma_count_concat(p, q.drop_last(), c);
        assert((p + q).drop_last() =~= p + q.drop_last());
    }
}

/// A line of a text after its first starts at least one past its start.
proof fn lemma_later_line_start(q: Seq<char>, k: nat)
    requires
        1 <= k <= count_of(q, '\n'),
    ensures
        line_start(q, k) >= 1,
{
    if q.len() == 0 {
        assert(count_of(q, '\n') == 0);
    }
}

/// One ASCII character other than a line break takes one byte.
proof fn lemma_ascii_byte_len(ch: char)
    requires
        (ch as u32) < 128,
    ensures
        byte_len(seq![ch]) == 1,
{
    assert(seq![ch].drop_first() =~= Seq::<char>::empty());
    assert(has_width_1_encoding(ch as u32));
    assert(encode_utf8(seq![ch]) =~= encode_scalar(ch as u32) + encode_utf8(Seq::<char>::empty()));
}

/// Backspace takes back what was typed: in Insert mode, typing one ASCII
/// character other than a line break on a row of the text, then a
/// backspace, leaves the focused buffer's text and the cursor's place as
/// they were.
pub proof fn lemma_typing_then_backspace(
    v: StateView,
    s: String,
    w: StateView,
    r: Option<Message>,
    w2: StateView,
    r2: Option<Message>,
)
    requires
        v.focused < v.buffers.len(),
        v.mode == Mode::Insert,
        s@.len() == 1,
        (s@[0] as u32) < 128,
        s@[0] != '\n',
        (fcur(v).pos.y as int) < line_count(ftext(v)),
        fcur(v).pos.x < u16::MAX,
        update_ok(v, Message::ModeInsertInsertStr(s)),
        updated(v, Message::ModeInsertInsertStr(s), w, r),
        updated(w, Message::BackSpace, w2, r2),
    ensures
        update_ok(w, Message::BackSpace),
        ftext(w2) == ftext(v),
        fcur(w2).pos == fcur(v).pos,
{
    let b = v.buffers[v.focused as int];
    let t = b.1;
    let c = b.2;
    let ch = s@[0];
    let y = c.pos.y as nat;
    let i = insert_index(t, c);
    let p = t.take(i);
    let q = t.skip(i);
    assert(s@ =~= seq![ch]);
    lemma_ascii_byte_len(ch);
    let t1 = p + seq![ch] + q;
    assert(t =~= p + q);
    assert(t1 =~= p + (seq![ch] + q));
    crate::editor::window::lemma_line_start_monotone(t, y);
    crate::editor::window::lemma_count_prefix(t, '\n', i);
    if y > count_of(p, '\n') {
        crate::editor::window::lemma_line_start_suffix(p, q, y);
        assert(count_of(t, '\n') == count_of(p, '\n') + count_of(q, '\n')) by {
            lemma_count_concat(p, q, '\n');
        }
        lemma_later_line_start(q, (y - count_of(p, '\n')) as nat);
        assert(false);
    }
    crate::editor::window::lemma_line_start_prefix(p, q, y);
    crate::editor::window::lemma_line_start_prefix(p, seq![ch] + q, y);
    assert(line_start(t1, y) == line_start(t, y));
    assert(t1.take(i) =~= p);
    assert(t1.skip(i + 1) =~= q);
    lemma_count_concat(p, q, '\n');
    lemma_count_concat(p, seq![ch] + q, '\n');
    lemma_count_concat(seq![ch], q, '\n');
    assert(count_of(seq![ch], '\n') == 0) by {
        assert(seq![ch].drop_last() =~= Seq::<char>::empty());
        assert(count_of(Seq::<char>::empty(), '\n') == 0);
        assert(seq![ch].last() == ch);
    }
    assert(ftext(w) == t1);
    assert(line_count(t1) == line_count(t));
}

/// The buffer a switch goes to is one of them.
proof fn lemma_switch_target_bound(names: Seq<Seq<char>>, arg: Seq<char>)
    requires
        switch_target(names, arg) is Some,
    ensures
        switch_target(names, arg)->0 < names.len(),
{
    match parse_usize(arg) {
        Some(i) => {},
        None => lemma_first_named_bound(names, arg),
    }
}

/// A buffer found by its name is one of them.
proof fn lemma_first_named_bound(names: Seq<Seq<char>>, arg: Seq<char>)
    requires
        first_named(names, arg) is Some,
    ensures
        first_named(names, arg)->0 < names.len(),
    decreases names.len(),
{
    if names.len() > 0 && first_named(names.drop_last(), arg) is Some {
        lemma_first_named_bound(names.drop_last(), arg);
    }
}

} // verus!
