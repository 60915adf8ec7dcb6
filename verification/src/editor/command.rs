//! The editor over its buffers: the commands that act on the current
//! buffer, and what a key press comes to.
use vstd::prelude::*;
use crate::editor::buffer::{
    line_len_of, max_u16, min_u16, sat_add_u16, sat_sub, sat_sub_u16, Buffer, Cursor,
};
use crate::engine::commands::Command as EngineCommand;
use crate::engine::dispatch::{decide_keys, typed_chars, KeyDecision};
use crate::engine::map_keys::Mapper;
use crate::engine::mode::Mode;
use crate::engine::parse_keys::KeyParser;
use crate::engine::text_formater::byte_len;
use crate::rope::{line_count, line_start};
use crate::strings::string_of;
use crate::ui::key::{keys_is_null, Keys};
use crate::ui::layout::{Pos, Rect, Size};

verus! {

/// A command on the editor.
#[derive(Debug)]
pub enum Command {
    ChangeMode(Mode),
    Quit,
    CursorUp,
    CursorDown,
    CursorRight,
    CursorLeft,
    CursorHome,
    CursorEnd,
    CursorTopOfBuffer,
    CursorToBottomOfBuffer,
    /// Types the text at the cursor.
    InsertChar(String),
}

/// A command, as key bindings hand it out.
#[derive(Debug)]
pub struct CmdRc(pub Command);

/// The editor: its mode, its buffers (the first one is the command bar's),
/// the current one, whether it runs, its key bindings and pending keys,
/// and the area of the current pane on the terminal.
#[derive(Debug)]
pub struct Editor {
    pub mode: Mode,
    pub buffers: Vec<Buffer>,
    pub buffer_index: usize,
    pub is_running: bool,
    pub map_keys: Mapper,
    pub key_parse: KeyParser,
    pub current_pane_rect: Rect,
}

/// A buffer by its name, its text and its cursor.
pub open spec fn buffer_view(b: Buffer) -> (Seq<char>, Seq<char>, Cursor) {
    (b.name_view(), b.text(), b.cur())
}

/// The views of a list of buffers.
pub open spec fn buffer_views(bs: Seq<Buffer>) -> Seq<(Seq<char>, Seq<char>, Cursor)> {
    bs.map_values(|b: Buffer| buffer_view(b))
}

/// What the editor holds, buffers by their views.
pub struct EditorView {
    pub mode: Mode,
    pub buffers: Seq<(Seq<char>, Seq<char>, Cursor)>,
    pub buffer_index: usize,
    pub is_running: bool,
    pub current_pane_rect: Rect,
}

impl View for Editor {
    type V = EditorView;

    open spec fn view(&self) -> EditorView {
        EditorView {
            mode: self.mode,
            buffers: buffer_views(self.buffers@),
            buffer_index: self.buffer_index,
            is_running: self.is_running,
            current_pane_rect: self.current_pane_rect,
        }
    }
}

/// The size of the current pane's text: one less each way than its area.
pub open spec fn pane_size(r: Rect) -> Size {
    Size { width: sat_sub_u16(r.width, 1), height: sat_sub_u16(r.height, 1) }
}

/// The current buffer's text.
pub open spec fn cur_text(v: EditorView) -> Seq<char> {
    v.buffers[v.buffer_index as int].1
}

/// The current buffer's cursor.
pub open spec fn cur_cursor(v: EditorView) -> Cursor {
    v.buffers[v.buffer_index as int].2
}

/// The editor with the current buffer's text and cursor replaced.
pub open spec fn with_current(v: EditorView, t: Seq<char>, c: Cursor) -> EditorView {
    let b = v.buffers[v.buffer_index as int];
    EditorView { buffers: v.buffers.update(v.buffer_index as int, (b.0, t, c)), ..v }
}

/// The column a vertical move lands on: the remembered one, clipped to a
/// line of length `l`.
pub open spec fn landing_col(c: Cursor, l: int) -> u16 {
    let m = max_u16(c.pos.x, c.max.x);
    if m as int <= l { m } else { l as u16 }
}

/// The cursor after `CursorUp`: one row up, or the view one row up on the
/// first row.
pub open spec fn up_cursor(t: Seq<char>, c: Cursor) -> Cursor {
    if c.pos.y != 0 {
        Cursor {
            pos: Pos { x: landing_col(c, line_len_of(t, (c.pos.y - 1) as nat)), y: (c.pos.y - 1) as u16 },
            ..c
        }
    } else {
        Cursor { scroll: Pos { y: sat_sub_u16(c.scroll.y, 1), ..c.scroll }, ..c }
    }
}

/// The cursor after `CursorDown` in a pane `height` rows high: one row
/// down, or the view one row down on the last row.
pub open spec fn down_cursor(t: Seq<char>, c: Cursor, height: u16) -> Cursor {
    if c.pos.y < height {
        Cursor {
            pos: Pos { x: landing_col(c, line_len_of(t, (c.pos.y + 1) as nat)), y: sat_add_u16(c.pos.y, 1) },
            ..c
        }
    } else {
        Cursor {
            scroll: Pos {
                y: min_u16(
                    sat_add_u16(c.scroll.y, 1),
                    sat_sub(line_count(t) as int, height as int) as usize as u16,
                ),
                ..c.scroll
            },
            ..c
        }
    }
}

/// The cursor after `CursorRight` in a pane `width` columns wide: one
/// column right, or the view one column right at the end of the line or of
/// the pane.
pub open spec fn right_cursor(t: Seq<char>, c: Cursor, width: u16) -> Cursor {
    let l = line_len_of(t, (c.pos.y + c.scroll.y) as nat);
    if (c.pos.x as int) < l && c.pos.x < width {
        Cursor {
            pos: Pos { x: sat_add_u16(c.pos.x, 1), y: c.pos.y },
            max: Pos { x: max_u16(sat_add_u16(c.pos.x, 1), c.max.x), y: c.max.y },
            ..c
        }
    } else {
        Cursor {
            scroll: Pos {
                x: min_u16(sat_add_u16(c.scroll.x, 1), sat_sub(l, width as int) as usize as u16),
                ..c.scroll
            },
            ..c
        }
    }
}

/// The cursor after `CursorLeft`: one column left, or the view one column
/// left in the first column.
pub open spec fn left_cursor(c: Cursor) -> Cursor {
    if c.pos.x != 0 {
        Cursor {
            pos: Pos { x: (c.pos.x - 1) as u16, y: c.pos.y },
            max: Pos { x: (c.pos.x - 1) as u16, y: c.max.y },
            ..c
        }
    } else {
        Cursor { scroll: Pos { x: sat_sub_u16(c.scroll.x, 1), ..c.scroll }, ..c }
    }
}

/// The cursor at the bottom of a pane `height` rows high, the view on the
/// last lines, before it is pulled back into its line.
pub open spec fn bottom_cursor(t: Seq<char>, c: Cursor, height: u16) -> Cursor {
    let last = line_count(t) as u16;
    Cursor {
        pos: Pos { y: height, ..c.pos },
        scroll: Pos { y: min_u16(sat_sub_u16(last, height), last), ..c.scroll },
        ..c
    }
}

/// The cursor pulled back to the end of its line when it is past it.
pub open spec fn aligned_cursor(t: Seq<char>, c: Cursor) -> Cursor {
    let l = line_len_of(t, (c.pos.y + c.scroll.y) as nat);
    if (c.pos.x as int) < l {
        c
    } else {
        Cursor { pos: Pos { x: l as u16, ..c.pos }, ..c }
    }
}

/// The index in the text where typing at the cursor goes.
pub open spec fn insert_index(t: Seq<char>, c: Cursor) -> int {
    line_start(t, c.pos.y as nat) + c.pos.x
}

/// The cursor after typing `s`: the start of the next row after a line
/// break, else as many columns right as `s` has bytes.
pub open spec fn typed_cursor(c: Cursor, s: Seq<char>) -> Cursor {
    if s.contains('\n') {
        Cursor { pos: Pos { x: 0, y: sat_add_u16(c.pos.y, 1) }, ..c }
    } else {
        Cursor { pos: Pos { x: sat_add_u16(c.pos.x, byte_len(s) as u16), y: c.pos.y }, ..c }
    }
}

/// The editor after a command.
pub open spec fn called(v: EditorView, cmd: Command) -> EditorView {
    let t = cur_text(v);
    let c = cur_cursor(v);
    let size = pane_size(v.current_pane_rect);
    match cmd {
        Command::ChangeMode(m) => EditorView { mode: m, ..v },
        Command::Quit => EditorView { is_running: false, ..v },
        Command::CursorUp => with_current(v, t, up_cursor(t, c)),
        Command::CursorDown => with_current(v, t, down_cursor(t, c, size.height)),
        Command::CursorRight => with_current(v, t, right_cursor(t, c, size.width)),
        Command::CursorLeft => with_current(v, t, left_cursor(c)),
        Command::CursorHome => with_current(v, t, Cursor { pos: Pos { x: 0, ..c.pos }, ..c }),
        Command::CursorEnd => with_current(
            v,
            t,
            Cursor { pos: Pos { x: line_len_of(t, c.pos.y as nat) as u16, ..c.pos }, ..c },
        ),
        Command::CursorTopOfBuffer => with_current(
            v,
            t,
            Cursor { pos: Pos { y: 0, ..c.pos }, scroll: Pos { y: 0, ..c.scroll }, ..c },
        ),
        Command::CursorToBottomOfBuffer => with_current(
            v,
            t,
            aligned_cursor(t, bottom_cursor(t, c, size.height)),
        ),
        Command::InsertChar(s) => with_current(
            v,
            t.take(insert_index(t, c)) + s@ + t.skip(insert_index(t, c)),
            typed_cursor(c, s@),
        ),
    }
}

/// When a command stays within the current buffer's text.
pub open spec fn call_ok(v: EditorView, cmd: Command) -> bool {
    let t = cur_text(v);
    let c = cur_cursor(v);
    let size = pane_size(v.current_pane_rect);
    match cmd {
        Command::CursorUp => c.pos.y <= line_count(t),
        Command::CursorDown => c.pos.y < size.height ==> c.pos.y + 1 < line_count(t),
        Command::CursorRight => c.pos.y + c.scroll.y <= u16::MAX && c.pos.y + c.scroll.y
            < line_count(t),
        Command::CursorEnd => c.pos.y < line_count(t),
        Command::CursorToBottomOfBuffer => {
            let b = bottom_cursor(t, c, size.height);
            b.pos.y + b.scroll.y <= u16::MAX && b.pos.y + b.scroll.y < line_count(t)
        },
        Command::InsertChar(_) => c.pos.y <= line_count(t) && insert_index(t, c) <= t.len(),
        _ => true,
    }
}

impl Editor {
    /// The editor's invariant: the current buffer exists and the pending
    /// keys are well formed.
    pub open spec fn wf(&self) -> bool {
        self.buffer_index < self.buffers@.len() && self.key_parse.wf()
    }

    /// An editor over `files` (an empty buffer when there are none), after
    /// an empty command-bar buffer, in Normal mode, on the first file.
    pub fn new(files: Vec<Buffer>) -> (e: Editor)
        ensures
            e.wf(),
            e.mode == Mode::Normal,
            e.buffer_index == 1,
            e.is_running,
            e.current_pane_rect == (Rect { x: 0, y: 0, width: 0, height: 0 }),
            e.key_parse.pending() == Seq::<Keys>::empty(),
            e.buffers@.len() == 1 + (if files@.len() == 0 { 1 } else { files@.len() }),
            e.buffers@[0].name_view() == "N/A"@,
            e.buffers@[0].text() == Seq::<char>::empty(),
            e.buffers@[0].cur() == Cursor::origin(),
            files@.len() == 0 ==> e.buffers@[1].text() == Seq::<char>::empty() && e.buffers@[1].cur()
                == Cursor::origin(),
            forall|i: int| 0 <= i < files@.len() ==> e.buffers@[i + 1] == files@[i],
    {
        let mut buffers = files;
        if buffers.len() == 0 {
            buffers.push(Buffer::default());
        }
        buffers.insert(0, Buffer::default());
        Editor {
            mode: Mode::Normal,
            buffers,
            buffer_index: 1,
            is_running: true,
            map_keys: Mapper::default(),
            key_parse: KeyParser::default(),
            current_pane_rect: Rect { x: 0, y: 0, width: 0, height: 0 },
        }
    }

    /// The size of the current pane's text: one less each way than its
    /// area.
    pub fn get_current_pane_size(&self) -> (s: Size)
        ensures
            s == pane_size(self.current_pane_rect),
    {
        let h = self.current_pane_rect.height.saturating_sub(1);
        let w = self.current_pane_rect.width.saturating_sub(1);
        Size::new(w, h)
    }

    /// The current buffer.
    pub fn get_current_buffer(&self) -> (b: &Buffer)
        requires
            self.wf(),
        ensures
            *b == self.buffers@[self.buffer_index as int],
    {
        &self.buffers[self.buffer_index]
    }

    /// The current buffer, to change in place.
    pub fn get_current_buffer_mut(&mut self) -> (b: &mut Buffer)
        requires
            old(self).wf(),
        ensures
            *b == old(self).buffers@[old(self).buffer_index as int],
            final(self).buffers@ == old(self).buffers@.update(
                old(self).buffer_index as int,
                *final(b),
            ),
            final(self).buffer_index == old(self).buffer_index,
            final(self).mode == old(self).mode,
            final(self).is_running == old(self).is_running,
            final(self).current_pane_rect == old(self).current_pane_rect,
            final(self).map_keys == old(self).map_keys,
            final(self).key_parse == old(self).key_parse,
    {
        let i = self.buffer_index;
        &mut self.buffers[i]
    }

    /// Where the terminal's cursor goes: the current buffer's cursor,
    /// placed in the pane one column right of its left edge.
    pub fn get_cursor(&self) -> (p: Pos)
        requires
            self.wf(),
            self.current_pane_rect.x + self.buffers@[self.buffer_index as int].cur().pos.x + 1
                <= u16::MAX,
            self.current_pane_rect.y + self.buffers@[self.buffer_index as int].cur().pos.y
                <= u16::MAX,
        ensures
            ({
                let c = self.buffers@[self.buffer_index as int].cur();
                p == (Pos {
                    x: (self.current_pane_rect.x + c.pos.x + 1) as u16,
                    y: (self.current_pane_rect.y + c.pos.y) as u16,
                })
            }),
    {
        let offset = self.current_pane_rect;
        let cursor = self.get_current_buffer().get_cursor().pos;
        Pos::new(offset.x + cursor.x + 1, offset.y + cursor.y + 0)
    }
}


impl Editor {
    /// Carries out `cmd` on the editor.
    pub fn call(&mut self, cmd: Command)
        requires
            old(self).wf(),
            call_ok(old(self)@, cmd),
        ensures
            final(self).wf(),
            final(self)@ == called(old(self)@, cmd),
            final(self).map_keys == old(self).map_keys,
            final(self).key_parse == old(self).key_parse,
    {
        let ghost v = self@;
        let size = self.get_current_pane_size();
        match cmd {
            Command::ChangeMode(m) => {
                self.mode = m;
            },
            Command::Quit => {
                self.is_running = false;
            },
            _ => {
                let i = self.buffer_index;
                let mut buf = self.buffers.remove(i);
                proof {
                    assert(buffer_view(buf) == v.buffers[i as int]);
                }
                match cmd {
                    Command::CursorUp => {
                        if !buf.cursor_up() {
                            buf.scroll_up();
                        }
                    },
                    Command::CursorDown => {
                        let height = size.height as usize;
                        if !buf.cursor_down(height) {
                            buf.scroll_down(height);
                        }
                    },
                    Command::CursorRight => {
                        let width = size.width as usize;
                        if !buf.cursor_right(width) {
                            buf.scroll_right(width);
                        }
                    },
                    Command::CursorLeft => {
                        if !buf.cursor_left() {
                            buf.scroll_left();
                        }
                    },
                    Command::CursorHome => buf.cursor_home(),
                    Command::CursorEnd => buf.cursor_end(),
                    Command::CursorTopOfBuffer => {
                        let cursor = buf._get_cursor_mut();
                        cursor.pos.y = 0;
                        cursor.scroll.y = 0;
                    },
                    Command::CursorToBottomOfBuffer => {
                        let height = size.height;
                        let last_line = buf.len_lines() as u16;
                        let cursor = buf._get_cursor_mut();
                        cursor.pos.y = height;
                        cursor.scroll.y = last_line.saturating_sub(height).min(last_line);
                        buf.align_cursor();
                    },
                    Command::InsertChar(text) => buf.insert(text.as_str()),
                    _ => {},
                }
                self.buffers.insert(i, buf);
                proof {
                    assert(buffer_views(self.buffers@) =~= buffer_views(old(self).buffers@).update(
                        i as int,
                        buffer_view(buf),
                    ));
                }
            },
        }
    }
}


/// Whether `r` is the editor command a binding's command stands for: the
/// moves, the changes of mode, quitting and typing; the others act on
/// panes this editor does not have, and stand for none.
pub open spec fn stands_for(e: EngineCommand, r: Option<Command>) -> bool {
    match e {
        EngineCommand::ChangeMode(m) => r == Some(Command::ChangeMode(m)),
        EngineCommand::Quit => r == Some(Command::Quit),
        EngineCommand::CursorUp => r == Some(Command::CursorUp),
        EngineCommand::CursorDown => r == Some(Command::CursorDown),
        EngineCommand::CursorLeft => r == Some(Command::CursorLeft),
        EngineCommand::CursorRight => r == Some(Command::CursorRight),
        EngineCommand::CursorHome => r == Some(Command::CursorHome),
        EngineCommand::CursorTopOfBuffer => r == Some(Command::CursorTopOfBuffer),
        EngineCommand::CursorToBottomOfBuffer => r == Some(Command::CursorToBottomOfBuffer),
        EngineCommand::InsertChar(ch) => r matches Some(Command::InsertChar(s)) && s@ == seq![ch],
        _ => r is None,
    }
}

/// The pending keys after a press: a press of no key is dropped.
pub open spec fn pressed(pending: Seq<Keys>, keys: Keys) -> Seq<Keys> {
    if keys_is_null(keys) { pending } else { pending.push(keys) }
}

impl Command {
    /// The editor command a binding's command stands for, if any.
    pub fn from_engine(e: &EngineCommand) -> (r: Option<Command>)
        ensures
            stands_for(*e, r),
    {
        match e {
            EngineCommand::ChangeMode(m) => Some(Command::ChangeMode(*m)),
            EngineCommand::Quit => Some(Command::Quit),
            EngineCommand::CursorUp => Some(Command::CursorUp),
            EngineCommand::CursorDown => Some(Command::CursorDown),
            EngineCommand::CursorLeft => Some(Command::CursorLeft),
            EngineCommand::CursorRight => Some(Command::CursorRight),
            EngineCommand::CursorHome => Some(Command::CursorHome),
            EngineCommand::CursorTopOfBuffer => Some(Command::CursorTopOfBuffer),
            EngineCommand::CursorToBottomOfBuffer => Some(Command::CursorToBottomOfBuffer),
            EngineCommand::InsertChar(ch) => {
                let mut v: Vec<char> = Vec::new();
                v.push(*ch);
                Some(Command::InsertChar(string_of(v.as_slice())))
            },
            _ => None,
        }
    }
}

impl CmdRc {
    /// Carries out the command on `editor`.
    pub fn call(&self, editor: &mut Editor)
        requires
            old(editor).wf(),
            call_ok(old(editor)@, self.0),
        ensures
            final(editor).wf(),
            final(editor)@ == called(old(editor)@, self.0),
    {
        editor.call(self.0.duplicate());
    }
}

impl Command {
    /// A copy of this command.
    pub fn duplicate(&self) -> (r: Command)
        ensures
            r == *self,
    {
        match self {
            Command::ChangeMode(m) => Command::ChangeMode(*m),
            Command::Quit => Command::Quit,
            Command::CursorUp => Command::CursorUp,
            Command::CursorDown => Command::CursorDown,
            Command::CursorRight => Command::CursorRight,
            Command::CursorLeft => Command::CursorLeft,
            Command::CursorHome => Command::CursorHome,
            Command::CursorEnd => Command::CursorEnd,
            Command::CursorTopOfBuffer => Command::CursorTopOfBuffer,
            Command::CursorToBottomOfBuffer => Command::CursorToBottomOfBuffer,
            Command::InsertChar(s) => Command::InsertChar(s.clone()),
        }
    }
}

impl Editor {
    /// Takes a key press: it joins the pending keys, and they come to the
    /// command bound to them (or none, when that command does not act on
    /// this editor), to typing the text they stand for when no binding can
    /// grow from them, or to nothing yet.
    pub fn handle_event(&mut self, keys: Keys) -> (r: Option<CmdRc>)
        requires
            old(self).wf(),
        ensures
            final(self).wf(),
            final(self)@ == old(self)@,
            final(self).map_keys == old(self).map_keys,
            ({
                let p = pressed(old(self).key_parse.pending(), keys);
                let m = old(self).mode;
                let mk = old(self).map_keys;
                &&& !mk.possible(m, p) ==> (r matches Some(CmdRc(Command::InsertChar(s))) && s@
                    == typed_chars(p) && final(self).key_parse.pending() == Seq::<Keys>::empty())
                &&& (mk.possible(m, p) && mk.binding(m, p) is Some) ==> (stands_for(
                    mk.binding(m, p)->0.command,
                    match r {
                        Some(c) => Some(c.0),
                        None => None,
                    },
                ) && final(self).key_parse.pending() == Seq::<Keys>::empty())
                &&& (mk.possible(m, p) && mk.binding(m, p) is None) ==> (r is None
                    && final(self).key_parse.pending() == p)
            }),
    {
        self.key_parse.push(keys);
        let mode = self.mode;
        let decision = decide_keys(&self.map_keys, &mut self.key_parse, mode);
        match decision {
            KeyDecision::Insert(s) => Some(CmdRc(Command::InsertChar(s))),
            KeyDecision::Mapping(c) => match Command::from_engine(&c.command) {
                Some(cmd) => Some(CmdRc(cmd)),
                None => None,
            },
            KeyDecision::Wait => None,
        }
    }
}


impl Editor {
    /// Whether `cmd` stays within the current buffer's text.
    pub fn can_call(&self, cmd: &Command) -> (r: bool)
        requires
            self.wf(),
        ensures
            r == call_ok(self@, *cmd),
    {
        let size = self.get_current_pane_size();
        let b = &self.buffers[self.buffer_index];
        let c = b.get_cursor();
        let lines = b.len_lines();
        let row = c.pos.y as usize;
        let file_row = c.pos.y as usize + c.scroll.y as usize;
        match cmd {
            Command::CursorUp => row <= lines,
            Command::CursorDown => !(c.pos.y < size.height) || row + 1 < lines,
            Command::CursorRight => file_row <= u16::MAX as usize && file_row < lines,
            Command::CursorEnd => row < lines,
            Command::CursorToBottomOfBuffer => {
                let last = lines as u16;
                let top = last.saturating_sub(size.height).min(last);
                let bottom_row = size.height as usize + top as usize;
                bottom_row <= u16::MAX as usize && bottom_row < lines
            },
            Command::InsertChar(_) => b.can_insert(),
            _ => true,
        }
    }
}

} // verus!
