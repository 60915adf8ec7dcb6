//! A window pane over a buffer: its place and size, whether it shows line
//! numbers and a status bar, and the bounds the cursor moves in.
use vstd::prelude::*;
use crate::engine::buffer::{lemma_buffer_fields, lines_in_view, Buffer};
use crate::engine::message_box::joined;
use crate::engine::mode::{mode_name, Mode};
use crate::engine::pane::{
    moved_down, moved_left, moved_right, moved_up, pane_moved_down, pane_moved_left,
    pane_moved_right, pane_moved_up, scrolled_down, scrolled_up, BufferBounds, BufferMut, Cursor,
    CursorMovement, CursorPos, Pane, PaneBounds, Scrollable,
};
use crate::rope::{
    line_count, line_start, line_text, rope_insert_char, rope_len_chars, rope_len_lines,
    rope_line_to_char, rope_remove,
};
use crate::strings::{
    chars_of, decimal, decimal_chars, extend_chars, push_repeat, repeat_char, string_from,
    string_of, views,
};
use crate::ui::key::Keys;
use crate::ui::layout::{Pos, Rect, Size, Stack};
use crate::ui::style::{attribute_bit, Attribute, Attributes, Color};
use crate::ui::text::{newlines_to_spaces, Text};
use crate::ui::widget::{BoxWidget, Container};

verus! {

/// The columns the line numbers take.
pub const NUMBER_LINE_WIDTH: u16 = 4;

/// A window pane: where it stands, its size, its buffer, whether it shows
/// line numbers and a status bar, whether it has the focus, its mode and
/// whether it is closing.
#[derive(Debug)]
pub struct Window {
    pub pos: Pos,
    pub size: Size,
    pub buffer: Buffer,
    pub has_line_numbers: bool,
    pub has_status_bar: bool,
    pub active: bool,
    pub mode: Mode,
    pub closing: bool,
}

/// The columns the line numbers take when shown.
pub open spec fn numbers_width(w: Window) -> u16 {
    if w.has_line_numbers { NUMBER_LINE_WIDTH } else { 0 }
}

/// The rows the status bar takes when shown.
pub open spec fn status_rows(w: Window) -> u16 {
    if w.has_status_bar { 1 } else { 0 }
}

/// The mode's name padded with spaces to seven characters.
pub open spec fn padded_mode(m: Mode) -> Seq<char> {
    let n = mode_name(m);
    if n.len() < 7 { n + repeat_char(' ', (7 - n.len()) as nat) } else { n }
}

/// The status bar's text: the padded mode, the buffer's name, and the
/// cursor's place in the text, then 17 spaces.
pub open spec fn status_text(m: Mode, name: Seq<char>, x: u16, y: u16) -> Seq<char> {
    padded_mode(m) + seq![' '] + name + seq![':', ' '] + decimal(x as nat) + seq!['/'] + decimal(
        y as nat,
    ) + repeat_char(' ', 17)
}

/// The bounds the cursor moves in on line `y` of window `w`.
pub open spec fn cursor_bounds(w: Window, y: u16) -> Rect {
    let x = (w.pos.x + numbers_width(w)) as u16;
    let line = line_text(w.buffer.text(), y as nat).len() as u16;
    let wide = if line + x >= 2 { (line + x - 2) as u16 } else { 0u16 };
    let pane = (w.size.height - status_rows(w) - 1) as u16;
    let lines = line_count(w.buffer.text());
    let text_rows = (if lines >= 2 { lines - 2 } else { 0 }) as usize as u16;
    Rect {
        x,
        y: w.pos.y,
        width: if wide >= x { wide } else { x },
        height: if pane <= text_rows { pane } else { text_rows },
    }
}

/// When the bounds on line `y` can be computed: the line is in the text
/// and nothing overflows.
pub open spec fn bounds_ok(w: Window, y: int) -> bool {
    &&& 0 <= y < line_count(w.buffer.text())
    &&& y <= u16::MAX
    &&& w.pos.x + numbers_width(w) <= u16::MAX
    &&& w.size.height >= status_rows(w) + 1
    &&& (line_text(w.buffer.text(), y as nat).len() as u16) + w.pos.x + numbers_width(w)
        <= u16::MAX
}

/// The column in the text under the cursor: its column in the window less
/// the line numbers.
pub open spec fn text_col(w: Window) -> int {
    w.buffer.cur().pos.x - numbers_width(w)
}

/// The index in the text of the cursor's place, counting its row from the
/// top of the text.
pub open spec fn text_index(w: Window) -> int {
    line_start(w.buffer.text(), w.buffer.cur().pos.y as nat) + text_col(w)
}

/// When the cursor's place is a place in the text.
pub open spec fn edit_ok(w: Window) -> bool {
    &&& text_col(w) >= 0
    &&& w.buffer.cur().pos.y <= line_count(w.buffer.text())
    &&& text_index(w) <= w.buffer.text().len()
}

impl Window {
    /// A window at `pos` of size `size` over `buffer`, without line
    /// numbers or status bar, without the focus, in Normal mode.
    pub fn new(pos: Pos, size: Size, buffer: Buffer) -> (w: Window)
        ensures
            w.pos == pos,
            w.size == size,
            w.buffer == buffer,
            !w.has_line_numbers,
            !w.has_status_bar,
            !w.active,
            w.mode == Mode::Normal,
            !w.closing,
    {
        Window {
            pos,
            size,
            buffer,
            has_line_numbers: false,
            has_status_bar: false,
            active: false,
            mode: Mode::Normal,
            closing: false,
        }
    }

    /// This window with line numbers shown or not.
    pub fn with_line_numbers(self, flag: bool) -> (w: Window)
        ensures
            w == (Window { has_line_numbers: flag, ..self }),
    {
        Window { has_line_numbers: flag, ..self }
    }

    /// This window with a status bar or not.
    pub fn with_status_bar(self, flag: bool) -> (w: Window)
        ensures
            w == (Window { has_status_bar: flag, ..self }),
    {
        Window { has_status_bar: flag, ..self }
    }

    /// The size left for the text: the window less the line numbers and
    /// the status bar.
    pub fn text_field_size(&self) -> (s: Size)
        requires
            self.size.width >= numbers_width(*self),
            self.size.height >= status_rows(*self),
        ensures
            s == (Size {
                width: (self.size.width - numbers_width(*self)) as u16,
                height: (self.size.height - status_rows(*self)) as u16,
            }),
    {
        let numbers: u16 = if self.has_line_numbers { NUMBER_LINE_WIDTH } else { 0 };
        let status: u16 = if self.has_status_bar { 1 } else { 0 };
        Size { width: self.size.width - numbers, height: self.size.height - status }
    }

    /// The bounds the cursor moves in on line `y`: right of the line
    /// numbers, as wide as the line less its break, as high as the text
    /// shown or the lines in the buffer.
    pub fn create_cursor_bounds(&self, y: u16) -> (r: Rect)
        requires
            bounds_ok(*self, y as int),
        ensures
            r == cursor_bounds(*self, y),
    {
        let numbers: u16 = if self.has_line_numbers { NUMBER_LINE_WIDTH } else { 0 };
        let status: u16 = if self.has_status_bar { 1 } else { 0 };
        let line_text_width = self.buffer.line_len(y as usize) as u16;
        let x = self.pos.x + numbers;
        let pane_height = self.size.height - status - 1;
        let buffer_height = crate::rope::rope_len_lines(self.buffer.get_rope()).saturating_sub(2) as u16;
        let height = if pane_height <= buffer_height {
            pane_height
        } else {
            buffer_height
        };
        let wide = (line_text_width + x).saturating_sub(2);
        let width = if wide >= x {
            wide
        } else {
            x
        };
        Rect::with_position(Pos::new(x, self.pos.y), Size::new(width, height))
    }

    /// The status bar's text: the mode padded to seven characters, the
    /// buffer's name, and the cursor's place in the text.
    pub fn status_bar_text(&self) -> (s: String)
        requires
            self.buffer.cur().pos.x + self.buffer.cur().scroll.x <= u16::MAX,
            self.buffer.cur().pos.y + self.buffer.cur().scroll.y <= u16::MAX,
        ensures
            s@ == status_text(
                self.mode,
                self.buffer.name_view(),
                (self.buffer.cur().pos.x + self.buffer.cur().scroll.x) as u16,
                (self.buffer.cur().pos.y + self.buffer.cur().scroll.y) as u16,
            ),
    {
        let cursor = self.buffer.cursor;
        proof {
            lemma_buffer_fields(self.buffer);
        }
        let x = cursor.pos.x + cursor.scroll.x;
        let y = cursor.pos.y + cursor.scroll.y;
        let mut out = chars_of(self.mode.name());
        if out.len() < 7 {
            let missing = 7 - out.len();
            push_repeat(&mut out, ' ', missing);
        }
        out.push(' ');
        extend_chars(&mut out, chars_of(self.buffer.name.as_str()).as_slice());
        out.push(':');
        out.push(' ');
        extend_chars(&mut out, decimal_chars(x as usize).as_slice());
        out.push('/');
        extend_chars(&mut out, decimal_chars(y as usize).as_slice());
        push_repeat(&mut out, ' ', 17);
        proof {
            assert(out@ =~= status_text(self.mode, self.buffer.name_view(), x, y));
        }
        string_of(out.as_slice())
    }

    /// Where the terminal's cursor goes: the buffer's cursor placed in the
    /// window, right of the line numbers.
    pub fn cursor(&self) -> (p: Option<Pos>)
        requires
            self.buffer.cur().pos.x + self.pos.x + numbers_width(*self) <= u16::MAX,
            self.buffer.cur().pos.y + self.pos.y <= u16::MAX,
        ensures
            p == Some(Pos {
                x: (self.buffer.cur().pos.x + self.pos.x + numbers_width(*self)) as u16,
                y: (self.buffer.cur().pos.y + self.pos.y) as u16,
            }),
    {
        let cursor = self.buffer.cursor;
        proof {
            lemma_buffer_fields(self.buffer);
        }
        let numbers: u16 = if self.has_line_numbers { NUMBER_LINE_WIDTH } else { 0 };
        let x = (cursor.pos.x + self.pos.x) + numbers;
        let y = cursor.pos.y + self.pos.y;
        Some(Pos { x, y })
    }

    /// Whether the window is closing.
    pub fn close(&self) -> (r: bool)
        ensures
            r == self.closing,
    {
        self.closing
    }

    /// Removes the character before the cursor's place in the text.
    pub fn backspace(&mut self)
        requires
            edit_ok(*old(self)),
        ensures
            ({
                let t = old(self).buffer.text();
                let i = text_index(*old(self));
                final(self).buffer.text() == t.take(if i > 0 { i - 1 } else { 0 }) + t.skip(i)
            }),
            final(self).buffer.cur() == old(self).buffer.cur(),
            final(self).buffer.name_view() == old(self).buffer.name_view(),
    {
        proof {
            lemma_buffer_fields(self.buffer);
        }
        let numbers: u16 = if self.has_line_numbers { NUMBER_LINE_WIDTH } else { 0 };
        let col = (self.buffer.cursor.pos.x as usize) - (numbers as usize);
        let row = self.buffer.cursor.pos.y as usize;
        let _len = rope_len_chars(&self.buffer.rope);
        let idx = rope_line_to_char(&self.buffer.rope, row);
        let start = (idx + col).saturating_sub(1);
        let end = idx + col;
        rope_remove(&mut self.buffer.rope, start, end);
        proof {
            lemma_buffer_fields(self.buffer);
        }
    }

    /// Removes the character at the cursor's place in the text.
    pub fn delete(&mut self)
        requires
            edit_ok(*old(self)),
            text_index(*old(self)) < old(self).buffer.text().len(),
        ensures
            ({
                let t = old(self).buffer.text();
                let i = text_index(*old(self));
                final(self).buffer.text() == t.take(i) + t.skip(i + 1)
            }),
            final(self).buffer.cur() == old(self).buffer.cur(),
            final(self).buffer.name_view() == old(self).buffer.name_view(),
    {
        proof {
            lemma_buffer_fields(self.buffer);
        }
        let numbers: u16 = if self.has_line_numbers { NUMBER_LINE_WIDTH } else { 0 };
        let mut col = (self.buffer.cursor.pos.x as usize) - (numbers as usize);
        col += 1;
        let row = self.buffer.cursor.pos.y as usize;
        let _len = rope_len_chars(&self.buffer.rope);
        let idx = rope_line_to_char(&self.buffer.rope, row);
        let start = (idx + col).saturating_sub(1);
        let end = idx + col;
        rope_remove(&mut self.buffer.rope, start, end);
        proof {
            lemma_buffer_fields(self.buffer);
        }
    }

    /// Removes the cursor's row of the text, its break included.
    pub fn delete_line(&mut self)
        requires
            (old(self).buffer.cur().pos.y as int) < line_count(old(self).buffer.text()),
        ensures
            ({
                let t = old(self).buffer.text();
                let y = old(self).buffer.cur().pos.y as nat;
                final(self).buffer.text() == t.take(line_start(t, y) as int) + t.skip(
                    line_start(t, y + 1) as int,
                )
            }),
            final(self).buffer.cur() == old(self).buffer.cur(),
            final(self).buffer.name_view() == old(self).buffer.name_view(),
    {
        proof {
            lemma_buffer_fields(self.buffer);
        }
        let row = self.buffer.cursor.pos.y as usize;
        let start = rope_line_to_char(&self.buffer.rope, row);
        let end = rope_line_to_char(&self.buffer.rope, row + 1);
        proof {
            crate::editor::window::lemma_line_start_monotone(self.buffer.text(), row as nat);
        }
        rope_remove(&mut self.buffer.rope, start, end);
        proof {
            lemma_buffer_fields(self.buffer);
        }
    }
}

/// The widest of the lines, each counted in characters cut to 16 bits.
pub open spec fn widest(ls: Seq<Seq<char>>) -> u16
    decreases ls.len(),
{
    if ls.len() == 0 {
        0
    } else {
        let w = widest(ls.drop_last());
        let l = ls.last().len() as u16;
        if l > w {
            l
        } else {
            w
        }
    }
}

/// The lines of the window's buffer in view.
pub open spec fn window_lines(w: Window) -> Seq<Seq<char>> {
    lines_in_view(
        w.buffer.text(),
        w.buffer.cur().scroll.y as nat,
        (w.buffer.cur().scroll.y + w.size.height) as nat,
    )
}

/// `h` rows: the lines, then line breaks.
pub open spec fn padded_rows(ls: Seq<Seq<char>>, h: nat) -> Seq<Seq<char>> {
    Seq::new(h, |i: int| if i < ls.len() { ls[i] } else { seq!['\n'] })
}

/// `count` rows of line numbers from `start` through `last`, each padded
/// with a space on both sides, then rows of `~`.
pub open spec fn number_rows(start: u16, last: int, count: nat) -> Seq<Seq<char>> {
    Seq::new(
        count,
        |i: int|
            if start + i <= last {
                seq![' '] + decimal((start + i) as nat) + seq![' ', '\n']
            } else {
                seq!['~', '\n']
            },
    )
}

/// The rows the line numbers column shows: from the first row in view
/// through the last row of the window or of the text, whichever is first.
pub open spec fn window_numbers(w: Window) -> Seq<Seq<char>> {
    let c = w.buffer.cur();
    let end = c.scroll.y + w.size.height - status_rows(w);
    let content_rows = (line_count(w.buffer.text()) - 3) as u16;
    number_rows(c.scroll.y, if end <= content_rows { end } else { content_rows as int }, end as nat)
}

/// When the window can be drawn: nothing it computes overflows and the
/// cursor's row is in the text.
pub open spec fn window_view_ok(w: Window) -> bool {
    let c = w.buffer.cur();
    &&& c.scroll.y + w.size.height <= u16::MAX
    &&& w.size.height >= status_rows(w)
    &&& w.has_line_numbers ==> line_count(w.buffer.text()) >= 3 && (c.pos.y as int) < line_count(
        w.buffer.text(),
    )
    &&& w.has_status_bar ==> c.pos.x + c.scroll.x <= u16::MAX && c.pos.y + c.scroll.y <= u16::MAX
}

/// Whether `b` is a text with `content` (line breaks shown as spaces) and
/// `comment`.
pub open spec fn text_is(b: BoxWidget, content: Seq<char>, comment: Seq<char>) -> bool {
    &&& b matches BoxWidget::Text(t)
    &&& b->Text_0.content_view() == newlines_to_spaces(content)
    &&& b->Text_0.comment_view() == Some(comment)
}

/// Whether `r` draws window `w`: down the window, the text area (the line
/// numbers left of the text when shown), then the status bar when shown.
pub open spec fn window_shown(w: Window, r: BoxWidget) -> bool {
    let c = w.buffer.cur();
    let h2 = (w.size.height - status_rows(w)) as u16;
    &&& r matches BoxWidget::Container(v)
    &&& r->Container_0.bounds_view() == (Rect {
        x: 0,
        y: 0,
        width: w.size.width,
        height: w.size.height,
    })
    &&& r->Container_0.stack_view() == Stack::Vertically
    &&& r->Container_0.comment_view() == Some("everything"@)
    &&& r->Container_0.children_view().len() == if w.has_status_bar { 2nat } else { 1nat }
    &&& ({
        let win = r->Container_0.children_view()[0];
        &&& win matches BoxWidget::Container(x)
        &&& win->Container_0.bounds_view() == (Rect { x: 0, y: 0, width: w.size.width, height: h2 })
        &&& win->Container_0.stack_view() == Stack::Horizontally
        &&& win->Container_0.children_view().len() == if w.has_line_numbers { 2nat } else { 1nat }
        &&& text_is(
            win->Container_0.children_view().last(),
            joined(padded_rows(window_lines(w), w.size.height as nat)),
            "text file"@,
        )
        &&& win->Container_0.children_view().last()->Text_0.width_view() == w.size.width
        &&& win->Container_0.children_view().last()->Text_0.height_view() == w.size.height
        &&& w.has_line_numbers ==> text_is(
            win->Container_0.children_view()[0],
            joined(window_numbers(w)),
            "numbers"@,
        ) && win->Container_0.children_view()[0]->Text_0.width_view() == NUMBER_LINE_WIDTH
    })
    &&& w.has_status_bar ==> {
        let bar = r->Container_0.children_view()[1];
        &&& text_is(
            bar,
            status_text(
                w.mode,
                w.buffer.name_view(),
                (c.pos.x + c.scroll.x) as u16,
                (c.pos.y + c.scroll.y) as u16,
            ),
            "status bar"@,
        )
        &&& bar->Text_0.width_view() == w.size.width
        &&& bar->Text_0.height_view() == 1
        &&& bar->Text_0.style_view().background_color == Some(Color::DarkGrey)
        &&& bar->Text_0.style_view().attributes == (Attributes { bits: attribute_bit(Attribute::Bold) })
    }
}

impl Window {
    /// The text area: the lines in view, then line breaks, as many rows as
    /// the window has.
    fn view_contents(&self) -> (t: Text)
        requires
            self.buffer.cur().scroll.y + self.size.height <= u16::MAX,
        ensures
            t.content_view() == newlines_to_spaces(
                joined(padded_rows(window_lines(*self), self.size.height as nat)),
            ),
            t.width_view() == self.size.width,
            t.height_view() == self.size.height,
            t.comment_view() == Some("text file"@),
    {
        let height = self.size.height;
        let lines = self.buffer.on_screen(height);
        let ghost rows = padded_rows(window_lines(*self), height as nat);
        let mut contents: Vec<char> = Vec::new();
        let mut i: usize = 0;
        proof {
            assert(rows.take(0) =~= Seq::<Seq<char>>::empty());
        }
        while i < height as usize
            invariant
                i <= height,
                rows.len() == height,
                views(lines@) == window_lines(*self),
                forall|j: int| 0 <= j < height ==> #[trigger] rows[j] == if j < lines@.len() {
                    lines@[j]@
                } else {
                    seq!['\n']
                },
                contents@ == joined(rows.take(i as int)),
            decreases height - i,
        {
            proof {
                assert(rows.take(i + 1).drop_last() =~= rows.take(i as int));
            }
            if i < lines.len() {
                extend_chars(&mut contents, chars_of(lines[i].as_str()).as_slice());
            } else {
                contents.push('\n');
            }
            proof {
                assert(contents@ == joined(rows.take(i as int)) + rows[i as int]);
            }
            i += 1;
        }
        proof {
            assert(rows.take(height as int) =~= rows);
        }
        Text::new(string_of(contents.as_slice()).as_str()).max_width(self.size.width).max_height(
            height,
        ).with_comment(string_from("text file"))
    }

    /// The line numbers column.
    fn view_line_numbers(&self) -> (t: Text)
        requires
            window_view_ok(*self),
            self.has_line_numbers,
        ensures
            t.content_view() == newlines_to_spaces(joined(window_numbers(*self))),
            t.width_view() == NUMBER_LINE_WIDTH,
            t.comment_view() == Some("numbers"@),
    {
        proof {
            lemma_buffer_fields(self.buffer);
        }
        let status: u16 = if self.has_status_bar { 1 } else { 0 };
        let height = self.size.height - status;
        let start = self.buffer.cursor.scroll.y;
        let end = height + start;
        let content_rows = (self.buffer.len_lines() - 2) as u16;
        let last = if end <= content_rows {
            end
        } else {
            content_rows
        };
        let ghost rows = window_numbers(*self);
        let mut text: Vec<char> = Vec::new();
        let mut i: u16 = 0;
        proof {
            assert(rows.take(0) =~= Seq::<Seq<char>>::empty());
        }
        while i < end
            invariant
                i <= end,
                rows == number_rows(start, last as int, end as nat),
                text@ == joined(rows.take(i as int)),
            decreases end - i,
        {
            proof {
                assert(rows.take(i + 1).drop_last() =~= rows.take(i as int));
            }
            let n: u32 = start as u32 + i as u32;
            if n <= last as u32 {
                text.push(' ');
                extend_chars(&mut text, decimal_chars(n as usize).as_slice());
                text.push(' ');
                text.push('\n');
            } else {
                text.push('~');
                text.push('\n');
            }
            proof {
                assert(text@ =~= joined(rows.take(i as int)) + rows[i as int]);
            }
            i += 1;
        }
        proof {
            assert(rows.take(end as int) =~= rows);
        }
        Text::new(string_of(text.as_slice()).as_str()).max_width(NUMBER_LINE_WIDTH).with_comment(
            string_from("numbers"),
        )
    }

    /// The status bar: bold on dark grey, one row as wide as the window.
    fn view_status_bar(&self) -> (t: Text)
        requires
            self.buffer.cur().pos.x + self.buffer.cur().scroll.x <= u16::MAX,
            self.buffer.cur().pos.y + self.buffer.cur().scroll.y <= u16::MAX,
        ensures
            t.content_view() == newlines_to_spaces(
                status_text(
                    self.mode,
                    self.buffer.name_view(),
                    (self.buffer.cur().pos.x + self.buffer.cur().scroll.x) as u16,
                    (self.buffer.cur().pos.y + self.buffer.cur().scroll.y) as u16,
                ),
            ),
            t.width_view() == self.size.width,
            t.height_view() == 1,
            t.style_view().background_color == Some(Color::DarkGrey),
            t.style_view().attributes == (Attributes { bits: attribute_bit(Attribute::Bold) }),
            t.comment_view() == Some("status bar"@),
    {
        let content = self.status_bar_text();
        Text::new(content.as_str()).max_height(1).max_width(self.size.width).with_bg(
            Color::DarkGrey,
        ).with_atter(Attributes { bits: Attribute::Bold.bytes() }).with_comment(
            string_from("status bar"),
        )
    }
}

/// A window with another cursor keeps all else.
pub proof fn lemma_window_with_cursor(w: Window, c: Cursor)
    ensures
        w.with_cursor(c).buffer.cur() == c,
        w.with_cursor(c).buffer.text() == w.buffer.text(),
        w.with_cursor(c).buffer.name_view() == w.buffer.name_view(),
        w.with_cursor(c).pos == w.pos,
        w.with_cursor(c).size == w.size,
        w.with_cursor(c).has_line_numbers == w.has_line_numbers,
        w.with_cursor(c).has_status_bar == w.has_status_bar,
        w.with_cursor(c).active == w.active,
        w.with_cursor(c).mode == w.mode,
        w.with_cursor(c).closing == w.closing,
{
    lemma_buffer_fields(w.buffer);
    lemma_buffer_fields(w.with_cursor(c).buffer);
}

impl CursorPos for Window {
    open spec fn cursor_of(&self) -> Option<Cursor> {
        Some(self.buffer.cur())
    }

    closed spec fn with_cursor(&self, c: Cursor) -> Window {
        Window { buffer: Buffer { cursor: c, ..self.buffer }, ..*self }
    }

    /// None on the first row.
    open spec fn above_of(&self) -> Option<Rect> {
        let c = self.buffer.cur();
        if c.pos.y == 0 {
            None
        } else {
            Some(cursor_bounds(*self, (c.pos.y + c.scroll.y - 1) as u16))
        }
    }

    /// None past the window's last row.
    open spec fn below_of(&self) -> Option<Rect> {
        let c = self.buffer.cur();
        if c.pos.y + 1 > self.size.height {
            None
        } else {
            Some(cursor_bounds(*self, (c.pos.y + c.scroll.y + 1) as u16))
        }
    }

    open spec fn around_ok(&self) -> bool {
        let c = self.buffer.cur();
        &&& c.pos.y > 0 ==> c.pos.y + c.scroll.y <= u16::MAX && bounds_ok(
            *self,
            c.pos.y + c.scroll.y - 1,
        )
        &&& c.pos.y + 1 <= self.size.height ==> bounds_ok(*self, c.pos.y + c.scroll.y + 1)
    }

    fn get_cursor_pos(&self) -> (r: Option<Cursor>) {
        proof {
            lemma_buffer_fields(self.buffer);
        }
        Some(self.buffer.cursor)
    }

    fn set_cursor_pos(&mut self, cursor: Cursor) {
        self.buffer.cursor = cursor;
        proof {
            lemma_buffer_fields(self.buffer);
        }
    }

    fn get_line_above_bounds(&self) -> (r: Option<Rect>) {
        let cursor = self.buffer.cursor;
        proof {
            lemma_buffer_fields(self.buffer);
        }
        if cursor.pos.y == 0 {
            return None;
        }
        Some(self.create_cursor_bounds(cursor.pos.y + cursor.scroll.y - 1))
    }

    fn get_line_below_bounds(&self) -> (r: Option<Rect>) {
        let cursor = self.buffer.cursor;
        proof {
            lemma_buffer_fields(self.buffer);
        }
        if cursor.pos.y as u32 + 1 > self.size.height as u32 {
            return None;
        }
        Some(self.create_cursor_bounds(cursor.pos.y + cursor.scroll.y + 1))
    }
}

impl PaneBounds for Window {
    /// The bounds on the cursor's line.
    open spec fn pane_bounds_of(&self) -> Option<Rect> {
        let c = self.buffer.cur();
        Some(cursor_bounds(*self, (c.pos.y + c.scroll.y) as u16))
    }

    open spec fn pane_bounds_ok(&self) -> bool {
        bounds_ok(*self, self.buffer.cur().pos.y + self.buffer.cur().scroll.y)
    }

    fn get_pane_bounds(&self) -> (r: Option<Rect>) {
        let cursor = self.buffer.cursor;
        proof {
            lemma_buffer_fields(self.buffer);
        }
        Some(self.create_cursor_bounds(cursor.pos.y + cursor.scroll.y))
    }
}

impl BufferBounds for Window {
    /// As wide as the widest line in view, as high as the text's lines.
    open spec fn buffer_bounds_of(&self) -> Option<Size> {
        Some(
            Size {
                width: widest(window_lines(*self)),
                height: line_count(self.buffer.text()) as u16,
            },
        )
    }

    open spec fn buffer_bounds_ok(&self) -> bool {
        self.buffer.cur().scroll.y + self.size.height <= u16::MAX
    }

    fn get_buffer_bounds(&self) -> (r: Option<Size>) {
        let lines = self.buffer.on_screen(self.size.height);
        let ghost ls = window_lines(*self);
        let mut width: u16 = 0;
        let mut i: usize = 0;
        while i < lines.len()
            invariant
                i <= lines@.len(),
                views(lines@) == ls,
                width == widest(ls.take(i as int)),
            decreases lines@.len() - i,
        {
            proof {
                assert(ls.take(i + 1).drop_last() =~= ls.take(i as int));
                assert(views(lines@)[i as int] == lines@[i as int]@);
            }
            let n = chars_of(lines[i].as_str()).len() as u16;
            if n > width {
                width = n;
            }
            i += 1;
        }
        proof {
            assert(ls.take(ls.len() as int) =~= ls);
        }
        let height = rope_len_lines(self.buffer.get_rope()) as u16;
        Some(Size { width, height })
    }
}

impl BufferMut for Window {
    open spec fn insert_ok(&self, c: char) -> bool {
        edit_ok(*self)
    }

    /// Types `ch` at the cursor's place in the text; the cursor stays.
    fn insert_char(&mut self, ch: char)
        ensures
            ({
                let t = old(self).buffer.text();
                let i = text_index(*old(self));
                final(self).buffer.text() == t.take(i).push(ch) + t.skip(i)
            }),
            final(self).buffer.cur() == old(self).buffer.cur(),
            final(self).buffer.name_view() == old(self).buffer.name_view(),
            final(self).pos == old(self).pos,
            final(self).size == old(self).size,
            final(self).has_line_numbers == old(self).has_line_numbers,
            final(self).has_status_bar == old(self).has_status_bar,
            final(self).active == old(self).active,
            final(self).mode == old(self).mode,
            final(self).closing == old(self).closing,
    {
        proof {
            lemma_buffer_fields(self.buffer);
        }
        let numbers: u16 = if self.has_line_numbers { NUMBER_LINE_WIDTH } else { 0 };
        let col = (self.buffer.cursor.pos.x as usize) - (numbers as usize);
        let row = self.buffer.cursor.pos.y as usize;
        let _len = rope_len_chars(&self.buffer.rope);
        let idx = rope_line_to_char(&self.buffer.rope, row);
        rope_insert_char(&mut self.buffer.rope, idx + col, ch);
        proof {
            lemma_buffer_fields(self.buffer);
        }
    }
}

impl Scrollable for Window {
}

impl CursorMovement for Window {
}

impl Pane for Window {
    open spec fn view_ok(&self) -> bool {
        window_view_ok(*self)
    }

    /// The text area with its line numbers, over the status bar.
    fn view(&self) -> (r: BoxWidget)
        ensures
            window_shown(*self, r),
    {
        let width = self.size.width;
        let text_field = self.view_contents();
        let status: u16 = if self.has_status_bar { 1 } else { 0 };
        let height = self.size.height - status;
        let mut window = Container::new(Rect::new(Size::new(width, height)), Stack::Horizontally);
        if self.has_line_numbers {
            let line_numbers = self.view_line_numbers();
            window.push_box(BoxWidget::Text(line_numbers));
        }
        window.push_box(BoxWidget::Text(text_field));
        let mut view = Container::new(Rect::new(self.size), Stack::Vertically).with_comment(
            string_from("everything"),
        ).with_child_box(BoxWidget::Container(window));
        if self.has_status_bar {
            let status_bar = self.view_status_bar();
            view.push_box(BoxWidget::Text(status_bar));
        }
        BoxWidget::Container(view)
    }

    /// Takes the editor's mode; keys do nothing else.
    fn update(&mut self, mode: Mode, keys: Keys)
        ensures
            *final(self) == (Window { mode, ..*old(self) }),
    {
        self.mode = mode;
    }

    fn set_focused(&mut self, flag: bool)
        ensures
            *final(self) == (Window { active: flag, ..*old(self) }),
    {
        self.active = flag;
    }

    fn is_active(&self) -> (r: bool)
        ensures
            r == self.active,
    {
        self.active
    }
}


/// Moving a window's cursor or scrolling its view never changes its text,
/// its buffer's name or where the window stands.
pub proof fn lemma_window_moves_keep_text(w: Window)
    ensures
        pane_moved_up(w).buffer.text() == w.buffer.text(),
        pane_moved_down(w).buffer.text() == w.buffer.text(),
        pane_moved_left(w).buffer.text() == w.buffer.text(),
        pane_moved_right(w).buffer.text() == w.buffer.text(),
        pane_moved_up(w).buffer.name_view() == w.buffer.name_view(),
        pane_moved_down(w).buffer.name_view() == w.buffer.name_view(),
        pane_moved_left(w).buffer.name_view() == w.buffer.name_view(),
        pane_moved_right(w).buffer.name_view() == w.buffer.name_view(),
        pane_moved_up(w).pos == w.pos && pane_moved_down(w).pos == w.pos,
        pane_moved_left(w).pos == w.pos && pane_moved_right(w).pos == w.pos,
{
    let c = w.buffer.cur();
    let b = cursor_bounds(w, (c.pos.y + c.scroll.y) as u16);
    let up = moved_up(c, b, w.above_of()).0;
    let down = moved_down(c, b, w.below_of()).0;
    lemma_window_with_cursor(w, up);
    lemma_window_with_cursor(w.with_cursor(up), scrolled_up(up));
    lemma_window_with_cursor(w, down);
    let wd = w.with_cursor(down);
    lemma_window_with_cursor(wd, scrolled_down(down, line_count(wd.buffer.text()) as u16));
    lemma_window_with_cursor(w, moved_left(c, b));
    lemma_window_with_cursor(w, moved_right(c, b));
}

} // verus!
