//! A message box: a pane showing a buffer's text above a footer bar, which
//! closes on the next key press.
use vstd::prelude::*;
use crate::engine::buffer::{lemma_buffer_fields, lines_in_view, Buffer};
use crate::engine::pane::{
    moved_down, moved_left, moved_right, moved_up, pane_moved_down, pane_moved_left,
    pane_moved_right, pane_moved_up, scrolled_down, scrolled_up, BufferBounds, BufferMut, Cursor,
    CursorMovement, CursorPos, Pane, PaneBounds, Scrollable,
};
use crate::engine::pane_window::widest;
use crate::engine::mode::Mode;
use crate::rope::{line_count, line_text, rope_len_lines};
use crate::strings::{
    chars_of, extend_chars, push_repeat, repeat_char, string_from, string_of, views,
};
use crate::ui::key::{Key, Keys};
use crate::ui::layout::{Pos, Rect, Size, Stack};
use crate::ui::style::{attribute_bit, Attribute, Attributes, Color};
use crate::ui::text::{newlines_to_spaces, Text};
use crate::ui::widget::{BoxWidget, Container};

verus! {

/// A message box: where it stands, its size (the footer's row included),
/// its buffer, its footer, whether it has the focus and whether it is
/// closing.
#[derive(Debug)]
pub struct MessageBox {
    pub pos: Pos,
    pub size: Size,
    pub buffer: Buffer,
    pub footer: String,
    pub active: bool,
    pub closing: bool,
}

/// `s` cut or padded with spaces to `w` characters.
pub open spec fn fit_to(s: Seq<char>, w: nat) -> Seq<char> {
    if s.len() >= w { s.take(w as int) } else { s + repeat_char(' ', (w - s.len()) as nat) }
}

/// The lines of a sequence joined one after the other.
pub open spec fn joined(ls: Seq<Seq<char>>) -> Seq<char>
    decreases ls.len(),
{
    if ls.len() == 0 {
        Seq::empty()
    } else {
        joined(ls.drop_last()) + ls.last()
    }
}

/// The bounds the cursor moves in on line `y` of box `m`.
pub open spec fn box_bounds(m: MessageBox, y: u16) -> Rect {
    let line = line_text(m.buffer.text(), y as nat).len() as u16;
    let wide = if line + m.pos.x >= 2 { (line + m.pos.x - 2) as u16 } else { 0u16 };
    let lines = line_count(m.buffer.text());
    let text_rows = (if lines >= 2 { lines - 2 } else { 0 }) as usize as u16;
    Rect {
        x: m.pos.x,
        y: m.pos.y,
        width: if wide >= m.pos.x { wide } else { m.pos.x },
        height: if m.size.height <= text_rows { m.size.height } else { text_rows },
    }
}

/// The cursor's row in the text.
pub open spec fn text_row(c: Cursor) -> int {
    c.pos.y + c.scroll.y
}

/// When the bounds on line `y` can be computed.
pub open spec fn box_bounds_ok(m: MessageBox, y: int) -> bool {
    &&& 0 <= y <= u16::MAX
    &&& y < line_count(m.buffer.text())
    &&& (line_text(m.buffer.text(), y as nat).len() as u16) + m.pos.x <= u16::MAX
}

impl MessageBox {
    /// A box at `pos` over `buffer`, one row taller than `size` for the
    /// footer, with an empty footer, without the focus.
    pub fn new(pos: Pos, size: Size, buffer: Buffer) -> (m: MessageBox)
        requires
            size.height < u16::MAX,
        ensures
            m.pos == pos,
            m.size == (Size { width: size.width, height: (size.height + 1) as u16 }),
            m.buffer == buffer,
            m.footer@ == Seq::<char>::empty(),
            !m.active,
            !m.closing,
    {
        let mut size = size;
        size.height = size.height + 1;
        MessageBox { pos, size, buffer, footer: String::new(), active: false, closing: false }
    }

    /// This box with `msg` as its footer.
    pub fn with_footer(self, msg: String) -> (m: MessageBox)
        ensures
            m == (MessageBox { footer: msg, ..self }),
    {
        MessageBox { footer: msg, ..self }
    }

    /// The bounds the cursor moves in on line `y`: at the box's corner, as
    /// wide as the line less its break, as high as the box or the lines in
    /// the buffer.
    pub fn create_cursor_bounds(&self, y: u16) -> (r: Rect)
        requires
            (y as int) < line_count(self.buffer.text()),
            (line_text(self.buffer.text(), y as nat).len() as u16) + self.pos.x <= u16::MAX,
        ensures
            r == box_bounds(*self, y),
    {
        let line_text_width = self.buffer.line_len(y as usize) as u16;
        let pos = self.pos;
        let pane_height = self.size.height;
        let buffer_height = rope_len_lines(self.buffer.get_rope()).saturating_sub(2) as u16;
        let height = if pane_height <= buffer_height {
            pane_height
        } else {
            buffer_height
        };
        let wide = (line_text_width + pos.x).saturating_sub(2);
        let width = if wide >= pos.x {
            wide
        } else {
            pos.x
        };
        Rect::with_position(pos, Size { width, height })
    }

    /// The footer cut or padded to the box's width.
    pub fn footer_text(&self) -> (s: String)
        ensures
            s@ == fit_to(self.footer@, self.size.width as nat),
    {
        let chars = chars_of(self.footer.as_str());
        let w = self.size.width as usize;
        let mut out: Vec<char> = Vec::new();
        if chars.len() >= w {
            let mut i: usize = 0;
            while i < w
                invariant
                    i <= w <= chars@.len(),
                    out@ == chars@.take(i as int),
                decreases w - i,
            {
                out.push(chars[i]);
                i += 1;
                assert(out@ =~= chars@.take(i as int));
            }
        } else {
            extend_chars(&mut out, chars.as_slice());
            push_repeat(&mut out, ' ', w - chars.len());
        }
        string_of(out.as_slice())
    }

    /// A box puts no cursor on the terminal.
    pub fn cursor(&self) -> (p: Option<Pos>)
        ensures
            p is None,
    {
        None
    }

    /// Whether the box is closing.
    pub fn close(&self) -> (r: bool)
        ensures
            r == self.closing,
    {
        self.closing
    }
}

/// The row above the cursor's, in the text, when the cursor is below the
/// first; the row below, while the cursor is above the last row shown.
pub open spec fn box_above(m: MessageBox) -> Option<Rect> {
    if text_row(m.buffer.cur()) == 0 {
        None
    } else {
        Some(box_bounds(m, (text_row(m.buffer.cur()) - 1) as u16))
    }
}

/// The bounds of the row below the cursor's, while it is above the last
/// row shown.
pub open spec fn box_below(m: MessageBox) -> Option<Rect> {
    if text_row(m.buffer.cur()) >= box_bounds(m, 0).height {
        None
    } else {
        Some(box_bounds(m, (text_row(m.buffer.cur()) + 1) as u16))
    }
}

/// A box with another cursor keeps all else.
pub proof fn lemma_box_with_cursor(m: MessageBox, c: Cursor)
    ensures
        m.with_cursor(c).buffer.cur() == c,
        m.with_cursor(c).buffer.text() == m.buffer.text(),
        m.with_cursor(c).buffer.name_view() == m.buffer.name_view(),
        m.with_cursor(c).pos == m.pos,
        m.with_cursor(c).size == m.size,
        m.with_cursor(c).footer == m.footer,
        m.with_cursor(c).active == m.active,
        m.with_cursor(c).closing == m.closing,
{
    lemma_buffer_fields(m.buffer);
    lemma_buffer_fields(m.with_cursor(c).buffer);
}

/// Moving a message box's cursor or scrolling its view never changes its
/// text, its footer or where it stands.
pub proof fn lemma_box_moves_keep_text(m: MessageBox)
    ensures
        pane_moved_up(m).buffer.text() == m.buffer.text(),
        pane_moved_down(m).buffer.text() == m.buffer.text(),
        pane_moved_left(m).buffer.text() == m.buffer.text(),
        pane_moved_right(m).buffer.text() == m.buffer.text(),
        pane_moved_up(m).footer == m.footer && pane_moved_down(m).footer == m.footer,
        pane_moved_left(m).footer == m.footer && pane_moved_right(m).footer == m.footer,
        pane_moved_up(m).pos == m.pos && pane_moved_down(m).pos == m.pos,
        pane_moved_left(m).pos == m.pos && pane_moved_right(m).pos == m.pos,
{
    let c = m.buffer.cur();
    let b = box_bounds(m, text_row(c) as u16);
    let up = moved_up(c, b, m.above_of()).0;
    let down = moved_down(c, b, m.below_of()).0;
    lemma_box_with_cursor(m, up);
    lemma_box_with_cursor(m.with_cursor(up), scrolled_up(up));
    lemma_box_with_cursor(m, down);
    let md = m.with_cursor(down);
    lemma_box_with_cursor(md, scrolled_down(down, line_count(md.buffer.text()) as u16));
    lemma_box_with_cursor(m, moved_left(c, b));
    lemma_box_with_cursor(m, moved_right(c, b));
}

impl CursorPos for MessageBox {
    open spec fn cursor_of(&self) -> Option<Cursor> {
        Some(self.buffer.cur())
    }

    closed spec fn with_cursor(&self, c: Cursor) -> MessageBox {
        MessageBox { buffer: Buffer { cursor: c, ..self.buffer }, ..*self }
    }

    open spec fn above_of(&self) -> Option<Rect> {
        box_above(*self)
    }

    open spec fn below_of(&self) -> Option<Rect> {
        box_below(*self)
    }

    open spec fn around_ok(&self) -> bool {
        let y = text_row(self.buffer.cur());
        &&& y <= u16::MAX
        &&& y > 0 ==> box_bounds_ok(*self, y - 1)
        &&& y < box_bounds(*self, 0).height ==> box_bounds_ok(*self, y + 1)
    }

    fn get_cursor_pos(&self) -> (r: Option<Cursor>) {
        proof {
            lemma_buffer_fields(self.buffer);
        }
        Some(self.buffer.cursor)
    }

    fn set_cursor_pos(&mut self, cursor: Cursor) {
        self.buffer.cursor = cursor;
        proof {
            lemma_buffer_fields(self.buffer);
        }
    }

    fn get_line_above_bounds(&self) -> (r: Option<Rect>) {
        proof {
            lemma_buffer_fields(self.buffer);
        }
        let cursor = self.buffer.cursor;
        let pos = cursor.pos.y + cursor.scroll.y;
        if pos == 0 {
            return None;
        }
        Some(self.create_cursor_bounds(pos - 1))
    }

    fn get_line_below_bounds(&self) -> (r: Option<Rect>) {
        proof {
            lemma_buffer_fields(self.buffer);
        }
        let buffer_height = rope_len_lines(self.buffer.get_rope()).saturating_sub(2) as u16;
        let height = if self.size.height <= buffer_height {
            self.size.height
        } else {
            buffer_height
        };
        let cursor = self.buffer.cursor;
        let pos = cursor.pos.y + cursor.scroll.y;
        if pos >= height {
            return None;
        }
        Some(self.create_cursor_bounds(pos + 1))
    }
}

impl PaneBounds for MessageBox {
    /// The bounds on the cursor's row of the text.
    open spec fn pane_bounds_of(&self) -> Option<Rect> {
        Some(box_bounds(*self, text_row(self.buffer.cur()) as u16))
    }

    open spec fn pane_bounds_ok(&self) -> bool {
        box_bounds_ok(*self, text_row(self.buffer.cur()))
    }

    fn get_pane_bounds(&self) -> (r: Option<Rect>) {
        proof {
            lemma_buffer_fields(self.buffer);
        }
        let cursor = self.buffer.cursor;
        Some(self.create_cursor_bounds(cursor.pos.y + cursor.scroll.y))
    }
}

impl BufferBounds for MessageBox {
    /// As wide as the widest line in view, as high as the text's lines.
    open spec fn buffer_bounds_of(&self) -> Option<Size> {
        Some(
            Size {
                width: widest(
                    lines_in_view(
                        self.buffer.text(),
                        self.buffer.cur().scroll.y as nat,
                        (self.buffer.cur().scroll.y + self.size.height) as nat,
                    ),
                ),
                height: line_count(self.buffer.text()) as u16,
            },
        )
    }

    open spec fn buffer_bounds_ok(&self) -> bool {
        self.buffer.cur().scroll.y + self.size.height <= u16::MAX
    }

    fn get_buffer_bounds(&self) -> (r: Option<Size>) {
        let lines = self.buffer.on_screen(self.size.height);
        let ghost ls = lines_in_view(
            self.buffer.text(),
            self.buffer.cur().scroll.y as nat,
            (self.buffer.cur().scroll.y + self.size.height) as nat,
        );
        let mut width: u16 = 0;
        let mut i: usize = 0;
        while i < lines.len()
            invariant
                i <= lines@.len(),
                views(lines@) == ls,
                width == widest(ls.take(i as int)),
            decreases lines@.len() - i,
        {
            proof {
                assert(ls.take(i + 1).drop_last() =~= ls.take(i as int));
                assert(views(lines@)[i as int] == lines@[i as int]@);
            }
            let n = chars_of(lines[i].as_str()).len() as u16;
            if n > width {
                width = n;
            }
            i += 1;
        }
        proof {
            assert(ls.take(ls.len() as int) =~= ls);
        }
        let height = rope_len_lines(self.buffer.get_rope()) as u16;
        Some(Size { width, height })
    }
}

impl BufferMut for MessageBox {
    open spec fn insert_ok(&self, c: char) -> bool {
        true
    }

    /// A box takes no typing.
    fn insert_char(&mut self, c: char)
        ensures
            *final(self) == *old(self),
    {
    }
}

impl Scrollable for MessageBox {
}

impl CursorMovement for MessageBox {
}

impl Pane for MessageBox {
    open spec fn view_ok(&self) -> bool {
        self.buffer.cur().scroll.y + self.size.height <= u16::MAX
    }

    /// The widget that draws the box: the text in view above the footer,
    /// the footer in bold italic black on dark grey.
    fn view(&self) -> (r: BoxWidget)
        ensures
            r matches BoxWidget::Container(c) && {
                &&& c.bounds_view() == (Rect {
                    x: self.pos.x,
                    y: self.pos.y,
                    width: self.size.width,
                    height: self.size.height,
                })
                &&& c.stack_view() == Stack::Vertically
                &&& c.children_view().len() == 2
                &&& c.children_view()[0] matches BoxWidget::Text(t) && t.content_view()
                    == newlines_to_spaces(
                    joined(
                        lines_in_view(
                            self.buffer.text(),
                            self.buffer.cur().scroll.y as nat,
                            (self.buffer.cur().scroll.y + self.size.height) as nat,
                        ),
                    ),
                ) && t.width_view() == self.size.width && t.comment_view() == Some(
                    "text file"@,
                )
                &&& c.children_view()[1] matches BoxWidget::Text(b) && b.content_view()
                    == newlines_to_spaces(fit_to(self.footer@, self.size.width as nat))
                    && b.style_view().background_color == Some(Color::DarkGrey)
                    && b.style_view().foreground_color == Some(Color::Black)
                    && b.style_view().attributes == (Attributes {
                    bits: attribute_bit(Attribute::Bold) | attribute_bit(Attribute::Italic),
                })
            },
    {
        let lines = self.buffer.on_screen(self.size.height);
        let ghost ls = lines_in_view(
            self.buffer.text(),
            self.buffer.cur().scroll.y as nat,
            (self.buffer.cur().scroll.y + self.size.height) as nat,
        );
        let mut contents: Vec<char> = Vec::new();
        let mut i: usize = 0;
        proof {
            assert(ls.take(0) =~= Seq::<Seq<char>>::empty());
        }
        while i < lines.len()
            invariant
                i <= lines@.len(),
                lines@.len() == ls.len(),
                forall|j: int| 0 <= j < ls.len() ==> #[trigger] lines@[j]@ == ls[j],
                contents@ == joined(ls.take(i as int)),
            decreases lines@.len() - i,
        {
            proof {
                assert(ls.take(i + 1).drop_last() =~= ls.take(i as int));
            }
            extend_chars(&mut contents, chars_of(lines[i].as_str()).as_slice());
            i += 1;
        }
        proof {
            assert(ls.take(ls.len() as int) =~= ls);
            assert forall|j: int| 0 <= j < ls.len() implies lines@[j]@ == ls[j] by {
                assert(crate::strings::views(lines@)[j] == lines@[j]@);
            }
        }
        let text = Text::new(string_of(contents.as_slice()).as_str()).max_width(self.size.width)
            .with_comment(string_from("text file"));
        let msg = self.footer_text();
        let bits = Attribute::Bold.bytes() | Attribute::Italic.bytes();
        let bar = Text::new(msg.as_str()).with_bg(Color::DarkGrey).with_fg(Color::Black).with_atter(
            Attributes { bits },
        );
        let c = Container::new(Rect::with_position(self.pos, self.size), Stack::Vertically)
            .with_child_box(BoxWidget::Text(text)).with_child_box(BoxWidget::Text(bar));
        BoxWidget::Container(c)
    }

    /// A key press that stands for no key closes the box.
    fn update(&mut self, mode: Mode, keys: Keys)
        ensures
            *final(self) == (MessageBox {
                closing: old(self).closing || keys == Keys::Key(Key::Null),
                ..*old(self)
            }),
    {
        if let Keys::Key(Key::Null) = keys {
            self.closing = true;
        }
    }

    fn set_focused(&mut self, flag: bool)
        ensures
            *final(self) == (MessageBox { active: flag, ..*old(self) }),
    {
        self.active = flag;
    }

    fn is_active(&self) -> (r: bool)
        ensures
            r == self.active,
    {
        self.active
    }
}

} // verus!
