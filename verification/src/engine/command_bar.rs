//! The command bar: a one-row pane holding the command being typed.
use vstd::prelude::*;
use vstd::string::StringSliceAdditionalSpecFns;
use vstd::utf8::{decode_utf8, encode_utf8, is_char_boundary};
use crate::engine::mode::Mode;
use crate::engine::pane::{
    moved_down, moved_left, moved_right, moved_up, pane_moved_down, pane_moved_left,
    pane_moved_right, pane_moved_up, scrolled_down, scrolled_up, BufferBounds, BufferMut, Cursor,
    CursorMovement, CursorPos, Pane, PaneBounds, Scrollable,
};
use crate::engine::text_formater::byte_len;
use crate::strings::{chars_of, push_repeat, repeat_char, string_from, string_of};
use crate::ui::key::Keys;
use crate::ui::layout::{Pos, Rect, Size, Stack};
use crate::ui::text::{newlines_to_spaces, Text};
use crate::ui::widget::{BoxWidget, Container};

verus! {

broadcast use {
    vstd::utf8::encode_utf8_valid_utf8,
    vstd::utf8::encode_utf8_decode_utf8,
    vstd::utf8::is_char_boundary_start_end_of_seq,
};

/// The command bar: where it stands, its cursor, its size, the command
/// typed so far, and whether it has the focus.
#[derive(Debug, Clone)]
pub struct CommandBar {
    pos: Pos,
    cursor: Cursor,
    size: Size,
    content: String,
    active: bool,
}

/// `s` padded with spaces to `w` characters; longer text stays whole.
pub open spec fn pad_to(s: Seq<char>, w: nat) -> Seq<char> {
    if s.len() >= w { s } else { s + repeat_char(' ', (w - s.len()) as nat) }
}

/// The cursor at the origin, with nothing scrolled.
pub open spec fn origin() -> Cursor {
    Cursor { pos: Pos { x: 0, y: 0 }, max: Pos { x: 0, y: 0 }, scroll: Pos { x: 0, y: 0 } }
}

impl CommandBar {
    /// Where the bar stands.
    pub closed spec fn pos_view(&self) -> Pos {
        self.pos
    }

    /// The bar's cursor.
    pub closed spec fn cursor_view(&self) -> Cursor {
        self.cursor
    }

    /// The bar's size.
    pub closed spec fn size_view(&self) -> Size {
        self.size
    }

    /// The command typed so far.
    pub closed spec fn content_view(&self) -> Seq<char> {
        self.content@
    }

    /// Whether the bar has the focus.
    pub closed spec fn active_view(&self) -> bool {
        self.active
    }

    /// What the bar shows: with the focus, the command padded to the width
    /// left after the colon; without, a blank row.
    pub open spec fn shown(&self) -> Seq<char> {
        if self.active_view() {
            pad_to(self.content_view(), (self.size_view().width - 1) as nat)
        } else {
            repeat_char(' ', self.size_view().width as nat)
        }
    }

    /// A bar at `pos`, one row high and `width` wide, empty and without the
    /// focus.
    pub fn new(pos: Pos, width: u16) -> (b: CommandBar)
        ensures
            b.pos_view() == pos,
            b.size_view() == (Size { height: 1, width }),
            b.cursor_view() == origin(),
            b.content_view() == Seq::<char>::empty(),
            !b.active_view(),
    {
        CommandBar {
            pos,
            cursor: Cursor::default(),
            size: Size { height: 1, width },
            content: String::new(),
            active: false,
        }
    }

    /// Empties the command.
    pub fn clear_buffer(&mut self)
        ensures
            final(self).content_view() == Seq::<char>::empty(),
            final(self).pos_view() == old(self).pos_view(),
            final(self).cursor_view() == old(self).cursor_view(),
            final(self).size_view() == old(self).size_view(),
            final(self).active_view() == old(self).active_view(),
    {
        self.content = String::new();
    }

    /// The command typed so far.
    pub fn get_buffer_contents(&self) -> (s: String)
        ensures
            s@ == self.content_view(),
    {
        string_from(self.content.as_str())
    }

    /// Removes the character before the cursor (counted in bytes), or the
    /// last one when the cursor is at the end.
    pub fn backspace(&mut self)
        requires
            ({
                let bytes = encode_utf8(old(self).content_view());
                let idx = old(self).cursor_view().pos.x as int;
                let i = if idx > 0 { idx - 1 } else { 0 };
                idx != byte_len(old(self).content_view()) ==> i < bytes.len() && is_char_boundary(bytes, i)
            }),
        ensures
            ({
                let s = old(self).content_view();
                let bytes = encode_utf8(s);
                let idx = old(self).cursor_view().pos.x as int;
                let i = if idx > 0 { idx - 1 } else { 0 };
                final(self).content_view() == if idx == byte_len(s) {
                    if s.len() > 0 { s.drop_last() } else { s }
                } else {
                    decode_utf8(bytes.subrange(0, i)) + decode_utf8(bytes.subrange(i, bytes.len() as int)).drop_first()
                }
            }),
            final(self).pos_view() == old(self).pos_view(),
            final(self).cursor_view() == old(self).cursor_view(),
            final(self).size_view() == old(self).size_view(),
            final(self).active_view() == old(self).active_view(),
    {
        let idx = self.cursor.pos.x as usize;
        let len = self.content.as_str().len();
        let mut chars = chars_of(self.content.as_str());
        if idx == len {
            if chars.len() > 0 {
                chars.pop();
            }
            self.content = string_of(chars.as_slice());
            return;
        }
        let i = if idx > 0 {
            idx - 1
        } else {
            0
        };
        let (a, b) = self.content.as_str().split_at(i);
        proof {
            assert(a@ == decode_utf8(encode_utf8(a@)));
            assert(b@ == decode_utf8(encode_utf8(b@)));
        }
        let mut out = chars_of(a);
        let rest = chars_of(b);
        let mut k: usize = 1;
        proof {
            assert(b@.len() > 0) by {
                assert(encode_utf8(b@).len() > 0);
            }
        }
        while k < rest.len()
            invariant
                1 <= k <= rest@.len(),
                out@ == a@ + rest@.subrange(1, k as int),
            decreases rest@.len() - k,
        {
            out.push(rest[k]);
            k += 1;
            proof {
                assert(out@ =~= a@ + rest@.subrange(1, k as int));
            }
        }
        proof {
            assert(rest@.subrange(1, rest@.len() as int) =~= rest@.drop_first());
        }
        self.content = string_of(out.as_slice());
    }
}

impl Default for CommandBar {
    /// A bar at the origin with no size, empty and without the focus.
    fn default() -> (b: CommandBar)
        ensures
            b.pos_view() == (Pos { x: 0, y: 0 }),
            b.size_view() == (Size { height: 0, width: 0 }),
            b.cursor_view() == origin(),
            b.content_view() == Seq::<char>::empty(),
            !b.active_view(),
    {
        CommandBar {
            pos: Pos { x: 0, y: 0 },
            cursor: Cursor::default(),
            size: Size { height: 0, width: 0 },
            content: String::new(),
            active: false,
        }
    }
}

impl CursorPos for CommandBar {
    open spec fn cursor_of(&self) -> Option<Cursor> {
        Some(self.cursor_view())
    }

    closed spec fn with_cursor(&self, c: Cursor) -> CommandBar {
        CommandBar { cursor: c, ..*self }
    }

    /// The bar is a single row: no line above or below.
    open spec fn above_of(&self) -> Option<Rect> {
        None
    }

    open spec fn below_of(&self) -> Option<Rect> {
        None
    }

    open spec fn around_ok(&self) -> bool {
        true
    }

    fn get_cursor_pos(&self) -> (r: Option<Cursor>)
        ensures
            r == Some(self.cursor_view()),
    {
        Some(self.cursor)
    }

    fn set_cursor_pos(&mut self, cursor: Cursor)
        ensures
            final(self).cursor_view() == cursor,
            final(self).content_view() == old(self).content_view(),
            final(self).pos_view() == old(self).pos_view(),
            final(self).size_view() == old(self).size_view(),
            final(self).active_view() == old(self).active_view(),
    {
        self.cursor = cursor;
    }

    fn get_line_above_bounds(&self) -> (r: Option<Rect>) {
        None
    }

    fn get_line_below_bounds(&self) -> (r: Option<Rect>) {
        None
    }
}

/// A bar with another cursor keeps all else.
pub proof fn lemma_bar_with_cursor(b: CommandBar, c: Cursor)
    ensures
        b.with_cursor(c).cursor_view() == c,
        b.with_cursor(c).content_view() == b.content_view(),
        b.with_cursor(c).pos_view() == b.pos_view(),
        b.with_cursor(c).size_view() == b.size_view(),
        b.with_cursor(c).active_view() == b.active_view(),
{
}

/// Moving the bar's cursor or scrolling never changes the command typed,
/// where the bar stands or whether it has the focus.
pub proof fn lemma_bar_moves_keep_command(b: CommandBar)
    ensures
        pane_moved_up(b).content_view() == b.content_view(),
        pane_moved_down(b).content_view() == b.content_view(),
        pane_moved_left(b).content_view() == b.content_view(),
        pane_moved_right(b).content_view() == b.content_view(),
        pane_moved_up(b).pos_view() == b.pos_view() && pane_moved_down(b).pos_view()
            == b.pos_view(),
        pane_moved_left(b).pos_view() == b.pos_view() && pane_moved_right(b).pos_view()
            == b.pos_view(),
        pane_moved_up(b).active_view() == b.active_view() && pane_moved_down(b).active_view()
            == b.active_view(),
        pane_moved_left(b).active_view() == b.active_view() && pane_moved_right(b).active_view()
            == b.active_view(),
{
    let c = b.cursor_view();
    let r = Rect { x: 0, y: 0, width: byte_len(b.content_view()) as u16, height: 1 };
    let up = moved_up(c, r, None).0;
    let down = moved_down(c, r, None).0;
    lemma_bar_with_cursor(b, up);
    lemma_bar_with_cursor(b.with_cursor(up), scrolled_up(up));
    lemma_bar_with_cursor(b, down);
    lemma_bar_with_cursor(b.with_cursor(down), scrolled_down(down, 1));
    lemma_bar_with_cursor(b, moved_left(c, r));
    lemma_bar_with_cursor(b, moved_right(c, r));
}

impl PaneBounds for CommandBar {
    /// One row as wide as the command has bytes, at the origin.
    open spec fn pane_bounds_of(&self) -> Option<Rect> {
        Some(Rect { x: 0, y: 0, width: byte_len(self.content_view()) as u16, height: 1 })
    }

    open spec fn pane_bounds_ok(&self) -> bool {
        true
    }

    fn get_pane_bounds(&self) -> (r: Option<Rect>) {
        let size = Size { width: self.content.as_str().len() as u16, height: 1 };
        Some(Rect::new(size))
    }
}

impl BufferBounds for CommandBar {
    /// One row as wide as the command has bytes.
    open spec fn buffer_bounds_of(&self) -> Option<Size> {
        Some(Size { width: byte_len(self.content_view()) as u16, height: 1 })
    }

    open spec fn buffer_bounds_ok(&self) -> bool {
        true
    }

    fn get_buffer_bounds(&self) -> (r: Option<Size>) {
        Some(Size { width: self.content.as_str().len() as u16, height: 1 })
    }
}

impl BufferMut for CommandBar {
    /// Typing goes in at the cursor's byte offset, which must fall between
    /// characters; past the end it goes last.
    open spec fn insert_ok(&self, c: char) -> bool {
        let bytes = encode_utf8(self.content_view());
        (self.cursor_view().pos.x as int) < byte_len(self.content_view()) ==> is_char_boundary(
            bytes,
            self.cursor_view().pos.x as int,
        )
    }

    fn insert_char(&mut self, c: char)
        ensures
            ({
                let s = old(self).content_view();
                let bytes = encode_utf8(s);
                let idx = old(self).cursor_view().pos.x as int;
                final(self).content_view() == if idx < byte_len(s) {
                    decode_utf8(bytes.subrange(0, idx)).push(c) + decode_utf8(
                        bytes.subrange(idx, bytes.len() as int),
                    )
                } else {
                    s.push(c)
                }
            }),
            final(self).pos_view() == old(self).pos_view(),
            final(self).cursor_view() == old(self).cursor_view(),
            final(self).size_view() == old(self).size_view(),
            final(self).active_view() == old(self).active_view(),
    {
        let idx = self.cursor.pos.x as usize;
        if idx < self.content.as_str().len() {
            let (a, b) = self.content.as_str().split_at(idx);
            proof {
                assert(a@ == decode_utf8(encode_utf8(a@)));
                assert(b@ == decode_utf8(encode_utf8(b@)));
            }
            let mut out = chars_of(a);
            out.push(c);
            let rest = chars_of(b);
            crate::strings::extend_chars(&mut out, rest.as_slice());
            self.content = string_of(out.as_slice());
            return;
        }
        let mut out = chars_of(self.content.as_str());
        out.push(c);
        self.content = string_of(out.as_slice());
    }
}

impl Scrollable for CommandBar {
}

impl CursorMovement for CommandBar {
}

impl Pane for CommandBar {
    /// With the focus the bar needs a column for its colon.
    open spec fn view_ok(&self) -> bool {
        self.active_view() ==> self.size_view().width >= 1
    }

    /// A row at the bar's place: a colon and the padded command with the
    /// focus, a blank row without.
    fn view(&self) -> (r: BoxWidget)
        ensures
            r matches BoxWidget::Container(c) && {
                let w = if self.active_view() {
                    (self.size_view().width - 1) as u16
                } else {
                    self.size_view().width
                };
                let n = c.children_view().len();
                &&& c.bounds_view() == (Rect {
                    x: self.pos_view().x,
                    y: self.pos_view().y,
                    width: self.size_view().width,
                    height: self.size_view().height,
                })
                &&& c.stack_view() == Stack::Horizontally
                &&& c.comment_view() is None
                &&& n == if self.active_view() { 2nat } else { 1nat }
                &&& c.children_view()[n - 1] matches BoxWidget::Text(t) && t.content_view()
                    == newlines_to_spaces(self.shown()) && t.width_view() == w
                    && t.height_view() == 1
                &&& self.active_view() ==> (c.children_view()[0] matches BoxWidget::Text(k)
                    && k.content_view() == newlines_to_spaces(":"@) && k.width_view() == 1
                    && k.height_view() == 1)
            },
    {
        let w = self.size.width - if self.active {
            1
        } else {
            0
        };
        let mut shown: Vec<char> = Vec::new();
        if self.active {
            shown = chars_of(self.content.as_str());
            if shown.len() < w as usize {
                let missing = w as usize - shown.len();
                push_repeat(&mut shown, ' ', missing);
            }
        } else {
            push_repeat(&mut shown, ' ', self.size.width as usize);
        }
        proof {
            assert(shown@ =~= self.shown());
        }
        let content = string_of(shown.as_slice());
        let text_in_bar = Text::new(content.as_str()).max_width(w).max_height(1);
        let mut view = Container::new(Rect::with_position(self.pos, self.size), Stack::Horizontally);
        if self.active {
            let colon = Text::new(":").max_height(1).max_width(1);
            view.push_box(BoxWidget::Text(colon));
        }
        view.push_box(BoxWidget::Text(text_in_bar));
        BoxWidget::Container(view)
    }

    /// The bar does not react to keys.
    fn update(&mut self, mode: Mode, keys: Keys)
        ensures
            *final(self) == *old(self),
    {
    }

    fn set_focused(&mut self, focused: bool)
        ensures
            final(self).active_view() == focused,
            final(self).content_view() == old(self).content_view(),
            final(self).pos_view() == old(self).pos_view(),
            final(self).cursor_view() == old(self).cursor_view(),
            final(self).size_view() == old(self).size_view(),
    {
        self.active = focused;
    }

    fn is_active(&self) -> (r: bool)
        ensures
            r == self.active_view(),
    {
        self.active
    }
}

} // verus!
