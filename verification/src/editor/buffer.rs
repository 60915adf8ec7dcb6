//! A text buffer of the editor: a named rope of characters with a cursor that
//! moves over it and a scroll offset that says which part is on screen.
use ropey::Rope;
use vstd::prelude::*;
use vstd::string::*;
use crate::rope::{rope_text, line_count, line_start, line_text, rope_new, rope_from_str, rope_len_chars, rope_len_lines, rope_line_to_char, rope_insert, rope_remove, rope_line_len, rope_line_string};
use crate::strings::{chars_of, string_of, slice_chars, contains_char, string_from};
use crate::ui::layout::{Pos, Size};

verus! {

/// `x - y`, or `0` when `y > x`.
pub open spec fn sat_sub(x: int, y: int) -> int {
    if x > y { x - y } else { 0 }
}

/// `min(x + y, u16::MAX)`.
pub open spec fn sat_add_u16(x: u16, y: u16) -> u16 {
    if x + y > u16::MAX { u16::MAX } else { (x + y) as u16 }
}

/// `max(x - y, 0)` on `u16`.
pub open spec fn sat_sub_u16(x: u16, y: u16) -> u16 {
    if x >= y { (x - y) as u16 } else { 0 }
}

pub open spec fn min_u16(a: u16, b: u16) -> u16 {
    if a <= b { a } else { b }
}

pub open spec fn max_u16(a: u16, b: u16) -> u16 {
    if a >= b { a } else { b }
}

/// The cursor of a buffer: its place on screen (`pos`), the scroll offset of
/// the view into the text (`scroll`), and the furthest column the cursor has
/// reached on its way up and down (`max`).
#[derive(Debug, Clone, Copy)]
pub struct Cursor {
    pub pos: Pos,
    pub scroll: Pos,
    pub max: Pos,
}

impl Cursor {
    /// The cursor at the origin, with nothing scrolled.
    pub open spec fn origin() -> Cursor {
        Cursor { pos: Pos { x: 0, y: 0 }, scroll: Pos { x: 0, y: 0 }, max: Pos { x: 0, y: 0 } }
    }

    /// The remembered column (and row) the cursor returns to.
    pub open spec fn max_pos(&self) -> Pos {
        self.max
    }

    /// Moves one row up, to the remembered column clipped to `line_len`.
    pub fn up(&mut self, line_len: usize)
        ensures
            final(self).pos.x == (if max_u16(old(self).pos.x, old(self).max_pos().x) as int
                <= line_len as int {
                max_u16(old(self).pos.x, old(self).max_pos().x)
            } else {
                line_len as u16
            }),
            final(self).pos.y == sat_sub_u16(old(self).pos.y, 1),
            final(self).scroll == old(self).scroll,
            final(self).max_pos() == old(self).max_pos(),
    {
        let max = self.max.x as usize;
        let col = self.pos.x as usize;
        let col = if col >= max { col } else { max };
        let col = if col <= line_len { col } else { line_len };
        self.set_col(col);
        self.sub_row(1);
    }

    /// Moves one row down, to the remembered column clipped to `line_len`.
    pub fn down(&mut self, line_len: usize)
        ensures
            final(self).pos.x == (if max_u16(old(self).pos.x, old(self).max_pos().x) as int
                <= line_len as int {
                max_u16(old(self).pos.x, old(self).max_pos().x)
            } else {
                line_len as u16
            }),
            final(self).pos.y == sat_add_u16(old(self).pos.y, 1),
            final(self).scroll == old(self).scroll,
            final(self).max_pos() == old(self).max_pos(),
    {
        let max = self.max.x as usize;
        let col = self.pos.x as usize;
        let col = if col >= max { col } else { max };
        let col = if col <= line_len { col } else { line_len };
        self.set_col(col);
        self.add_row(1);
    }

    /// One column left; the remembered column follows.
    pub fn left(&mut self)
        ensures
            final(self).pos.x == sat_sub_u16(old(self).pos.x, 1),
            final(self).pos.y == old(self).pos.y,
            final(self).max_pos().x == final(self).pos.x,
            final(self).max_pos().y == old(self).max_pos().y,
            final(self).scroll == old(self).scroll,
    {
        self.sub_col_effect_max(1);
    }

    /// One column right; the remembered column grows with it.
    pub fn right(&mut self)
        ensures
            final(self).pos.x == sat_add_u16(old(self).pos.x, 1),
            final(self).pos.y == old(self).pos.y,
            final(self).max_pos().x == max_u16(final(self).pos.x, old(self).max_pos().x),
            final(self).max_pos().y == old(self).max_pos().y,
            final(self).scroll == old(self).scroll,
    {
        self.add_col_effect_max(1);
    }

    /// Scrolls the view one row up, stopping at the top.
    pub fn scroll_up(&mut self)
        ensures
            final(self).scroll.y == sat_sub_u16(old(self).scroll.y, 1),
            final(self).scroll.x == old(self).scroll.x,
            final(self).pos == old(self).pos,
            final(self).max_pos() == old(self).max_pos(),
    {
        self.scroll.y = self.scroll.y.saturating_sub(1);
    }

    /// Scrolls the view one row down, to at most `max` (taken as a `u16`).
    pub fn scroll_down(&mut self, max: usize)
        ensures
            final(self).scroll.y == min_u16(sat_add_u16(old(self).scroll.y, 1), max as u16),
            final(self).scroll.x == old(self).scroll.x,
            final(self).pos == old(self).pos,
            final(self).max_pos() == old(self).max_pos(),
    {
        let max = max as u16;
        let s = self.scroll.y.saturating_add(1);
        self.scroll.y = if s <= max { s } else { max };
    }

    /// Scrolls the view one column left, stopping at the left edge.
    pub fn scroll_left(&mut self)
        ensures
            final(self).scroll.x == sat_sub_u16(old(self).scroll.x, 1),
            final(self).scroll.y == old(self).scroll.y,
            final(self).pos == old(self).pos,
            final(self).max_pos() == old(self).max_pos(),
    {
        self.scroll.x = self.scroll.x.saturating_sub(1);
    }

    /// Scrolls the view one column right, to at most `max` (taken as a `u16`).
    pub fn scroll_right(&mut self, max: usize)
        ensures
            final(self).scroll.x == min_u16(sat_add_u16(old(self).scroll.x, 1), max as u16),
            final(self).scroll.y == old(self).scroll.y,
            final(self).pos == old(self).pos,
            final(self).max_pos() == old(self).max_pos(),
    {
        let max = max as u16;
        let s = self.scroll.x.saturating_add(1);
        self.scroll.x = if s <= max { s } else { max };
    }

    /// The position of the cursor in the text: screen position plus scroll.
    pub fn pos(&self) -> (p: Pos)
        requires
            self.pos.x + self.scroll.x <= u16::MAX,
            self.pos.y + self.scroll.y <= u16::MAX,
        ensures
            p.x == self.pos.x + self.scroll.x,
            p.y == self.pos.y + self.scroll.y,
    {
        let x = self.pos.x + self.scroll.x;
        let y = self.pos.y + self.scroll.y;
        Pos { x, y }
    }

    /// Goes to the start of the next row.
    pub fn new_line(&mut self)
        ensures
            final(self).pos.x == 0,
            final(self).pos.y == sat_add_u16(old(self).pos.y, 1),
            final(self).scroll == old(self).scroll,
            final(self).max_pos() == old(self).max_pos(),
    {
        self.set_col(0);
        self.add_row(1);
    }

    /// The row of the cursor in the text.
    pub fn row_scroll(&self) -> (r: usize)
        requires
            self.pos.y + self.scroll.y <= u16::MAX,
        ensures
            r == self.pos.y + self.scroll.y,
    {
        (self.pos.y + self.scroll.y) as usize
    }

    /// Moves `row` rows down (the count taken as a `u16`), stopping at the
    /// last representable row.
    pub fn add_row(&mut self, row: usize)
        ensures
            final(self).pos.y == sat_add_u16(old(self).pos.y, row as u16),
            final(self).pos.x == old(self).pos.x,
            final(self).scroll == old(self).scroll,
            final(self).max_pos() == old(self).max_pos(),
    {
        let row = row as u16;
        self.pos.y = self.pos.y.saturating_add(row);
    }

    /// Moves `row` rows up (the count taken as a `u16`), stopping at row 0.
    pub fn sub_row(&mut self, row: usize)
        ensures
            final(self).pos.y == sat_sub_u16(old(self).pos.y, row as u16),
            final(self).pos.x == old(self).pos.x,
            final(self).scroll == old(self).scroll,
            final(self).max_pos() == old(self).max_pos(),
    {
        let row = row as u16;
        self.pos.y = self.pos.y.saturating_sub(row);
    }

    /// Moves `col` columns right and remembers the furthest column.
    pub fn add_col_effect_max(&mut self, col: usize)
        ensures
            final(self).pos.x == sat_add_u16(old(self).pos.x, col as u16),
            final(self).pos.y == old(self).pos.y,
            final(self).max_pos().x == max_u16(final(self).pos.x, old(self).max_pos().x),
            final(self).max_pos().y == old(self).max_pos().y,
            final(self).scroll == old(self).scroll,
    {
        let col = col as u16;
        self.pos.x = self.pos.x.saturating_add(col);
        self.max.x = if self.pos.x >= self.max.x { self.pos.x } else { self.max.x };
    }

    /// Moves `col` columns right.
    pub fn add_col(&mut self, col: usize)
        ensures
            final(self).pos.x == sat_add_u16(old(self).pos.x, col as u16),
            final(self).pos.y == old(self).pos.y,
            final(self).max_pos() == old(self).max_pos(),
            final(self).scroll == old(self).scroll,
    {
        let col = col as u16;
        self.pos.x = self.pos.x.saturating_add(col);
    }

    /// Moves `col` columns left; the remembered column follows.
    pub fn sub_col_effect_max(&mut self, col: usize)
        ensures
            final(self).pos.x == sat_sub_u16(old(self).pos.x, col as u16),
            final(self).pos.y == old(self).pos.y,
            final(self).max_pos().x == final(self).pos.x,
            final(self).max_pos().y == old(self).max_pos().y,
            final(self).scroll == old(self).scroll,
    {
        let col = col as u16;
        self.pos.x = self.pos.x.saturating_sub(col);
        self.max.x = self.pos.x;
    }

    /// Moves `col` columns left; the remembered column follows.
    pub fn sub_col(&mut self, col: usize)
        ensures
            final(self).pos.x == sat_sub_u16(old(self).pos.x, col as u16),
            final(self).pos.y == old(self).pos.y,
            final(self).max_pos().x == final(self).pos.x,
            final(self).max_pos().y == old(self).max_pos().y,
            final(self).scroll == old(self).scroll,
    {
        let col = col as u16;
        self.pos.x = self.pos.x.saturating_sub(col);
        self.max.x = self.pos.x;
    }

    /// Sets the column (taken as a `u16`); the remembered column shrinks to it.
    pub fn set_col_effect(&mut self, col: usize)
        ensures
            final(self).pos.x == col as u16,
            final(self).pos.y == old(self).pos.y,
            final(self).max_pos().x == min_u16(col as u16, old(self).max_pos().x),
            final(self).max_pos().y == old(self).max_pos().y,
            final(self).scroll == old(self).scroll,
    {
        let col = col as u16;
        self.pos.x = col;
        self.max.x = if self.pos.x <= self.max.x { self.pos.x } else { self.max.x };
    }

    /// Sets the column (taken as a `u16`).
    pub fn set_col(&mut self, col: usize)
        ensures
            final(self).pos.x == col as u16,
            final(self).pos.y == old(self).pos.y,
            final(self).max_pos() == old(self).max_pos(),
            final(self).scroll == old(self).scroll,
    {
        let col = col as u16;
        self.pos.x = col;
    }
}


impl Default for Cursor {
    fn default() -> (c: Cursor)
        ensures
            c == Cursor::origin(),
    {
        Cursor { pos: Pos { x: 0, y: 0 }, scroll: Pos { x: 0, y: 0 }, max: Pos { x: 0, y: 0 } }
    }
}

/// Length of line `row` of `t` as the buffer counts it: the line with its
/// line break, less two.
pub open spec fn line_len_of(t: Seq<char>, row: nat) -> int {
    sat_sub(line_text(t, row).len() as int, 2)
}

/// The part of a line that is shown between columns `start` and `end`: the
/// characters `start..end` when the line is long enough, else what is left
/// from `start` on, and a single space where nothing is left.
pub open spec fn screen_piece(l: Seq<char>, start: nat, end: nat) -> Seq<char> {
    if end <= l.len() {
        l.subrange(start as int, end as int)
    } else if start <= l.len() && start < l.len() {
        l.skip(start as int)
    } else {
        seq![' ']
    }
}

/// How many lines `on_screen` shows: from line `top` on, at most `limit`
/// of them.
pub open spec fn screen_rows(n_lines: nat, top: nat, limit: nat) -> nat {
    if top < n_lines {
        if n_lines - top <= limit { (n_lines - top) as nat } else { limit }
    } else {
        0
    }
}

/// A named text buffer: the text in a rope and the cursor over it.
#[derive(Debug)]
pub struct Buffer {
    pub name: String,
    rope: Rope,
    cursor: Cursor,
}

impl Buffer {
    /// The characters of the buffer.
    pub closed spec fn text(&self) -> Seq<char> {
        rope_text(self.rope)
    }

    /// The cursor of the buffer.
    pub closed spec fn cur(&self) -> Cursor {
        self.cursor
    }

    /// The name of the buffer.
    pub closed spec fn name_view(&self) -> Seq<char> {
        self.name@
    }

    /// A buffer named `path` that holds `src`, the text read from that path
    /// (the empty text where it could not be read), with the cursor at the
    /// origin.
    pub fn from_contents(path: &str, src: &str) -> (b: Buffer)
        ensures
            b.name_view() == path@,
            b.text() == src@,
            b.cur() == Cursor::origin(),
    {
        Buffer { name: path.to_owned(), rope: rope_from_str(src), cursor: Cursor::default() }
    }

    /// Puts the cursor back inside the current line when it is past its end.
    pub fn align_cursor(&mut self)
        requires
            old(self).cur().pos.y + old(self).cur().scroll.y <= u16::MAX,
            old(self).cur().pos.y + old(self).cur().scroll.y < line_count(old(self).text()),
        ensures
            final(self).text() == old(self).text(),
            final(self).name_view() == old(self).name_view(),
            ({
                let l = line_len_of(
                    old(self).text(),
                    (old(self).cur().pos.y + old(self).cur().scroll.y) as nat,
                );
                if (old(self).cur().pos.x as int) < l {
                    final(self).cur() == old(self).cur()
                } else {
                    final(self).cur() == (Cursor { pos: Pos { x: l as u16, ..old(self).cur().pos }, ..old(self).cur() })
                }
            }),
    {
        let col = self.cursor.pos.x as usize;
        let max = self.current_line_len();
        if col < max {
            return;
        }
        self.cursor.set_col(max);
    }

    /// The buffer's name.
    pub fn name_of(&self) -> (s: String)
        ensures
            s@ == self.name_view(),
    {
        string_from(self.name.as_str())
    }

    /// The number of lines: line breaks plus one.
    pub fn len_lines(&self) -> (n: usize)
        ensures
            n == line_count(self.text()),
    {
        rope_len_lines(&self.rope)
    }

    /// The cursor, to change in place.
    pub fn _get_cursor_mut(&mut self) -> (c: &mut Cursor)
        ensures
            *c == old(self).cur(),
            final(self).cur() == *final(c),
            final(self).text() == old(self).text(),
            final(self).name_view() == old(self).name_view(),
    {
        &mut self.cursor
    }

    /// Whether typing at the cursor stays within the text: the cursor's
    /// row is a line of it and its column is within the text.
    pub fn can_insert(&self) -> (r: bool)
        ensures
            r == (self.cur().pos.y <= line_count(self.text()) && line_start(
                self.text(),
                self.cur().pos.y as nat,
            ) + self.cur().pos.x <= self.text().len()),
    {
        let row = self.cursor.pos.y as usize;
        let lines = rope_len_lines(&self.rope);
        if row > lines {
            return false;
        }
        let start = rope_line_to_char(&self.rope, row);
        let len = rope_len_chars(&self.rope);
        start as u128 + self.cursor.pos.x as u128 <= len as u128
    }

    /// Length of the line under the cursor, as `line_len` counts it.
    pub fn current_line_len(&self) -> (n: usize)
        requires
            self.cur().pos.y + self.cur().scroll.y <= u16::MAX,
            self.cur().pos.y + self.cur().scroll.y < line_count(self.text()),
        ensures
            n == line_len_of(self.text(), (self.cur().pos.y + self.cur().scroll.y) as nat),
    {
        let row = (self.cursor.pos.y + self.cursor.scroll.y) as usize;
        rope_line_len(&self.rope, row).saturating_sub(2)
    }

    /// Length of line `row`: the line with its line break, less two.
    pub fn line_len(&self, row: usize) -> (n: usize)
        requires
            row < line_count(self.text()),
        ensures
            n == line_len_of(self.text(), row as nat),
    {
        rope_line_len(&self.rope, row).saturating_sub(2)
    }

    /// The cursor.
    pub fn get_cursor(&self) -> (c: &Cursor)
        ensures
            *c == self.cur(),
    {
        &self.cursor
    }

    /// The lines in view: from the scrolled-to row on, each cut to the
    /// scrolled-to columns `scroll.x .. scroll.x + width`.
    pub fn on_screen(&self, size: &Size) -> (v: Vec<String>)
        ensures
            v@.len() == screen_rows(
                line_count(self.text()),
                self.cur().scroll.y as nat,
                (self.cur().scroll.y + size.height) as nat,
            ),
            forall|i: int|
                0 <= i < v@.len() ==> #[trigger] v@[i]@ == screen_piece(
                    line_text(self.text(), (self.cur().scroll.y + i) as nat),
                    self.cur().scroll.x as nat,
                    (self.cur().scroll.x + size.width) as nat,
                ),
    {
        let width = size.width as usize;
        let height = size.height as usize;
        let top = self.cursor.scroll.y as usize;
        let bottom = top + height;
        let start = self.cursor.scroll.x as usize;
        let end = start + width;
        let n_lines = rope_len_lines(&self.rope);
        let mut out: Vec<String> = Vec::new();
        let mut i: usize = top;
        let mut taken: usize = 0;
        while i < n_lines && taken < bottom
            invariant
                n_lines == line_count(self.text()),
                top == self.cur().scroll.y,
                bottom == top + height,
                height == size.height,
                start == self.cur().scroll.x,
                end == start + width,
                width == size.width,
                i == top + taken,
                taken <= bottom,
                top <= n_lines ==> i <= n_lines,
                top > n_lines ==> taken == 0,
                out@.len() == taken,
                forall|j: int|
                    0 <= j < out@.len() ==> #[trigger] out@[j]@ == screen_piece(
                        line_text(self.text(), (top + j) as nat),
                        start as nat,
                        end as nat,
                    ),
            decreases bottom - taken,
        {
            let line_s = rope_line_string(&self.rope, i);
            let line = chars_of(line_s.as_str());
            let piece: Vec<char> = if end <= line.len() {
                slice_chars(&line, start, end)
            } else if start < line.len() {
                slice_chars(&line, start, line.len())
            } else {
                let mut sp = Vec::new();
                sp.push(' ');
                sp
            };
            proof {
                let l = line_text(self.text(), i as nat);
                assert(line@ == l);
                if end <= l.len() {
                } else if start < l.len() {
                    assert(piece@ =~= l.skip(start as int));
                } else {
                    assert(piece@ =~= seq![' ']);
                }
            }
            out.push(string_of(&piece));
            i += 1;
            taken += 1;
        }
        out
    }

    /// Inserts `text` at the cursor; the cursor moves right by the byte
    /// length of `text`, and to the start of the next row if `text` holds a
    /// line break.
    pub fn insert(&mut self, text: &str)
        requires
            old(self).cur().pos.y <= line_count(old(self).text()),
            line_start(old(self).text(), old(self).cur().pos.y as nat) + old(self).cur().pos.x
                <= old(self).text().len(),
        ensures
            ({
                let t = old(self).text();
                let idx = line_start(t, old(self).cur().pos.y as nat) + old(self).cur().pos.x;
                final(self).text() == t.take(idx) + text@ + t.skip(idx)
            }),
            final(self).name_view() == old(self).name_view(),
            final(self).cur().scroll == old(self).cur().scroll,
            final(self).cur().max_pos() == old(self).cur().max_pos(),
            text@.contains('\n') ==> final(self).cur().pos == (Pos {
                x: 0,
                y: sat_add_u16(old(self).cur().pos.y, 1),
            }),
            !text@.contains('\n') ==> final(self).cur().pos == (Pos {
                x: sat_add_u16(old(self).cur().pos.x, text.len() as u16),
                y: old(self).cur().pos.y,
            }),
    {
        let row = self.cursor.pos.y as usize;
        let col = self.cursor.pos.x as usize;
        let char_idx = rope_line_to_char(&self.rope, row);
        // the rope's length bounds the index arithmetic below
        let _len = rope_len_chars(&self.rope);
        rope_insert(&mut self.rope, char_idx + col, text);
        let col = text.len();
        self.cursor.add_col(col);
        let chars = chars_of(text);
        if contains_char(&chars, '\n') {
            self.cursor.new_line();
        }
    }

    /// Removes the character before the cursor. At the start of a line the
    /// cursor goes to the end of the line above; otherwise one column left.
    pub fn backspace(&mut self)
        requires
            old(self).cur().pos.y <= line_count(old(self).text()),
            line_start(old(self).text(), old(self).cur().pos.y as nat) + old(self).cur().pos.x
                <= old(self).text().len(),
            old(self).cur().pos.x == 0 ==> ({
                let t = old(self).text();
                let end = line_start(t, old(self).cur().pos.y as nat);
                let t2 = t.take(sat_sub(end as int, 1)) + t.skip(end as int);
                sat_sub_u16(old(self).cur().pos.y, 1) < line_count(t2)
            }),
        ensures
            ({
                let t = old(self).text();
                let end = line_start(t, old(self).cur().pos.y as nat) + old(self).cur().pos.x;
                final(self).text() == t.take(sat_sub(end, 1)) + t.skip(end)
            }),
            final(self).name_view() == old(self).name_view(),
            final(self).cur().scroll == old(self).cur().scroll,
            old(self).cur().pos.x == 0 ==> ({
                let row = sat_sub_u16(old(self).cur().pos.y, 1);
                &&& final(self).cur().pos.y == row
                &&& final(self).cur().pos.x == line_len_of(final(self).text(), row as nat) as u16
                &&& final(self).cur().max_pos() == old(self).cur().max_pos()
            }),
            old(self).cur().pos.x != 0 ==> ({
                &&& final(self).cur().pos.y == old(self).cur().pos.y
                &&& final(self).cur().pos.x == old(self).cur().pos.x - 1
                &&& final(self).cur().max_pos().x == final(self).cur().pos.x
                &&& final(self).cur().max_pos().y == old(self).cur().max_pos().y
            }),
    {
        let col = self.cursor.pos.x as usize;
        let row = self.cursor.pos.y as usize;
        let char_idx = rope_line_to_char(&self.rope, row);
        // the rope's length bounds the index arithmetic below
        let _len = rope_len_chars(&self.rope);
        let start = (char_idx + col).saturating_sub(1);
        let end = char_idx + col;
        rope_remove(&mut self.rope, start, end);
        if col == 0 {
            self.cursor_up();
            self.cursor_end();
            return;
        }
        self.cursor.left();
    }

    /// Removes the character under the cursor.
    pub fn delete_char(&mut self)
        requires
            old(self).cur().pos.y <= line_count(old(self).text()),
            line_start(old(self).text(), old(self).cur().pos.y as nat) + old(self).cur().pos.x
                + 1 <= old(self).text().len(),
        ensures
            ({
                let t = old(self).text();
                let start = line_start(t, old(self).cur().pos.y as nat) + old(self).cur().pos.x;
                final(self).text() == t.take(start) + t.skip(start + 1)
            }),
            final(self).name_view() == old(self).name_view(),
            final(self).cur() == old(self).cur(),
    {
        let col = self.cursor.pos.x as usize;
        let row = self.cursor.pos.y as usize;
        let char_idx = rope_line_to_char(&self.rope, row);
        // the rope's length bounds the index arithmetic below
        let _len = rope_len_chars(&self.rope);
        let start = char_idx + col;
        let end = (char_idx + col).saturating_add(1);
        rope_remove(&mut self.rope, start, end);
    }

    /// Moves the cursor one row up, unless it is on the first row; says
    /// whether it moved.
    pub fn cursor_up(&mut self) -> (moved: bool)
        requires
            old(self).cur().pos.y <= line_count(old(self).text()),
        ensures
            moved == (old(self).cur().pos.y != 0),
            final(self).text() == old(self).text(),
            final(self).name_view() == old(self).name_view(),
            !moved ==> final(self).cur() == old(self).cur(),
            moved ==> ({
                let c = old(self).cur();
                let l = line_len_of(old(self).text(), (c.pos.y - 1) as nat);
                let m = max_u16(c.pos.x, c.max_pos().x);
                &&& final(self).cur().pos.y == c.pos.y - 1
                &&& final(self).cur().pos.x == (if m as int <= l { m } else { l as u16 })
                &&& final(self).cur().scroll == c.scroll
                &&& final(self).cur().max_pos() == c.max_pos()
            }),
    {
        let row = self.cursor.pos.y as usize;
        if row == 0 {
            return false;
        }
        let row = row - 1;
        let len = self.line_len(row);
        self.cursor.up(len);
        true
    }

    /// Moves the cursor one row down while its row is below `max`; says
    /// whether it moved.
    pub fn cursor_down(&mut self, max: usize) -> (moved: bool)
        requires
            (old(self).cur().pos.y as int) < max ==> old(self).cur().pos.y + 1 < line_count(
                old(self).text(),
            ),
        ensures
            moved == ((old(self).cur().pos.y as int) < max),
            final(self).text() == old(self).text(),
            final(self).name_view() == old(self).name_view(),
            !moved ==> final(self).cur() == old(self).cur(),
            moved ==> ({
                let c = old(self).cur();
                let l = line_len_of(old(self).text(), (c.pos.y + 1) as nat);
                let m = max_u16(c.pos.x, c.max_pos().x);
                &&& final(self).cur().pos.y == sat_add_u16(c.pos.y, 1)
                &&& final(self).cur().pos.x == (if m as int <= l { m } else { l as u16 })
                &&& final(self).cur().scroll == c.scroll
                &&& final(self).cur().max_pos() == c.max_pos()
            }),
    {
        let row = self.cursor.pos.y as usize;
        if row >= max {
            return false;
        }
        let row = row + 1;
        let len = self.line_len(row);
        self.cursor.down(len);
        true
    }

    /// Moves the cursor one column left unless it is in the first column;
    /// says whether it moved.
    pub fn cursor_left(&mut self) -> (moved: bool)
        ensures
            moved == (old(self).cur().pos.x != 0),
            final(self).text() == old(self).text(),
            final(self).name_view() == old(self).name_view(),
            !moved ==> final(self).cur() == old(self).cur(),
            moved ==> ({
                let c = old(self).cur();
                &&& final(self).cur().pos == (Pos { x: (c.pos.x - 1) as u16, y: c.pos.y })
                &&& final(self).cur().max_pos() == (Pos { x: (c.pos.x - 1) as u16, y: c.max_pos().y })
                &&& final(self).cur().scroll == c.scroll
            }),
    {
        let col = self.cursor.pos.x;
        if col == 0 {
            return false;
        }
        self.cursor.left();
        true
    }

    /// Moves the cursor one column right while it is before both the end of
    /// its line and `width`; says whether it moved.
    pub fn cursor_right(&mut self, width: usize) -> (moved: bool)
        requires
            old(self).cur().pos.y + old(self).cur().scroll.y <= u16::MAX,
            old(self).cur().pos.y + old(self).cur().scroll.y < line_count(old(self).text()),
        ensures
            moved == ({
                let c = old(self).cur();
                &&& (c.pos.x as int) < line_len_of(old(self).text(), (c.pos.y + c.scroll.y) as nat)
                &&& (c.pos.x as int) < width
            }),
            final(self).text() == old(self).text(),
            final(self).name_view() == old(self).name_view(),
            !moved ==> final(self).cur() == old(self).cur(),
            moved ==> ({
                let c = old(self).cur();
                &&& final(self).cur().pos == (Pos { x: sat_add_u16(c.pos.x, 1), y: c.pos.y })
                &&& final(self).cur().max_pos() == (Pos {
                    x: max_u16(sat_add_u16(c.pos.x, 1), c.max_pos().x),
                    y: c.max_pos().y,
                })
                &&& final(self).cur().scroll == c.scroll
            }),
    {
        let len_col = self.current_line_len();
        let col = self.cursor.pos.x as usize;
        if col < len_col && col < width {
            self.cursor.right();
            return true;
        }
        false
    }

    /// Puts the cursor at the end of its line, as `line_len` counts it.
    pub fn cursor_end(&mut self)
        requires
            old(self).cur().pos.y < line_count(old(self).text()),
        ensures
            final(self).text() == old(self).text(),
            final(self).name_view() == old(self).name_view(),
            final(self).cur() == (Cursor {
                pos: Pos {
                    x: line_len_of(old(self).text(), old(self).cur().pos.y as nat) as u16,
                    ..old(self).cur().pos
                },
                ..old(self).cur()
            }),
    {
        let row = self.cursor.pos.y as usize;
        let len = self.line_len(row);
        self.cursor.set_col(len);
    }

    /// Puts the cursor in the first column.
    pub fn cursor_home(&mut self)
        ensures
            final(self).text() == old(self).text(),
            final(self).name_view() == old(self).name_view(),
            final(self).cur() == (Cursor { pos: Pos { x: 0, ..old(self).cur().pos }, ..old(self).cur() }),
    {
        self.cursor.set_col(0);
    }

    /// Scrolls the view one row up.
    pub fn scroll_up(&mut self)
        ensures
            final(self).text() == old(self).text(),
            final(self).name_view() == old(self).name_view(),
            final(self).cur() == (Cursor {
                scroll: Pos { y: sat_sub_u16(old(self).cur().scroll.y, 1), ..old(self).cur().scroll },
                ..old(self).cur()
            }),
    {
        self.cursor.scroll_up();
    }

    /// Scrolls the view one row down, so that at most `height` rows are
    /// left below the top of the view.
    pub fn scroll_down(&mut self, height: usize)
        ensures
            final(self).text() == old(self).text(),
            final(self).name_view() == old(self).name_view(),
            final(self).cur() == (Cursor {
                scroll: Pos {
                    y: min_u16(
                        sat_add_u16(old(self).cur().scroll.y, 1),
                        sat_sub(line_count(old(self).text()) as int, height as int) as usize as u16,
                    ),
                    ..old(self).cur().scroll
                },
                ..old(self).cur()
            }),
    {
        let max = rope_len_lines(&self.rope);
        self.cursor.scroll_down(max.saturating_sub(height));
    }

    /// Scrolls the view one column left.
    pub fn scroll_left(&mut self)
        ensures
            final(self).text() == old(self).text(),
            final(self).name_view() == old(self).name_view(),
            final(self).cur() == (Cursor {
                scroll: Pos { x: sat_sub_u16(old(self).cur().scroll.x, 1), ..old(self).cur().scroll },
                ..old(self).cur()
            }),
    {
        self.cursor.scroll_left();
    }

    /// Scrolls the view one column right, so that at most `width` columns of
    /// the current line are left right of the view.
    pub fn scroll_right(&mut self, width: usize)
        requires
            old(self).cur().pos.y + old(self).cur().scroll.y <= u16::MAX,
            old(self).cur().pos.y + old(self).cur().scroll.y < line_count(old(self).text()),
        ensures
            final(self).text() == old(self).text(),
            final(self).name_view() == old(self).name_view(),
            final(self).cur() == (Cursor {
                scroll: Pos {
                    x: min_u16(
                        sat_add_u16(old(self).cur().scroll.x, 1),
                        sat_sub(
                            line_len_of(
                                old(self).text(),
                                (old(self).cur().pos.y + old(self).cur().scroll.y) as nat,
                            ),
                            width as int,
                        ) as usize as u16,
                    ),
                    ..old(self).cur().scroll
                },
                ..old(self).cur()
            }),
    {
        let max = self.current_line_len();
        self.cursor.scroll_right(max.saturating_sub(width));
    }
}

impl Clone for Buffer {
    fn clone(&self) -> (b: Buffer)
        ensures
            b.text() == self.text(),
            b.cur() == self.cur(),
            b.name_view() == self.name_view(),
    {
        Buffer { name: self.name.clone(), rope: self.rope.clone(), cursor: self.cursor }
    }
}

impl Default for Buffer {
    fn default() -> (b: Buffer)
        ensures
            b.name_view() == "N/A"@,
            b.text() == Seq::<char>::empty(),
            b.cur() == Cursor::origin(),
    {
        Buffer { name: String::from_str("N/A"), rope: rope_new(), cursor: Cursor::default() }
    }
}

} // verus!
