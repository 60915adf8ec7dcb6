//! The text a pane shows: a named rope with the pane's cursor.
use ropey::Rope;
use vstd::prelude::*;
use crate::engine::pane::Cursor;
use crate::rope::{
    line_count, line_start, line_text, rope_from_str, rope_insert, rope_len_lines, rope_line_len,
    rope_line_string, rope_line_to_char, rope_new, rope_text,
};
use crate::strings::{string_from, views};
use crate::ui::layout::Pos;

verus! {

/// A named text with a cursor.
#[derive(Debug)]
pub struct Buffer {
    pub name: String,
    pub cursor: Cursor,
    pub(crate) rope: Rope,
}

/// The cursor at the origin, with nothing scrolled.
pub open spec fn origin_cursor() -> Cursor {
    Cursor { pos: Pos { x: 0, y: 0 }, max: Pos { x: 0, y: 0 }, scroll: Pos { x: 0, y: 0 } }
}

/// The lines `top ..= bottom` of `t`, as far as it goes.
pub open spec fn lines_in_view(t: Seq<char>, top: nat, bottom: nat) -> Seq<Seq<char>> {
    let end = if bottom + 1 < line_count(t) { bottom + 1 } else { line_count(t) };
    Seq::new(if top < end { (end - top) as nat } else { 0 }, |i: int| line_text(t, (top + i) as nat))
}

impl Buffer {
    /// The characters of the buffer.
    pub closed spec fn text(&self) -> Seq<char> {
        rope_text(self.rope)
    }

    /// The name of the buffer.
    pub closed spec fn name_view(&self) -> Seq<char> {
        self.name@
    }

    /// The cursor of the buffer.
    pub closed spec fn cur(&self) -> Cursor {
        self.cursor
    }

    /// A buffer named `name` holding `rope`, with the cursor at the origin.
    pub fn new(name: String, rope: Rope) -> (b: Buffer)
        ensures
            b.name_view() == name@,
            b.text() == rope_text(rope),
            b.cur() == origin_cursor(),
    {
        Buffer { name, rope, cursor: Cursor::default() }
    }

    /// A buffer named `name` holding `contents`, with the cursor at the
    /// origin.
    pub fn new_str(name: String, contents: &str) -> (b: Buffer)
        ensures
            b.name_view() == name@,
            b.text() == contents@,
            b.cur() == origin_cursor(),
    {
        Buffer { name, rope: rope_from_str(contents), cursor: Cursor::default() }
    }

    /// The lines in view in a pane `height` rows high: from the scrolled-to
    /// line through `height` more, as far as the text goes, each with its
    /// line break.
    pub fn on_screen(&self, height: u16) -> (r: Vec<String>)
        requires
            self.cur().scroll.y + height <= u16::MAX,
        ensures
            views(r@) == lines_in_view(
                self.text(),
                self.cur().scroll.y as nat,
                (self.cur().scroll.y + height) as nat,
            ),
    {
        let top = self.cursor.scroll.y as usize;
        let bottom = (self.cursor.scroll.y + height) as usize;
        let n = rope_len_lines(&self.rope);
        let ghost want = lines_in_view(self.text(), top as nat, bottom as nat);
        let mut result: Vec<String> = Vec::new();
        let mut idx = top;
        while idx <= bottom && idx < n
            invariant
                top <= idx,
                idx <= bottom + 1,
                idx == top || idx <= n,
                n == line_count(self.text()),
                bottom < u16::MAX + 1,
                result@.len() == idx - top,
                forall|i: int|
                    0 <= i < result@.len() ==> #[trigger] result@[i]@ == line_text(
                        self.text(),
                        (top + i) as nat,
                    ),
            decreases bottom + 1 - idx,
        {
            let line = rope_line_string(&self.rope, idx);
            result.push(line);
            idx += 1;
        }
        proof {
            assert(result@.len() == want.len());
            assert forall|i: int| 0 <= i < want.len() implies views(result@)[i] == want[i] by {
                assert(views(result@)[i] == result@[i]@);
            }
            assert(views(result@) =~= want);
        }
        result
    }

    /// The number of line breaks: one less than the number of lines. The
    /// cursor's row must be a line of the text.
    pub fn len_lines(&self) -> (n: usize)
        requires
            (self.cur().pos.y as int) < line_count(self.text()),
        ensures
            n == line_count(self.text()) - 1,
    {
        let len_lines = rope_len_lines(&self.rope);
        let row = self.cursor.pos.y as usize;
        let _line_len = self.line_len(row);
        len_lines.saturating_sub(1)
    }

    /// The length of line `line_idx`, its line break included.
    pub fn line_len(&self, line_idx: usize) -> (n: usize)
        requires
            line_idx < line_count(self.text()),
        ensures
            n == line_text(self.text(), line_idx as nat).len(),
    {
        rope_line_len(&self.rope, line_idx)
    }

    /// Inserts `c` at the start of the cursor's line in the text.
    pub fn push(&mut self, c: String)
        requires
            old(self).cur().pos.y + old(self).cur().scroll.y <= line_count(old(self).text()),
        ensures
            ({
                let t = old(self).text();
                let i = line_start(t, (old(self).cur().pos.y + old(self).cur().scroll.y) as nat);
                final(self).text() == t.take(i as int) + c@ + t.skip(i as int)
            }),
            final(self).name_view() == old(self).name_view(),
            final(self).cur() == old(self).cur(),
    {
        let screen_row = self.cursor.pos.y as usize;
        let scroll_row = self.cursor.scroll.y as usize;
        let row = screen_row + scroll_row;
        let idx = rope_line_to_char(&self.rope, row);
        proof {
            crate::editor::window::lemma_line_start_monotone(self.text(), row as nat);
        }
        rope_insert(&mut self.rope, idx, c.as_str());
    }

    /// Empties the text.
    pub fn clear(&mut self)
        ensures
            final(self).text() == Seq::<char>::empty(),
            final(self).name_view() == old(self).name_view(),
            final(self).cur() == old(self).cur(),
    {
        self.rope = rope_new();
    }

    /// The rope holding the text.
    pub fn get_rope(&self) -> (r: &Rope)
        ensures
            rope_text(*r) == self.text(),
    {
        &self.rope
    }

    /// The rope holding the text, to change in place.
    pub fn get_rope_mut(&mut self) -> (r: &mut Rope)
        ensures
            rope_text(*r) == old(self).text(),
            final(self).text() == rope_text(*final(r)),
            final(self).name_view() == old(self).name_view(),
            final(self).cur() == old(self).cur(),
    {
        &mut self.rope
    }
}

/// Within the crate, the name and the cursor are the fields.
pub(crate) proof fn lemma_buffer_fields(b: Buffer)
    ensures
        b.cur() == b.cursor,
        b.name_view() == b.name@,
        b.text() == rope_text(b.rope),
{
}

impl Default for Buffer {
    /// An empty buffer named `N/A`.
    fn default() -> (b: Buffer)
        ensures
            b.name_view() == "N/A"@,
            b.text() == Seq::<char>::empty(),
            b.cur() == origin_cursor(),
    {
        Buffer { name: string_from("N/A"), rope: rope_new(), cursor: Cursor::default() }
    }
}

} // verus!
