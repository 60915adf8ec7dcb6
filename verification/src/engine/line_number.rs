//! The line-number gutter: one entry per screen row, each a number padded on
//! the left to the gutter's width and followed by a space, and blank rows
//! past the end of the text.
use vstd::prelude::*;
use vstd::utf8::encode_utf8;
use crate::strings::{
    decimal, decimal_chars, push_repeat, push_string, repeat_char, string_of, views,
};

verus! {

/// How the gutter numbers rows.
#[derive(Debug, Clone, Copy, PartialEq, Eq, Structural)]
pub enum LineNumberKind {
    AbsoluteNumber,
    RelativeNumber,
    Both,
    Off,
}

/// What the gutter is drawn from.
#[derive(Debug, Clone)]
pub struct LineNumberBuilder {
    pub width: usize,
    pub height: usize,
    pub line_len: usize,
    pub cursor_pos: usize,
    pub window_offset: usize,
    pub blank_line: String,
}

/// `a - b`, or 0 when `b` is larger.
pub open spec fn sat_sub(a: int, b: int) -> nat {
    if a > b { (a - b) as nat } else { 0 }
}

/// The spaces that pad something `n` long to width `w`.
pub open spec fn pad_of(w: int, n: int) -> Seq<char> {
    repeat_char(' ', sat_sub(w, n))
}

/// The gutter entry of number `n`.
pub open spec fn number_entry(width: int, n: nat) -> Seq<char> {
    pad_of(width, decimal(n).len() as int) + decimal(n) + seq![' ']
}

/// The gutter entry of a row past the end of the text: the blank marker,
/// padded by its length in bytes.
pub open spec fn blank_entry(b: LineNumberBuilder) -> Seq<char> {
    pad_of(b.width as int, (encode_utf8(b.blank_line@).len() as usize) as int) + b.blank_line@
        + seq![' ']
}

/// The first line shown.
pub open spec fn top_of(b: LineNumberBuilder) -> int {
    b.window_offset as int
}

/// One past the last line shown.
pub open spec fn bottom_of(b: LineNumberBuilder) -> int {
    let end = b.height + b.window_offset;
    if end < b.line_len { end } else { b.line_len as int }
}

/// The entries numbering lines `top` up to `bottom` by their line number,
/// then blanks up to the gutter's height.
pub open spec fn absolute_entries(b: LineNumberBuilder) -> Seq<Seq<char>> {
    let k = sat_sub(bottom_of(b), top_of(b));
    Seq::new(k, |i: int| number_entry(b.width as int, (top_of(b) + i) as nat)) + Seq::new(
        sat_sub(b.height as int, k as int),
        |i: int| blank_entry(b),
    )
}

/// How many rows above the cursor are numbered in relative numbering.
pub open spec fn rows_above(b: LineNumberBuilder) -> nat {
    sat_sub(b.cursor_pos as int, top_of(b))
}

/// How many rows below the cursor are numbered in relative numbering.
pub open spec fn rows_below(b: LineNumberBuilder) -> nat {
    sat_sub(sat_sub(bottom_of(b), 1) as int, b.cursor_pos as int)
}

/// The entries numbering rows by their distance from the cursor: counting
/// down to the cursor's row, which is 0, then up again, then blanks up to
/// the gutter's height.
pub open spec fn relative_entries(b: LineNumberBuilder) -> Seq<Seq<char>> {
    let a = rows_above(b);
    let c = rows_below(b);
    Seq::new(a, |i: int| number_entry(b.width as int, (a - i) as nat)) + seq![
        number_entry(b.width as int, 0),
    ] + Seq::new(c, |i: int| number_entry(b.width as int, (i + 1) as nat)) + Seq::new(
        sat_sub(b.height as int, (a + 1 + c) as int),
        |i: int| blank_entry(b),
    )
}

/// The entries a kind of numbering draws; none for `Both` and `Off`.
pub open spec fn entries_of(kind: LineNumberKind, b: LineNumberBuilder) -> Seq<Seq<char>> {
    match kind {
        LineNumberKind::AbsoluteNumber => absolute_entries(b),
        LineNumberKind::RelativeNumber => relative_entries(b),
        _ => Seq::empty(),
    }
}

/// The limits a builder must keep for its sums to fit a `usize`.
pub open spec fn builder_fits(b: LineNumberBuilder) -> bool {
    &&& b.height + b.window_offset <= usize::MAX
    &&& rows_above(b) + 1 + rows_below(b) <= usize::MAX
}

impl LineNumberKind {
    /// The gutter entries of this kind of numbering.
    pub fn lines(&self, builder: LineNumberBuilder) -> (r: Vec<String>)
        requires
            (*self == LineNumberKind::AbsoluteNumber || *self == LineNumberKind::RelativeNumber)
                ==> builder_fits(builder),
        ensures
            views(r@) == entries_of(*self, builder),
    {
        match self {
            Self::AbsoluteNumber => absolute_line_numbers(builder),
            Self::RelativeNumber => relative_line_numbers(builder),
            Self::Both => {
                let v: Vec<String> = Vec::new();
                proof {
                    assert(views(v@) =~= Seq::<Seq<char>>::empty());
                }
                v
            },
            Self::Off => {
                let v: Vec<String> = Vec::new();
                proof {
                    assert(views(v@) =~= Seq::<Seq<char>>::empty());
                }
                v
            },
        }
    }
}

impl LineNumberBuilder {
    /// The first line shown.
    pub fn top(&self) -> (r: usize)
        ensures
            r == top_of(*self),
    {
        self.window_offset
    }

    /// One past the last line shown: the window's end, or the end of the
    /// text when that comes first.
    pub fn bottom(&self) -> (r: usize)
        requires
            self.height + self.window_offset <= usize::MAX,
        ensures
            r == bottom_of(*self),
    {
        let end = self.height + self.window_offset;
        if end < self.line_len {
            end
        } else {
            self.line_len
        }
    }
}

/// The spaces that pad something `num_width` long to width `w`.
pub fn pad(w: usize, num_width: usize) -> (s: String)
    ensures
        s@ == pad_of(w as int, num_width as int),
{
    let n = if w > num_width {
        w - num_width
    } else {
        0
    };
    let mut v: Vec<char> = Vec::new();
    push_repeat(&mut v, ' ', n);
    proof {
        assert(v@ =~= pad_of(w as int, num_width as int));
    }
    string_of(v.as_slice())
}

/// The gutter entry of line `num` shifted by `offset`.
pub fn format_line_number(builder: &LineNumberBuilder, offset: usize, num: usize) -> (s: String)
    requires
        num + offset <= usize::MAX,
    ensures
        s@ == number_entry(builder.width as int, (num + offset) as nat),
{
    let digits = decimal_chars(num + offset);
    let p = pad(builder.width, digits.len());
    let mut v: Vec<char> = Vec::new();
    crate::strings::extend_chars(&mut v, crate::strings::chars_of(p.as_str()).as_slice());
    crate::strings::extend_chars(&mut v, digits.as_slice());
    v.push(' ');
    proof {
        assert(v@ =~= number_entry(builder.width as int, (num + offset) as nat));
    }
    string_of(v.as_slice())
}

/// The gutter entry of a row past the end of the text.
pub fn format_blanks(builder: &LineNumberBuilder) -> (s: String)
    ensures
        s@ == blank_entry(*builder),
{
    let p = pad(builder.width, builder.blank_line.as_str().len());
    let mut v: Vec<char> = Vec::new();
    crate::strings::extend_chars(&mut v, crate::strings::chars_of(p.as_str()).as_slice());
    crate::strings::extend_chars(
        &mut v,
        crate::strings::chars_of(builder.blank_line.as_str()).as_slice(),
    );
    v.push(' ');
    proof {
        assert(v@ =~= blank_entry(*builder));
    }
    string_of(v.as_slice())
}

/// Appends `count` blank entries.
fn push_blanks(builder: &LineNumberBuilder, count: usize, out: &mut Vec<String>)
    ensures
        views(final(out)@) == views(old(out)@) + Seq::new(count as nat, |i: int| blank_entry(*builder)),
{
    let mut i: usize = 0;
    while i < count
        invariant
            i <= count,
            views(out@) == views(old(out)@) + Seq::new(i as nat, |k: int| blank_entry(*builder)),
        decreases count - i,
    {
        push_string(out, format_blanks(builder));
        i += 1;
        proof {
            assert(views(out@) =~= views(old(out)@) + Seq::new(
                i as nat,
                |k: int| blank_entry(*builder),
            ));
        }
    }
}

/// The gutter numbering lines by their line number.
pub fn absolute_line_numbers(builder: LineNumberBuilder) -> (r: Vec<String>)
    requires
        builder.height + builder.window_offset <= usize::MAX,
    ensures
        views(r@) == absolute_entries(builder),
{
    let top = builder.top();
    let bottom = builder.bottom();
    let mut numbers: Vec<String> = Vec::new();
    let mut n = top;
    let ghost w = builder.width as int;
    while n < bottom
        invariant
            top == top_of(builder),
            bottom == bottom_of(builder),
            w == builder.width as int,
            top <= n,
            n <= bottom || top >= bottom,
            (top >= bottom) ==> n == top,
            views(numbers@) == Seq::new(
                (n - top) as nat,
                |i: int| number_entry(w, (top + i) as nat),
            ),
        decreases bottom - n,
    {
        push_string(&mut numbers, format_line_number(&builder, 0, n));
        n += 1;
        proof {
            assert(views(numbers@) =~= Seq::new(
                (n - top) as nat,
                |i: int| number_entry(w, (top + i) as nat),
            ));
        }
    }
    let k = numbers.len();
    let blanks = if builder.height > k {
        builder.height - k
    } else {
        0
    };
    push_blanks(&builder, blanks, &mut numbers);
    proof {
        assert(views(numbers@) =~= absolute_entries(builder));
    }
    numbers
}

/// The gutter numbering rows by their distance from the cursor.
pub fn relative_line_numbers(builder: LineNumberBuilder) -> (r: Vec<String>)
    requires
        builder_fits(builder),
    ensures
        views(r@) == relative_entries(builder),
{
    let top = builder.top();
    let bottom = builder.bottom();
    let above = if builder.cursor_pos > top {
        builder.cursor_pos - top
    } else {
        0
    };
    let last = if bottom > 0 {
        bottom - 1
    } else {
        0
    };
    let below = if last > builder.cursor_pos {
        last - builder.cursor_pos
    } else {
        0
    };
    let ghost w = builder.width as int;
    let mut out: Vec<String> = Vec::new();
    let mut i: usize = 0;
    while i < above
        invariant
            i <= above,
            w == builder.width as int,
            views(out@) == Seq::new(i as nat, |k: int| number_entry(w, (above - k) as nat)),
        decreases above - i,
    {
        push_string(&mut out, format_line_number(&builder, 1, above - i - 1));
        i += 1;
        proof {
            assert(views(out@) =~= Seq::new(
                i as nat,
                |k: int| number_entry(w, (above - k) as nat),
            ));
        }
    }
    push_string(&mut out, format_line_number(&builder, 0, 0));
    let ghost head = views(out@);
    let mut j: usize = 0;
    while j < below
        invariant
            j <= below,
            w == builder.width as int,
            views(out@) == head + Seq::new(j as nat, |k: int| number_entry(w, (k + 1) as nat)),
        decreases below - j,
    {
        push_string(&mut out, format_line_number(&builder, 1, j));
        j += 1;
        proof {
            assert(views(out@) =~= head + Seq::new(
                j as nat,
                |k: int| number_entry(w, (k + 1) as nat),
            ));
        }
    }
    let used = above + 1 + below;
    let blanks = if builder.height > used {
        builder.height - used
    } else {
        0
    };
    push_blanks(&builder, blanks, &mut out);
    proof {
        assert(views(out@) =~= relative_entries(builder));
    }
    out
}

/// Absolute numbering (the entries `LineNumberKind::lines` gives for
/// `AbsoluteNumber`): the gutter has one entry per row; row `i` shows the
/// number `window_offset + i`, padded to the gutter's width and followed by
/// a space, while that line is in the text, and the blank marker past it.
pub proof fn lemma_absolute_rows(b: LineNumberBuilder, i: int)
    requires
        0 <= i < b.height,
    ensures
        entries_of(LineNumberKind::AbsoluteNumber, b).len() == b.height,
        b.window_offset + i < b.line_len ==> entries_of(LineNumberKind::AbsoluteNumber, b)[i] == repeat_char(
            ' ',
            sat_sub(b.width as int, decimal((b.window_offset + i) as nat).len() as int),
        ) + decimal((b.window_offset + i) as nat) + seq![' '],
        b.window_offset + i >= b.line_len ==> entries_of(LineNumberKind::AbsoluteNumber, b)[i] == blank_entry(b),
{
}

/// Relative numbering (the entries `LineNumberKind::lines` gives for
/// `RelativeNumber`), with the cursor on a shown line of the text: the
/// gutter has one entry per row; row `i` shows the distance between line
/// `window_offset + i` and the cursor's line while that line is in the
/// text, and the blank marker past it.
pub proof fn lemma_relative_rows(b: LineNumberBuilder, i: int)
    requires
        0 <= i < b.height,
        b.window_offset <= b.cursor_pos,
        b.cursor_pos < b.window_offset + b.height,
        b.cursor_pos < b.line_len,
    ensures
        entries_of(LineNumberKind::RelativeNumber, b).len() == b.height,
        b.window_offset + i < b.line_len ==> entries_of(LineNumberKind::RelativeNumber, b)[i] == repeat_char(
            ' ',
            sat_sub(
                b.width as int,
                decimal(
                    (if b.window_offset + i <= b.cursor_pos {
                        b.cursor_pos - (b.window_offset + i)
                    } else {
                        b.window_offset + i - b.cursor_pos
                    }) as nat,
                ).len() as int,
            ),
        ) + decimal(
            (if b.window_offset + i <= b.cursor_pos {
                b.cursor_pos - (b.window_offset + i)
            } else {
                b.window_offset + i - b.cursor_pos
            }) as nat,
        ) + seq![' '],
        b.window_offset + i >= b.line_len ==> entries_of(LineNumberKind::RelativeNumber, b)[i] == blank_entry(b),
{
    let a = rows_above(b);
    let c = rows_below(b);
    let first = Seq::new(a, |j: int| number_entry(b.width as int, (a - j) as nat));
    let mid = seq![number_entry(b.width as int, 0)];
    let below = Seq::new(c, |j: int| number_entry(b.width as int, (j + 1) as nat));
    let blanks = Seq::new(sat_sub(b.height as int, (a + 1 + c) as int), |j: int| blank_entry(b));
    assert(relative_entries(b) == first + mid + below + blanks);
    if i < a {
        assert((first + mid + below + blanks)[i] == first[i]);
    } else if i == a {
        assert((first + mid + below + blanks)[i] == mid[0]);
    } else if i < a + 1 + c {
        assert((first + mid + below + blanks)[i] == below[i - a - 1]);
    } else {
        assert((first + mid + below + blanks)[i] == blanks[i - a - 1 - c]);
    }
}

} // verus!
