//! The text of a pop-up window: a message framed by `+`, `-` and `|`, each
//! line cut or padded to the longest one.
use vstd::prelude::*;
use crate::engine::text_formater::{lines_of, split_lines};
use crate::strings::{chars_of, extend_chars, push_repeat, repeat_char, string_of};

verus! {

/// `line` cut to `width` characters, or padded with spaces to that many.
pub open spec fn fit_line(line: Seq<char>, width: nat) -> Seq<char> {
    if line.len() >= width {
        line.take(width as int)
    } else {
        line + repeat_char(' ', (width - line.len()) as nat)
    }
}

/// The length of the longest of `lines`, 0 for none.
pub open spec fn longest(lines: Seq<Seq<char>>) -> nat
    decreases lines.len(),
{
    if lines.len() == 0 {
        0
    } else {
        let rest = longest(lines.drop_last());
        if lines.last().len() > rest { lines.last().len() } else { rest }
    }
}

/// A border line of the frame: `+`, `width` dashes, `+`.
pub open spec fn frame_border(width: nat) -> Seq<char> {
    seq!['+'] + repeat_char('-', width) + seq!['+']
}

/// The framed lines, each on a line of its own after a line break, between
/// bars.
pub open spec fn framed_rows(lines: Seq<Seq<char>>, width: nat) -> Seq<char>
    decreases lines.len(),
{
    if lines.len() == 0 {
        Seq::empty()
    } else {
        framed_rows(lines.drop_last(), width) + seq!['\n', '|'] + fit_line(lines.last(), width)
            + seq!['|']
    }
}

/// The width of a pop-up for `msg`: the length of its longest line, cut to
/// 16 bits.
pub open spec fn pop_up_width(msg: Seq<char>) -> u16 {
    longest(lines_of(msg)) as u16
}

/// The height of a pop-up for `msg`: its number of lines, cut to 16 bits.
pub open spec fn pop_up_height(msg: Seq<char>) -> u16 {
    lines_of(msg).len() as u16
}

/// The framed text of a pop-up for `msg`.
pub open spec fn pop_up_text(msg: Seq<char>) -> Seq<char> {
    let w = pop_up_width(msg) as nat;
    frame_border(w) + framed_rows(lines_of(msg), w) + seq!['\n'] + frame_border(w)
}

/// `line` cut to `width` characters, or padded with spaces to that many.
fn format_line(line: &[char], width: usize) -> (r: Vec<char>)
    ensures
        r@ == fit_line(line@, width as nat),
{
    let mut r: Vec<char> = Vec::new();
    if line.len() >= width {
        let mut i: usize = 0;
        while i < width
            invariant
                i <= width <= line@.len(),
                r@ == line@.take(i as int),
            decreases width - i,
        {
            r.push(line[i]);
            i += 1;
            assert(r@ =~= line@.take(i as int));
        }
    } else {
        extend_chars(&mut r, line);
        push_repeat(&mut r, ' ', width - line.len());
        assert(r@ =~= fit_line(line@, width as nat));
    }
    r
}

/// The text of a pop-up window for `msg`, with its width and height: the
/// lines of `msg`, each cut or padded to the longest and put between `|`,
/// under and over a border of `+` and `-`.
pub fn pop_up_frame(msg: &str) -> (r: (String, u16, u16))
    ensures
        r.0@ == pop_up_text(msg@),
        r.1 == pop_up_width(msg@),
        r.2 == pop_up_height(msg@),
{
    let chars = chars_of(msg);
    let lines = split_lines(&chars);
    let ghost ls = lines_of(msg@);
    let mut longest_len: usize = 0;
    let mut i: usize = 0;
    proof {
        assert(ls.take(0) =~= Seq::<Seq<char>>::empty());
    }
    while i < lines.len()
        invariant
            i <= lines@.len(),
            lines@.map_values(|l: Vec<char>| l@) == ls,
            longest_len == longest(ls.take(i as int)),
        decreases lines@.len() - i,
    {
        proof {
            assert(ls.take(i + 1).drop_last() =~= ls.take(i as int));
            assert(ls.take(i + 1).last() == lines@[i as int]@);
        }
        if lines[i].len() > longest_len {
            longest_len = lines[i].len();
        }
        i += 1;
    }
    proof {
        assert(ls.take(lines@.len() as int) =~= ls);
    }
    let width = longest_len as u16;
    let height = lines.len() as u16;
    let mut out: Vec<char> = Vec::new();
    out.push('+');
    push_repeat(&mut out, '-', width as usize);
    out.push('+');
    let ghost top = out@;
    let mut k: usize = 0;
    proof {
        assert(out@ =~= frame_border(width as nat) + framed_rows(ls.take(0), width as nat));
    }
    while k < lines.len()
        invariant
            k <= lines@.len(),
            lines@.map_values(|l: Vec<char>| l@) == ls,
            top == frame_border(width as nat),
            out@ == top + framed_rows(ls.take(k as int), width as nat),
        decreases lines@.len() - k,
    {
        proof {
            assert(ls.take(k + 1).drop_last() =~= ls.take(k as int));
            assert(ls.take(k + 1).last() == lines@[k as int]@);
        }
        out.push('\n');
        out.push('|');
        let row = format_line(lines[k].as_slice(), width as usize);
        extend_chars(&mut out, row.as_slice());
        out.push('|');
        k += 1;
        proof {
            assert(out@ =~= top + framed_rows(ls.take(k as int), width as nat));
        }
    }
    proof {
        assert(ls.take(lines@.len() as int) =~= ls);
    }
    out.push('\n');
    out.push('+');
    push_repeat(&mut out, '-', width as usize);
    out.push('+');
    proof {
        assert(out@ =~= pop_up_text(msg@));
    }
    (string_of(out.as_slice()), width, height)
}

} // verus!
