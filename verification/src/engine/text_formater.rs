//! Formatting of the text in view for a pane: each line cut to the pane's
//! width from a horizontal offset, padded, and ended with `"\r\n"`, then
//! blank rows up to the pane's height. Offsets and widths count bytes of
//! the UTF-8 text, as string slicing does.
use vstd::prelude::*;
use vstd::string::StringSliceAdditionalSpecFns;
use vstd::utf8::{decode_utf8, encode_utf8, is_char_boundary, valid_utf8};
use crate::strings::{
    chars_of, count_of, extend_chars, push_repeat, remove_all, repeat_char, string_of,
};

verus! {

broadcast use {
    vstd::utf8::encode_utf8_valid_utf8,
    vstd::utf8::encode_utf8_decode_utf8,
    vstd::utf8::is_char_boundary_start_end_of_seq,
};

/// The end of a formatted row.
pub open spec fn row_end() -> Seq<char> {
    seq!['\r', '\n']
}

/// `a + b`, or `usize::MAX` when that overflows.
pub open spec fn sat_add(a: usize, b: usize) -> usize {
    if a + b > usize::MAX { usize::MAX } else { (a + b) as usize }
}

/// `a - b`, or 0 when `b` is larger.
pub open spec fn sat_sub(a: int, b: int) -> nat {
    if a > b { (a - b) as nat } else { 0 }
}

/// The length of `s` in UTF-8 bytes, as `str::len` gives it.
pub open spec fn byte_len(s: Seq<char>) -> usize {
    encode_utf8(s).len() as usize
}

/// Where the shown part of a line starts, in bytes.
pub open spec fn cut_start(line: Seq<char>, offset: usize) -> int {
    let len = byte_len(line);
    if offset < len { offset as int } else { len as int }
}

/// Where the shown part of a line ends, in bytes.
pub open spec fn cut_end(line: Seq<char>, offset: usize, width: usize) -> int {
    let len = byte_len(line);
    let e = sat_add(width, offset);
    if len < e { len as int } else { e as int }
}

/// Whether the shown part of a line starts and ends between characters.
pub open spec fn cut_ok(line: Seq<char>, offset: usize, width: usize) -> bool {
    let bytes = encode_utf8(line);
    is_char_boundary(bytes, cut_start(line, offset)) && is_char_boundary(
        bytes,
        cut_end(line, offset, width),
    )
}

/// The shown part of a line, with its newlines removed.
pub open spec fn shown_part(line: Seq<char>, offset: usize, width: usize) -> Seq<char> {
    remove_all(
        decode_utf8(
            encode_utf8(line).subrange(cut_start(line, offset), cut_end(line, offset, width)),
        ),
        '\n',
    )
}

/// A formatted row: the shown part padded with `filler` to `width` bytes;
/// a row that would cut a character reads `EMPTY` and a full row of filler.
pub open spec fn formatted_line(line: Seq<char>, filler: char, offset: usize, width: usize) -> Seq<
    char,
> {
    if cut_ok(line, offset, width) {
        let shown = shown_part(line, offset, width);
        shown + repeat_char(filler, sat_sub(width as int, byte_len(shown) as int)) + row_end()
    } else {
        seq!['E', 'M', 'P', 'T', 'Y'] + repeat_char(filler, width as nat) + row_end()
    }
}

/// The index of the first `'\n'` in `s`, or its length.
pub open spec fn newline_of(s: Seq<char>) -> int
    decreases s.len(),
{
    if s.len() == 0 {
        0
    } else if s[0] == '\n' {
        0
    } else {
        1 + newline_of(s.drop_first())
    }
}

/// A line ended by `'\n'` without that ending: a `'\r'` before it goes too.
pub open spec fn strip_cr(l: Seq<char>) -> Seq<char> {
    if l.len() > 0 && l.last() == '\r' { l.drop_last() } else { l }
}

/// The lines of `s`, as `str::lines` gives them.
pub open spec fn lines_of(s: Seq<char>) -> Seq<Seq<char>>
    decreases s.len(),
{
    if s.len() == 0 {
        Seq::empty()
    } else {
        let k = newline_of(s);
        if k >= s.len() {
            seq![s]
        } else {
            proof {
                lemma_newline_of(s);
            }
            seq![strip_cr(s.take(k))] + lines_of(s.skip(k + 1))
        }
    }
}

/// The rows of the first `count` lines, one after the other.
pub open spec fn rows_of(lines: Seq<Seq<char>>, count: int, filler: char, offset: usize, width: usize) -> Seq<char>
    decreases count,
{
    if count <= 0 {
        Seq::empty()
    } else {
        rows_of(lines, count - 1, filler, offset, width) + formatted_line(
            lines[count - 1],
            filler,
            offset,
            width,
        )
    }
}

/// `count` rows of `width` fillers.
pub open spec fn filler_rows(filler: char, width: usize, count: nat) -> Seq<char>
    decreases count,
{
    if count == 0 {
        Seq::empty()
    } else {
        filler_rows(filler, width, (count - 1) as nat) + repeat_char(filler, width as nat)
            + row_end()
    }
}

/// A formatted screen: the rows of the first `height` lines, then filler
/// rows until `height` rows end in a newline.
pub open spec fn formatted_screen(view: Seq<char>, offset: usize, width: usize, height: usize) -> Seq<char> {
    let ls = lines_of(view);
    let n = if ls.len() < height { ls.len() as int } else { height as int };
    let body = rows_of(ls, n, ' ', offset, width);
    body + filler_rows(' ', width, sat_sub(height as int, count_of(body, '\n') as int))
}

/// The first newline of `s` lies within it and has none before it.
pub proof fn lemma_newline_of(s: Seq<char>)
    ensures
        0 <= newline_of(s) <= s.len(),
        newline_of(s) < s.len() ==> s[newline_of(s)] == '\n',
        forall|i: int| 0 <= i < newline_of(s) ==> s[i] != '\n',
    decreases s.len(),
{
    if s.len() > 0 && s[0] != '\n' {
        lemma_newline_of(s.drop_first());
        assert forall|i: int| 0 <= i < newline_of(s) implies s[i] != '\n' by {
            if i > 0 {
                assert(s[i] == s.drop_first()[i - 1]);
            }
        }
    }
}

/// How many times `chr` occurs in `string`.
pub fn count_char(string: &str, chr: char) -> (r: usize)
    ensures
        r == count_of(string@, chr),
{
    let chars = chars_of(string);
    let mut counter: usize = 0;
    let mut i: usize = 0;
    while i < chars.len()
        invariant
            i <= chars@.len(),
            chars@ == string@,
            counter == count_of(chars@.take(i as int), chr),
            counter <= i,
        decreases chars@.len() - i,
    {
        proof {
            assert(chars@.take(i + 1).drop_last() =~= chars@.take(i as int));
        }
        if chars[i] == chr {
            counter += 1;
        }
        i += 1;
    }
    proof {
        assert(chars@.take(chars@.len() as int) =~= chars@);
    }
    counter
}

/// `line` without its newlines.
pub fn remove_new_line(line: &str) -> (r: String)
    ensures
        r@ == remove_all(line@, '\n'),
{
    let chars = chars_of(line);
    let mut kept: Vec<char> = Vec::new();
    let mut i: usize = 0;
    while i < chars.len()
        invariant
            i <= chars@.len(),
            chars@ == line@,
            kept@ == remove_all(chars@.take(i as int), '\n'),
        decreases chars@.len() - i,
    {
        proof {
            assert(chars@.take(i + 1).drop_last() =~= chars@.take(i as int));
        }
        if chars[i] != '\n' {
            kept.push(chars[i]);
        }
        i += 1;
    }
    proof {
        assert(chars@.take(chars@.len() as int) =~= chars@);
    }
    string_of(kept.as_slice())
}

/// A boundary of a valid sequence past another boundary is a boundary of
/// the rest after that one.
proof fn lemma_boundary_in_rest(bytes: Seq<u8>, a: int, b: int)
    requires
        valid_utf8(bytes),
        0 <= a <= b <= bytes.len(),
        is_char_boundary(bytes, a),
        is_char_boundary(bytes, b),
    ensures
        valid_utf8(bytes.subrange(a, bytes.len() as int)),
        is_char_boundary(bytes.subrange(a, bytes.len() as int), b - a),
{
    let rest = bytes.subrange(a, bytes.len() as int);
    vstd::utf8::valid_utf8_split(bytes, a);
    if b - a == 0 {
    } else if b == bytes.len() {
        assert(rest.len() == b - a);
    } else {
        vstd::utf8::is_char_boundary_iff_not_is_continuation_byte(rest, b - a);
        vstd::utf8::is_char_boundary_iff_not_is_continuation_byte(bytes, b);
        assert(rest[b - a] == bytes[b]);
    }
}

/// The row for `line`, shown from byte `offset` and `width` bytes wide.
pub fn format_line(line: &str, filler: char, offset: usize, width: usize) -> (r: String)
    ensures
        r@ == formatted_line(line@, filler, offset, width),
{
    let len = line.len();
    let start = if offset < len {
        offset
    } else {
        len
    };
    let e = width.saturating_add(offset);
    let end = if len < e {
        len
    } else {
        e
    };
    let ghost bytes = encode_utf8(line@);
    proof {
        assert(sat_add(width, offset) == e);
        assert(start == cut_start(line@, offset));
        assert(end == cut_end(line@, offset, width));
    }
    if line.is_char_boundary(start) && line.is_char_boundary(end) {
        proof {
            lemma_boundary_in_rest(bytes, start as int, end as int);
        }
        let (_, rest) = line.split_at(start);
        let (piece, _) = rest.split_at(end - start);
        proof {
            assert(piece.spec_bytes() =~= bytes.subrange(start as int, end as int));
            assert(piece@ == decode_utf8(encode_utf8(piece@)));
        }
        let new = remove_new_line(piece);
        let shown_len = new.as_str().len();
        let space = if width > shown_len {
            width - shown_len
        } else {
            0
        };
        let mut out: Vec<char> = chars_of(new.as_str());
        push_repeat(&mut out, filler, space);
        out.push('\r');
        out.push('\n');
        proof {
            assert(out@ =~= formatted_line(line@, filler, offset, width));
        }
        return string_of(out.as_slice());
    }
    let mut out: Vec<char> = Vec::new();
    out.push('E');
    out.push('M');
    out.push('P');
    out.push('T');
    out.push('Y');
    push_repeat(&mut out, filler, width);
    out.push('\r');
    out.push('\n');
    proof {
        assert(out@ =~= formatted_line(line@, filler, offset, width));
    }
    string_of(out.as_slice())
}

/// Appends rows of filler until `height` rows end in a newline.
pub fn fill_rest_of_screen(formated_text: &mut String, filler: char, width: usize, height: usize)
    ensures
        final(formated_text)@ == old(formated_text)@ + filler_rows(
            filler,
            width,
            sat_sub(height as int, count_of(old(formated_text)@, '\n') as int),
        ),
{
    let lines = count_char(formated_text.as_str(), '\n');
    let count = if height > lines {
        height - lines
    } else {
        0
    };
    let mut out: Vec<char> = chars_of(formated_text.as_str());
    let ghost start = out@;
    let mut i: usize = 0;
    while i < count
        invariant
            i <= count,
            out@ == start + filler_rows(filler, width, i as nat),
        decreases count - i,
    {
        push_repeat(&mut out, filler, width);
        out.push('\r');
        out.push('\n');
        i += 1;
        proof {
            assert(out@ =~= start + filler_rows(filler, width, i as nat));
        }
    }
    *formated_text = string_of(out.as_slice());
}

/// The lines of `chars`, as `str::lines` splits them.
pub(crate) fn split_lines(chars: &Vec<char>) -> (r: Vec<Vec<char>>)
    ensures
        r@.map_values(|l: Vec<char>| l@) == lines_of(chars@),
{
    let n = chars.len();
    let mut out: Vec<Vec<char>> = Vec::new();
    let mut pos: usize = 0;
    proof {
        assert(chars@.skip(0) =~= chars@);
        assert(out@.map_values(|l: Vec<char>| l@) + lines_of(chars@.skip(0)) =~= lines_of(chars@));
    }
    while pos < n
        invariant
            n == chars@.len(),
            pos <= n,
            out@.map_values(|l: Vec<char>| l@) + lines_of(chars@.skip(pos as int)) == lines_of(
                chars@,
            ),
        decreases n - pos,
    {
        let ghost s = chars@.skip(pos as int);
        let mut k = pos;
        while k < n && chars[k] != '\n'
            invariant
                n == chars@.len(),
                pos <= k <= n,
                s == chars@.skip(pos as int),
                forall|i: int| pos <= i < k ==> chars@[i] != '\n',
            decreases n - k,
        {
            k += 1;
        }
        proof {
            lemma_newline_of(s);
            if newline_of(s) < k - pos {
                assert(s[newline_of(s)] == chars@[pos + newline_of(s)]);
            }
            if k < n {
                assert(s[k - pos] == '\n');
            }
            assert(newline_of(s) == k - pos);
        }
        let ghost before = out@.map_values(|l: Vec<char>| l@);
        if k < n {
            let mut line = crate::strings::slice_chars(chars.as_slice(), pos, k);
            if line.len() > 0 && line[line.len() - 1] == '\r' {
                line.pop();
            }
            proof {
                assert(line@ =~= strip_cr(s.take(k - pos)));
                assert(chars@.skip(k + 1) =~= s.skip(k - pos + 1));
            }
            out.push(line);
            let ghost p0 = pos;
            pos = k + 1;
            proof {
                assert(out@.map_values(|l: Vec<char>| l@) =~= before.push(strip_cr(s.take(k - p0))));
                assert(lines_of(s) == seq![strip_cr(s.take(newline_of(s)))] + lines_of(s.skip(newline_of(s) + 1)));
                assert(out@.map_values(|l: Vec<char>| l@) + lines_of(chars@.skip(pos as int)) =~= before + lines_of(s));
            }
        } else {
            let line = crate::strings::slice_chars(chars.as_slice(), pos, n);
            proof {
                assert(line@ =~= s);
            }
            out.push(line);
            pos = n;
            proof {
                assert(chars@.skip(n as int) =~= Seq::<char>::empty());
                assert(lines_of(Seq::<char>::empty()) =~= Seq::<Seq<char>>::empty());
                assert(out@.map_values(|l: Vec<char>| l@) =~= before.push(s));
                assert(out@.map_values(|l: Vec<char>| l@) + lines_of(chars@.skip(pos as int)) =~= before + lines_of(s));
            }
        }
    }
    proof {
        assert(chars@.skip(n as int) =~= Seq::<char>::empty());
        assert(out@.map_values(|l: Vec<char>| l@) + lines_of(Seq::<char>::empty()) =~= out@.map_values(|l: Vec<char>| l@));
    }
    out
}

/// The screen for the text in view: the first `height` lines formatted,
/// then filler rows up to `height`.
pub fn format_screen(view: &str, offset: usize, width: usize, height: usize) -> (r: String)
    ensures
        r@ == formatted_screen(view@, offset, width, height),
{
    let filler = ' ';
    let chars = chars_of(view);
    let lines = split_lines(&chars);
    let ghost ls = lines_of(view@);
    let n = if lines.len() < height {
        lines.len()
    } else {
        height
    };
    let mut new: Vec<char> = Vec::new();
    let mut y: usize = 0;
    while y < n
        invariant
            n <= lines@.len(),
            lines@.map_values(|l: Vec<char>| l@) == ls,
            y <= n,
            new@ == rows_of(ls, y as int, filler, offset, width),
        decreases n - y,
    {
        let line = string_of(lines[y].as_slice());
        proof {
            assert(line@ == ls[y as int]);
        }
        let row = format_line(line.as_str(), filler, offset, width);
        extend_chars(&mut new, chars_of(row.as_str()).as_slice());
        y += 1;
    }
    let mut text = string_of(new.as_slice());
    fill_rest_of_screen(&mut text, filler, width, height);
    text
}

} // verus!
