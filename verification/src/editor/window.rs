//! A window onto a rope: where it stands on the terminal, how far it is
//! scrolled into the file, and a cursor that moves over the text.
use ropey::Rope;
use vstd::prelude::*;
use crate::editor::position::{pos_text, Position};
use crate::engine::mode::mode_name;
use crate::engine::text_formater::{
    byte_len, count_char, fill_rest_of_screen, filler_rows, lines_of, row_end, split_lines,
};
use vstd::string::StringSliceAdditionalSpecFns;
use vstd::utf8::{decode_utf8, encode_utf8, is_char_boundary};
use crate::engine::mode::Mode;
use crate::rope::{
    line_count, line_start, line_text, rope_char_to_line, rope_insert_char, rope_len_chars,
    rope_len_lines, rope_line_len, rope_line_string, rope_line_to_char, rope_remove, rope_text,
};
use crate::editor::state::lemma_count_concat;
use crate::strings::{
    chars_of, count_of, extend_chars, push_repeat, repeat_char, string_from, string_of,
};

verus! {

broadcast use {
    vstd::utf8::encode_utf8_valid_utf8,
    vstd::utf8::encode_utf8_decode_utf8,
    vstd::utf8::is_char_boundary_start_end_of_seq,
};

/// What a window holds, with its text as a sequence of characters.
pub struct WindowView {
    pub mode: Mode,
    pub dimensions: Position,
    pub window_offset: Position,
    pub scroll_offset: Position,
    pub cursor: Position,
    pub max_cursor: Position,
    pub text: Seq<char>,
    pub name: Option<Seq<char>>,
    pub debug: Seq<char>,
}

/// A window: its mode, its size, where it stands on the terminal, how far
/// it is scrolled into the file, its cursor (relative to the window), the
/// column the cursor returns to on its way up and down, the text and the
/// name of its file.
#[derive(Debug, Clone)]
pub struct Window {
    /// Mode of the window.
    pub mode: Mode,
    /// Size of the window.
    pub dimensions: Position,
    /// Location of the window on the terminal.
    pub window_offset: Position,
    /// Location of the window in the file.
    pub scroll_offset: Position,
    /// Cursor location in the window.
    pub cursor: Position,
    /// Furthest from 0 the cursor has been.
    pub max_cursor: Position,
    /// Text of the file.
    pub buffer: Rope,
    /// Name of the file.
    pub name: Option<String>,
    pub debug: String,
}

impl View for Window {
    type V = WindowView;

    open spec fn view(&self) -> WindowView {
        WindowView {
            mode: self.mode,
            dimensions: self.dimensions,
            window_offset: self.window_offset,
            scroll_offset: self.scroll_offset,
            cursor: self.cursor,
            max_cursor: self.max_cursor,
            text: rope_text(self.buffer),
            name: match self.name {
                Some(n) => Some(n@),
                None => None,
            },
            debug: self.debug@,
        }
    }
}

/// `a + b`, stopping at `usize::MAX`.
pub open spec fn sat_add(a: usize, b: usize) -> usize {
    if a + b > usize::MAX { usize::MAX } else { (a + b) as usize }
}

/// `a - b`, stopping at 0.
pub open spec fn sat_sub(a: usize, b: usize) -> usize {
    if a > b { (a - b) as usize } else { 0 }
}

/// The line of the file the cursor is on.
pub open spec fn file_row(v: WindowView) -> int {
    v.cursor.y + v.scroll_offset.y
}

/// The length of line `row` of `text`, its line break included.
pub open spec fn row_len(text: Seq<char>, row: int) -> int {
    line_text(text, row as nat).len() as int
}

/// Whether the cursor's line can be read: it is a line of the text.
pub open spec fn adjust_ok(v: WindowView) -> bool {
    file_row(v) < line_count(v.text)
}

/// The cursor pulled back to the end of its line when it is past it.
pub open spec fn adjusted(v: WindowView) -> WindowView {
    let len = row_len(v.text, file_row(v));
    WindowView {
        cursor: Position {
            x: if len < v.cursor.x { len as usize } else { v.cursor.x },
            y: v.cursor.y,
        },
        ..v
    }
}

/// The window after moving the cursor `cols` columns left, stopping at
/// the first column; the column is remembered.
pub closed spec fn moved_left(v: WindowView, cols: usize) -> WindowView {
    let x = sat_sub(v.cursor.x, cols);
    WindowView {
        cursor: Position { x, y: v.cursor.y },
        max_cursor: Position { x, y: v.max_cursor.y },
        ..v
    }
}

/// The window after moving the cursor `cols` columns right, stopping at
/// the end of the line; the column is remembered.
pub closed spec fn moved_right(v: WindowView, cols: usize) -> WindowView {
    let a = adjusted(WindowView { cursor: Position { x: sat_add(v.cursor.x, cols), y: v.cursor.y }, ..v });
    WindowView { max_cursor: Position { x: a.cursor.x, y: v.max_cursor.y }, ..a }
}

/// The line a move of `lines` down aims at: the last line at most.
pub open spec fn down_target(v: WindowView, lines: usize) -> int {
    let limit = line_count(v.text) - 1;
    if v.cursor.y + lines < limit { v.cursor.y + lines } else { limit }
}

/// Whether the window scrolls on a move of `lines` down: the target is at
/// or below the bottom of the window.
pub open spec fn down_scrolls(v: WindowView, lines: usize) -> bool {
    down_target(v, lines) >= v.window_offset.y + v.dimensions.y
}

/// The window after a move of `lines` down, before the column is set.
pub open spec fn down_moved(v: WindowView, lines: usize) -> WindowView {
    let target = down_target(v, lines);
    let bottom = v.window_offset.y + v.dimensions.y;
    if down_scrolls(v, lines) {
        WindowView {
            scroll_offset: Position {
                x: v.scroll_offset.x,
                y: sat_add(v.scroll_offset.y, (target - bottom + 1) as usize),
            },
            cursor: Position { x: v.max_cursor.x, y: v.cursor.y },
            ..v
        }
    } else {
        WindowView { cursor: Position { x: v.max_cursor.x, y: target as usize }, ..v }
    }
}

/// The window after a move of `lines` down: the cursor goes to the target
/// line, or the window scrolls when the target is past its bottom; the
/// cursor takes the remembered column, clipped to its line.
pub closed spec fn moved_down(v: WindowView, lines: usize) -> WindowView {
    adjusted(down_moved(v, lines))
}

/// When a move of `lines` down does not overflow and ends on a line of the
/// text.
pub open spec fn down_ok(v: WindowView, lines: usize) -> bool {
    &&& v.cursor.y + lines <= usize::MAX
    &&& v.cursor.y < line_count(v.text)
    &&& v.window_offset.y + v.dimensions.y <= usize::MAX
    &&& file_row(down_moved(v, lines)) <= usize::MAX
    &&& adjust_ok(down_moved(v, lines))
}

/// The line a move of `lines` up aims at: the first line at least.
pub open spec fn up_target(v: WindowView, lines: usize) -> usize {
    sat_sub(v.cursor.y, lines)
}

/// Whether the window scrolls on a move up: the target is its top line and
/// the cursor is on the first row of the terminal.
pub open spec fn up_scrolls(v: WindowView, lines: usize) -> bool {
    up_target(v, lines) == v.window_offset.y && v.cursor.y + v.window_offset.y == 0
}

/// The window after a move of `lines` up, before the column is clipped.
pub open spec fn up_moved(v: WindowView, lines: usize) -> WindowView {
    let target = up_target(v, lines);
    WindowView {
        scroll_offset: if up_scrolls(v, lines) {
            Position { x: v.scroll_offset.x, y: sat_sub(sat_sub(v.scroll_offset.y, target), 1) }
        } else {
            v.scroll_offset
        },
        cursor: Position { x: v.max_cursor.x, y: target },
        ..v
    }
}

/// The window after a move of `lines` up: the cursor goes to the target
/// line, the window scrolls one line up when the cursor is at its top, and
/// the cursor takes the remembered column, clipped to its line.
pub closed spec fn moved_up(v: WindowView, lines: usize) -> WindowView {
    adjusted(up_moved(v, lines))
}

/// When a move up does not overflow and ends on a line of the text.
pub open spec fn up_ok(v: WindowView, lines: usize) -> bool {
    &&& v.cursor.x + v.window_offset.x <= usize::MAX
    &&& v.cursor.y + v.window_offset.y <= usize::MAX
    &&& file_row(up_moved(v, lines)) <= usize::MAX
    &&& adjust_ok(up_moved(v, lines))
}


/// The cursor's place in the file.
pub open spec fn file_pos(v: WindowView) -> Position {
    Position {
        x: (v.cursor.x + v.scroll_offset.x) as usize,
        y: (v.cursor.y + v.scroll_offset.y) as usize,
    }
}

/// The cursor's place in the file can be computed without overflow.
pub open spec fn file_pos_ok(v: WindowView) -> bool {
    v.cursor.x + v.scroll_offset.x <= usize::MAX && v.cursor.y + v.scroll_offset.y <= usize::MAX
}

/// The index in the text of the cursor's place in the file.
pub open spec fn char_index(v: WindowView) -> int {
    line_start(v.text, file_pos(v).y as nat) + file_pos(v).x
}

/// `text` with `c` inserted before index `i`.
pub open spec fn inserted_at(text: Seq<char>, i: int, c: char) -> Seq<char> {
    text.take(i).push(c) + text.skip(i)
}

/// `text` without the character at index `i`.
pub open spec fn removed_at(text: Seq<char>, i: int) -> Seq<char> {
    text.take(i) + text.skip(i + 1)
}

/// The window with `text` in place of its text.
pub open spec fn with_text(v: WindowView, text: Seq<char>) -> WindowView {
    WindowView { text, ..v }
}

/// The window after typing `c`: it goes in before the cursor, which moves
/// one column right.
pub closed spec fn char_inserted(v: WindowView, c: char) -> WindowView {
    moved_right(with_text(v, inserted_at(v.text, char_index(v), c)), 1)
}

/// When typing `c` stays within the text and the cursor's line.
pub open spec fn insert_ok(v: WindowView, c: char) -> bool {
    &&& file_pos_ok(v)
    &&& file_pos(v).y <= line_count(v.text)
    &&& char_index(v) <= v.text.len()
    &&& adjust_ok(with_text(v, inserted_at(v.text, char_index(v), c)))
}

/// The window after a new line is typed: the line break goes in, the
/// cursor moves one line down to the first column.
pub closed spec fn enter_inserted(v: WindowView) -> WindowView {
    let d = moved_down(char_inserted(v, '\n'), 1);
    WindowView { cursor: Position { x: 0, y: d.cursor.y }, ..d }
}

/// When typing a new line stays within the text.
pub open spec fn enter_ok(v: WindowView) -> bool {
    insert_ok(v, '\n') && down_ok(char_inserted(v, '\n'), 1)
}

/// Whether backspace does nothing: the cursor is at the file's origin (as
/// 16-bit numbers).
pub open spec fn backspace_skips(v: WindowView) -> bool {
    file_pos(v).x as u16 == 0 && file_pos(v).y as u16 == 0
}

/// The index of the character backspace removes: the one before the cursor.
pub open spec fn backspace_index(v: WindowView) -> int {
    char_index(v) - 1
}

/// The line the character before the removed one ends up on.
pub open spec fn backspace_line(v: WindowView) -> nat {
    count_of(removed_at(v.text, backspace_index(v)).take(backspace_index(v)), '\n')
}

/// The window after the removal, moved one line up when the removal joined
/// the cursor's line to the one above.
pub open spec fn backspace_moved(v: WindowView) -> WindowView {
    let r = with_text(v, removed_at(v.text, backspace_index(v)));
    if backspace_line(v) != file_pos(v).y { moved_up(r, 1) } else { r }
}

/// The window after backspace: the character before the cursor is removed
/// and the cursor goes to where it stood.
pub closed spec fn backspaced(v: WindowView) -> WindowView {
    if backspace_skips(v) {
        v
    } else {
        let m = backspace_moved(v);
        WindowView {
            cursor: Position {
                x: (backspace_index(v) - line_start(m.text, backspace_line(v))) as usize,
                y: m.cursor.y,
            },
            ..m
        }
    }
}

/// When backspace stays within the text.
pub open spec fn backspace_ok(v: WindowView) -> bool {
    &&& file_pos_ok(v)
    &&& !backspace_skips(v) ==> {
        &&& file_pos(v).y <= line_count(v.text)
        &&& 1 <= char_index(v) <= v.text.len()
        &&& backspace_line(v) != file_pos(v).y ==> up_ok(
            with_text(v, removed_at(v.text, backspace_index(v))),
            1,
        )
    }
}

/// The window after delete: the character under the cursor is removed, if
/// there is one, and the cursor is pulled back into its line.
pub closed spec fn char_deleted(v: WindowView) -> WindowView {
    let i = char_index(v);
    adjusted(with_text(v, if i < v.text.len() { removed_at(v.text, i) } else { v.text }))
}

/// When delete stays within the text.
pub open spec fn delete_ok(v: WindowView) -> bool {
    let i = char_index(v);
    &&& file_pos_ok(v)
    &&& file_pos(v).y <= line_count(v.text)
    &&& i <= usize::MAX
    &&& adjust_ok(with_text(v, if i < v.text.len() { removed_at(v.text, i) } else { v.text }))
}

/// The window after the cursor's line is removed, break included, and the
/// cursor pulled back into the line that takes its place.
pub closed spec fn line_deleted(v: WindowView) -> WindowView {
    let t = v.text;
    let y = file_pos(v).y as nat;
    adjusted(with_text(v, t.take(line_start(t, y) as int) + t.skip(line_start(t, y + 1) as int)))
}

/// When removing the cursor's line stays within the text.
pub open spec fn delete_line_ok(v: WindowView) -> bool {
    let t = v.text;
    let y = file_pos(v).y as nat;
    &&& file_pos_ok(v)
    &&& y < line_count(t)
    &&& adjust_ok(with_text(v, t.take(line_start(t, y) as int) + t.skip(line_start(t, y + 1) as int)))
}

/// The number of line breaks in `s` from its first character on.
pub proof fn lemma_count_first(s: Seq<char>, c: char)
    requires
        s.len() > 0,
    ensures
        count_of(s, c) == count_of(s.drop_first(), c) + if s[0] == c { 1nat } else { 0nat },
    decreases s.len(),
{
    if s.len() > 1 {
        lemma_count_first(s.drop_last(), c);
        assert(s.drop_last().drop_first() =~= s.drop_first().drop_last());
        assert(s.drop_first().last() == s.last());
        assert(s.drop_last()[0] == s[0]);
        assert(count_of(s, c) == count_of(s.drop_last(), c) + if s.last() == c { 1nat } else { 0nat });
        assert(count_of(s.drop_first(), c) == count_of(s.drop_first().drop_last(), c) + if s.last() == c { 1nat } else { 0nat });
    } else {
        assert(s.drop_first().len() == 0);
        assert(s.drop_last().len() == 0);
        assert(s.last() == s[0]);
        assert(count_of(s.drop_first(), c) == 0);
        assert(count_of(s.drop_last(), c) == 0);
        assert(count_of(s, c) == count_of(s.drop_last(), c) + if s.last() == c { 1nat } else { 0nat });
    }
}

/// A prefix holds no more of `c` than the whole.
pub proof fn lemma_count_prefix(s: Seq<char>, c: char, i: int)
    requires
        0 <= i <= s.len(),
    ensures
        count_of(s.take(i), c) <= count_of(s, c),
    decreases s.len(),
{
    if i < s.len() {
        assert(s.take(i) =~= s.drop_last().take(i));
        lemma_count_prefix(s.drop_last(), c, i);
    } else {
        assert(s.take(i) =~= s);
    }
}

/// The line holding index `i` starts at or before `i`.
pub proof fn lemma_line_of_index(s: Seq<char>, i: int)
    requires
        0 <= i <= s.len(),
    ensures
        line_start(s, count_of(s.take(i), '\n')) <= i,
    decreases s.len(),
{
    let k = count_of(s.take(i), '\n');
    if i > 0 {
        lemma_count_first(s.take(i), '\n');
        assert(s.take(i).drop_first() =~= s.drop_first().take(i - 1));
        lemma_line_of_index(s.drop_first(), i - 1);
    } else {
        assert(s.take(i).len() == 0);
    }
}

/// The starts of the lines whose breaks lie in `p` are those of `p`,
/// whatever follows it.
pub proof fn lemma_line_start_prefix(p: Seq<char>, r: Seq<char>, k: nat)
    requires
        k <= count_of(p, '\n'),
    ensures
        line_start(p + r, k) == line_start(p, k),
    decreases p.len(),
{
    if k > 0 {
        lemma_count_first(p, '\n');
        assert((p + r).drop_first() =~= p.drop_first() + r);
        assert((p + r)[0] == p[0]);
        if p[0] == '\n' {
            lemma_line_start_prefix(p.drop_first(), r, (k - 1) as nat);
        } else {
            lemma_line_start_prefix(p.drop_first(), r, k);
        }
    }
}

/// The starts of the lines past the breaks of `p` lie in what follows it.
pub proof fn lemma_line_start_suffix(p: Seq<char>, r: Seq<char>, k: nat)
    requires
        k > count_of(p, '\n'),
    ensures
        line_start(p + r, k) == p.len() + line_start(r, (k - count_of(p, '\n')) as nat),
    decreases p.len(),
{
    if p.len() == 0 {
        assert(p + r =~= r);
    } else {
        lemma_count_first(p, '\n');
        assert((p + r).drop_first() =~= p.drop_first() + r);
        assert((p + r)[0] == p[0]);
        if p[0] == '\n' {
            lemma_line_start_suffix(p.drop_first(), r, (k - 1) as nat);
        } else {
            lemma_line_start_suffix(p.drop_first(), r, k);
        }
    }
}

/// Backspace removes a character just typed: typing `c` (not a line
/// break) where it stays on the cursor's line, then backspace, leaves the
/// text as it was.
pub proof fn lemma_backspace_undoes_typing(v: WindowView, c: char)
    requires
        v.text.len() < usize::MAX,
        c != '\n',
        insert_ok(v, c),
        char_index(v) < line_start(v.text, (file_pos(v).y + 1) as nat) || file_pos(v).y == count_of(
            v.text,
            '\n',
        ),
        backspace_ok(char_inserted(v, c)),
        !backspace_skips(char_inserted(v, c)),
    ensures
        backspaced(char_inserted(v, c)).text == v.text,
{
    let t = v.text;
    let fy = file_pos(v).y as nat;
    let fx = file_pos(v).x;
    let idx = char_index(v);
    let p = t.take(idx);
    let q = t.skip(idx);
    let t2 = inserted_at(t, idx, c);
    assert(t =~= p + q);
    assert(t2 =~= p + (seq![c] + q));
    lemma_line_start_monotone(t, fy);
    lemma_line_start_monotone(t2, fy);
    // the cursor's line starts at or before `idx`, so its break is in `p`
    if fy > count_of(p, '\n') {
        lemma_line_start_suffix(p, q, fy);
        lemma_count_prefix(t, '\n', idx);
        assert(q.len() == 0);
        assert(false);
    }
    lemma_line_start_prefix(p, q, fy);
    lemma_line_start_prefix(p, seq![c] + q, fy);
    assert(line_start(t2, fy) == line_start(t, fy));
    // the next line's break is not in `p`
    if count_of(p, '\n') > fy {
        lemma_line_start_prefix(p, q, fy + 1);
        lemma_line_start_monotone(p, fy);
        lemma_count_prefix(t, '\n', idx);
        assert(false);
    }
    lemma_line_start_suffix(p, q, fy + 1);
    lemma_line_start_suffix(p, seq![c] + q, fy + 1);
    assert((seq![c] + q).drop_first() =~= q);
    assert(line_start(t2, fy + 1) == line_start(t, fy + 1) + 1);
    let w = with_text(v, t2);
    let v2 = char_inserted(v, c);
    assert(v2.cursor.x == v.cursor.x + 1);
    assert(file_pos(v2).y == fy);
    assert(backspace_index(v2) == idx);
    assert(removed_at(t2, idx) =~= t);
}

/// Lines start in order, within the text.
pub proof fn lemma_line_start_monotone(s: Seq<char>, k: nat)
    ensures
        line_start(s, k) <= line_start(s, k + 1) <= s.len(),
    decreases s.len(),
{
    if s.len() > 0 {
        let t = s.drop_first();
        if s[0] == '\n' {
            if k > 0 {
                lemma_line_start_monotone(t, (k - 1) as nat);
                assert(line_start(s, k) == 1 + line_start(t, (k - 1) as nat));
                assert(line_start(s, k + 1) == 1 + line_start(t, k));
            } else {
                assert(line_start(s, 1) == 1 + line_start(t, 0));
            }
        } else {
            lemma_line_start_monotone(t, k);
            assert(line_start(s, k + 1) == 1 + line_start(t, k + 1));
            assert(k > 0 ==> line_start(s, k) == 1 + line_start(t, k));
        }
    }
}

/// The name of the window's file, or `UNNAMED`.
pub open spec fn name_text(v: WindowView) -> Seq<char> {
    match v.name {
        Some(n) => n,
        None => "UNNAMED"@,
    }
}

/// The cursor's place on the terminal.
pub open spec fn screen_pos(v: WindowView) -> Position {
    Position {
        x: (v.cursor.x + v.window_offset.x) as usize,
        y: (v.cursor.y + v.window_offset.y) as usize,
    }
}

/// The cursor's place on the terminal can be computed without overflow.
pub open spec fn screen_pos_ok(v: WindowView) -> bool {
    v.cursor.x + v.window_offset.x <= usize::MAX && v.cursor.y + v.window_offset.y <= usize::MAX
}

/// The left part of the status bar: ` mode | name `.
pub open spec fn status_left(v: WindowView) -> Seq<char> {
    seq![' '] + mode_name(v.mode) + seq![' ', '|', ' '] + name_text(v) + seq![' ']
}

/// The right part of the status bar: ` screen | file `, each place as
/// `x/y`.
pub open spec fn status_right(v: WindowView) -> Seq<char> {
    seq![' '] + pos_text(screen_pos(v)) + seq![' ', '|', ' '] + pos_text(file_pos(v)) + seq![' ']
}

/// The status bar: its left and right parts, then as many spaces as they
/// have bytes.
pub closed spec fn status_text(v: WindowView) -> Seq<char> {
    let l = status_left(v);
    let r = status_right(v);
    l + r + repeat_char(' ', (byte_len(l) + byte_len(r)) as nat)
}

/// The first `k` bytes of `line` (all of it when shorter), or nothing when
/// that would cut a character.
pub open spec fn byte_prefix(line: Seq<char>, k: usize) -> Seq<char> {
    let len = byte_len(line);
    let e = if len < k { len } else { k };
    if is_char_boundary(encode_utf8(line), e as int) {
        decode_utf8(encode_utf8(line).subrange(0, e as int))
    } else {
        Seq::empty()
    }
}

/// `s` with each tab replaced by four spaces.
pub open spec fn expand_tabs(s: Seq<char>) -> Seq<char>
    decreases s.len(),
{
    if s.len() == 0 {
        s
    } else if s.last() == '\t' {
        expand_tabs(s.drop_last()) + seq![' ', ' ', ' ', ' ']
    } else {
        expand_tabs(s.drop_last()).push(s.last())
    }
}

/// The width left for a line once its tabs are counted three bytes wider.
pub open spec fn tab_width(line: Seq<char>, width: usize) -> usize {
    let tabs = count_of(byte_prefix(line, width), '\t');
    if width > 3 * tabs { (width - 3 * tabs) as usize } else { 0 }
}

/// A row of the window: the line cut to the width left by its tabs, tabs
/// spread to four spaces, padded with spaces to `width` bytes.
pub open spec fn window_row(line: Seq<char>, width: usize) -> Seq<char> {
    let shown = expand_tabs(byte_prefix(line, tab_width(line, width)));
    let pad = if width > byte_len(shown) { width - byte_len(shown) } else { 0 };
    shown + repeat_char(' ', pad as nat) + row_end()
}

/// The rows of the first `count` lines.
pub open spec fn window_rows(lines: Seq<Seq<char>>, count: int, width: usize) -> Seq<char>
    decreases count,
{
    if count <= 0 {
        Seq::empty()
    } else {
        window_rows(lines, count - 1, width) + window_row(lines[count - 1], width)
    }
}

/// The number of lines of `text` a window of `height` rows shows.
pub open spec fn shown_lines(text: Seq<char>, height: usize) -> int {
    let n = lines_of(text).len();
    if n < height { n as int } else { height as int }
}

/// The text of a window: the rows of its first `height` lines, then rows
/// of spaces until `height` rows end in a newline.
pub open spec fn formatted_window(text: Seq<char>, width: usize, height: usize) -> Seq<char> {
    let body = window_rows(lines_of(text), shown_lines(text, height), width);
    let c = count_of(body, '\n');
    body + filler_rows(' ', width, if height > c { (height - c) as nat } else { 0 })
}

/// The tabs of each shown line can be counted three bytes wide without
/// overflow.
pub open spec fn tabs_fit(text: Seq<char>, width: usize, height: usize) -> bool {
    forall|i: int|
        0 <= i < shown_lines(text, height) ==> 3 * count_of(
            byte_prefix(#[trigger] lines_of(text)[i], width),
            '\t',
        ) <= usize::MAX
}

/// Lines `top .. top + count` of `text`, breaks included, one after the
/// other.
pub open spec fn lines_joined(text: Seq<char>, top: nat, count: nat) -> Seq<char>
    decreases count,
{
    if count == 0 {
        Seq::empty()
    } else {
        lines_joined(text, top, (count - 1) as nat) + line_text(text, (top + count - 1) as nat)
    }
}

/// The part of the file in view: the lines from the scroll offset on, as
/// many as the height plus the scroll offset, as far as the file goes.
pub open spec fn view_source(v: WindowView) -> Seq<char> {
    let top = v.scroll_offset.y;
    let bottom = v.dimensions.y + top;
    let rest = line_count(v.text) - top;
    lines_joined(v.text, top as nat, if bottom < rest { bottom as nat } else { rest as nat })
}

/// The window's text as it is drawn.
pub closed spec fn window_text(v: WindowView) -> Seq<char> {
    formatted_window(view_source(v), v.dimensions.x, v.dimensions.y)
}

/// What each change of a window is, stated over the open definitions, for
/// callers outside this module: the moves, the edits, the status bar and
/// the drawn text.
pub proof fn lemma_window_definitions(v: WindowView, n: usize, c: char)
    ensures
        moved_left(v, n) == (WindowView {
            cursor: Position { x: sat_sub(v.cursor.x, n), y: v.cursor.y },
            max_cursor: Position { x: sat_sub(v.cursor.x, n), y: v.max_cursor.y },
            ..v
        }),
        moved_right(v, n) == ({
            let a = adjusted(WindowView { cursor: Position { x: sat_add(v.cursor.x, n), y: v.cursor.y }, ..v });
            WindowView { max_cursor: Position { x: a.cursor.x, y: v.max_cursor.y }, ..a }
        }),
        moved_down(v, n) == adjusted(down_moved(v, n)),
        moved_up(v, n) == adjusted(up_moved(v, n)),
        char_inserted(v, c) == moved_right(with_text(v, inserted_at(v.text, char_index(v), c)), 1),
        enter_inserted(v) == ({
            let d = moved_down(char_inserted(v, '\n'), 1);
            WindowView { cursor: Position { x: 0, y: d.cursor.y }, ..d }
        }),
        backspaced(v) == (if backspace_skips(v) {
            v
        } else {
            let m = backspace_moved(v);
            WindowView {
                cursor: Position {
                    x: (backspace_index(v) - line_start(m.text, backspace_line(v))) as usize,
                    y: m.cursor.y,
                },
                ..m
            }
        }),
        char_deleted(v) == ({
            let i = char_index(v);
            adjusted(with_text(v, if i < v.text.len() { removed_at(v.text, i) } else { v.text }))
        }),
        line_deleted(v) == ({
            let t = v.text;
            let y = file_pos(v).y as nat;
            adjusted(with_text(v, t.take(line_start(t, y) as int) + t.skip(line_start(t, y + 1) as int)))
        }),
        status_text(v) == status_left(v) + status_right(v) + repeat_char(
            ' ',
            (byte_len(status_left(v)) + byte_len(status_right(v))) as nat,
        ),
        window_text(v) == formatted_window(view_source(v), v.dimensions.x, v.dimensions.y),
{
}

/// Moving left `n` columns lands `n` columns to the left, or on the first
/// column, on the same row, remembering that column; two moves left make
/// one move of their sum. Moving right `n` columns lands `n` columns to the
/// right, or at the end of the cursor's line, on the same row, remembering
/// that column.
pub proof fn lemma_horizontal_moves(v: WindowView, n: usize, m: usize)
    ensures
        moved_left(v, n).cursor.x == (if v.cursor.x >= n { v.cursor.x - n } else { 0 }),
        moved_left(v, n).cursor.y == v.cursor.y,
        moved_left(v, n).max_cursor.x == moved_left(v, n).cursor.x,
        moved_left(v, n).text == v.text && moved_left(v, n).scroll_offset == v.scroll_offset,
        n + m <= usize::MAX ==> moved_left(moved_left(v, n), m).cursor == moved_left(
            v,
            (n + m) as usize,
        ).cursor,
        v.cursor.x + n <= usize::MAX ==> moved_right(v, n).cursor.x == (if v.cursor.x + n
            <= row_len(v.text, file_row(v)) {
            v.cursor.x + n
        } else {
            row_len(v.text, file_row(v))
        }),
        moved_right(v, n).cursor.y == v.cursor.y,
        moved_right(v, n).max_cursor.x == moved_right(v, n).cursor.x,
        moved_right(v, n).text == v.text && moved_right(v, n).scroll_offset == v.scroll_offset,
{
}

/// A move up or down takes the remembered column, pulled back to the end
/// of the line it lands on, and keeps the remembered column and the text.
pub proof fn lemma_vertical_column(v: WindowView, n: usize)
    ensures
        moved_down(v, n).cursor.x == (if v.max_cursor.x <= row_len(
            v.text,
            file_row(moved_down(v, n)),
        ) {
            v.max_cursor.x as int
        } else {
            row_len(v.text, file_row(moved_down(v, n)))
        }),
        moved_down(v, n).max_cursor == v.max_cursor && moved_down(v, n).text == v.text,
        moved_up(v, n).cursor.x == (if v.max_cursor.x <= row_len(v.text, file_row(moved_up(v, n))) {
            v.max_cursor.x as int
        } else {
            row_len(v.text, file_row(moved_up(v, n)))
        }),
        moved_up(v, n).max_cursor == v.max_cursor && moved_up(v, n).text == v.text,
{
}

/// Moving up one line, from a line below the first of the file, puts the
/// cursor on the line just above in the file, when the cursor is below the
/// window's top row or the window stands at the top of the terminal. From
/// the top row of a window scrolled down, the window scrolls back exactly
/// one line and the cursor stays on that row; from a lower row, the cursor
/// goes one row up and the window does not scroll.
pub proof fn lemma_up_one_line(v: WindowView)
    requires
        file_row(v) > 0,
        v.cursor.y > 0 || v.window_offset.y == 0,
    ensures
        file_row(moved_up(v, 1)) == file_row(v) - 1,
        v.cursor.y == 0 ==> moved_up(v, 1).scroll_offset.y == v.scroll_offset.y - 1
            && moved_up(v, 1).cursor.y == 0,
        v.cursor.y > 0 ==> moved_up(v, 1).scroll_offset == v.scroll_offset
            && moved_up(v, 1).cursor.y == v.cursor.y - 1,
{
}

/// Moving down one line, from a row of the window no lower than its bottom
/// one and with a line of the text below, puts the cursor on the line just
/// below in the file: from the bottom row the window scrolls down exactly
/// one line, from a higher row the cursor goes one row down.
pub proof fn lemma_down_one_line(v: WindowView)
    requires
        v.cursor.y + 1 <= v.window_offset.y + v.dimensions.y,
        v.cursor.y + 2 <= line_count(v.text),
        v.cursor.y < usize::MAX,
        v.scroll_offset.y < usize::MAX,
    ensures
        file_row(moved_down(v, 1)) == file_row(v) + 1,
        v.cursor.y + 1 == v.window_offset.y + v.dimensions.y ==> moved_down(v, 1).scroll_offset.y
            == v.scroll_offset.y + 1 && moved_down(v, 1).cursor.y == v.cursor.y,
        v.cursor.y + 1 < v.window_offset.y + v.dimensions.y ==> moved_down(v, 1).scroll_offset
            == v.scroll_offset && moved_down(v, 1).cursor.y == v.cursor.y + 1,
{
}

/// Line starts do not decrease, and stay within the text.
proof fn lemma_line_start_le(t: Seq<char>, a: nat, b: nat)
    requires
        a <= b,
    ensures
        line_start(t, a) <= line_start(t, b) <= t.len(),
    decreases b - a,
{
    lemma_line_start_monotone(t, a);
    if a < b {
        lemma_line_start_le(t, a, (b - 1) as nat);
        lemma_line_start_monotone(t, (b - 1) as nat);
    }
}

/// Lines `top .. top + count` joined are the text from the start of line
/// `top` to the start of line `top + count`.
proof fn lemma_lines_joined_slice(t: Seq<char>, top: nat, count: nat)
    ensures
        lines_joined(t, top, count) == t.subrange(
            line_start(t, top) as int,
            line_start(t, top + count) as int,
        ),
    decreases count,
{
    lemma_line_start_le(t, top, top + count);
    if count == 0 {
        assert(t.subrange(line_start(t, top) as int, line_start(t, top) as int) =~= Seq::<char>::empty());
    } else {
        let m = (top + count - 1) as nat;
        lemma_lines_joined_slice(t, top, (count - 1) as nat);
        lemma_line_start_le(t, top, m);
        lemma_line_start_monotone(t, m);
        assert(t.subrange(line_start(t, top) as int, line_start(t, m) as int) + t.subrange(
            line_start(t, m) as int,
            line_start(t, m + 1) as int,
        ) =~= t.subrange(line_start(t, top) as int, line_start(t, m + 1) as int));
    }
}

/// What a window draws is read from its text starting at the first
/// character of line `scroll_offset.y`: it is a stretch of the text from
/// there on, and it begins with that whole line when the window shows a
/// line. Scrolling thus changes what is drawn.
pub proof fn lemma_view_from_scroll_line(v: WindowView)
    requires
        v.scroll_offset.y < line_count(v.text),
    ensures
        line_start(v.text, v.scroll_offset.y as nat) + view_source(v).len() <= v.text.len(),
        view_source(v) == v.text.subrange(
            line_start(v.text, v.scroll_offset.y as nat) as int,
            (line_start(v.text, v.scroll_offset.y as nat) + view_source(v).len()) as int,
        ),
        v.dimensions.y + v.scroll_offset.y >= 1 ==> line_text(v.text, v.scroll_offset.y as nat).len()
            <= view_source(v).len() && view_source(v).take(
            line_text(v.text, v.scroll_offset.y as nat).len() as int,
        ) == line_text(v.text, v.scroll_offset.y as nat),
{
    let t = v.text;
    let top = v.scroll_offset.y as nat;
    let bottom = v.dimensions.y + top;
    let rest = line_count(t) - top;
    let count: nat = if bottom < rest { bottom as nat } else { rest as nat };
    assert(view_source(v) == lines_joined(t, top, count));
    lemma_lines_joined_slice(t, top, count);
    lemma_line_start_le(t, top, top + count);
    if count >= 1 {
        lemma_line_start_le(t, top + 1, top + count);
        lemma_line_start_monotone(t, top);
        assert(view_source(v).take(line_text(t, top).len() as int) =~= line_text(t, top));
    }
}

/// A run of one character holds no other character.
proof fn lemma_count_repeat(c: char, n: nat, d: char)
    requires
        c != d,
    ensures
        count_of(repeat_char(c, n), d) == 0,
    decreases n,
{
    if n > 0 {
        assert(repeat_char(c, n).drop_last() =~= repeat_char(c, (n - 1) as nat));
        lemma_count_repeat(c, (n - 1) as nat, d);
    }
}

/// `k` filler rows hold `k` line breaks.
proof fn lemma_filler_breaks(width: usize, k: nat)
    ensures
        count_of(filler_rows(' ', width, k), '\n') == k,
    decreases k,
{
    if k > 0 {
        let f = filler_rows(' ', width, (k - 1) as nat);
        let r = repeat_char(' ', width as nat);
        lemma_filler_breaks(width, (k - 1) as nat);
        lemma_count_concat(f + r, row_end(), '\n');
        lemma_count_concat(f, r, '\n');
        lemma_count_repeat(' ', width as nat, '\n');
        reveal_with_fuel(count_of, 3);
        assert(row_end().drop_last() =~= seq!['\r']);
        assert(seq!['\r'].drop_last() =~= Seq::<char>::empty());
    }
}

/// The drawn text of a window has at least `height` line breaks: rows of
/// spaces follow the rows of the shown lines until there are `height`
/// rows, and it has exactly `height` when the shown lines do not pass it.
pub proof fn lemma_window_rows_count(text: Seq<char>, width: usize, height: usize)
    ensures
        count_of(formatted_window(text, width, height), '\n') >= height,
        count_of(window_rows(lines_of(text), shown_lines(text, height), width), '\n') <= height
            ==> count_of(formatted_window(text, width, height), '\n') == height,
{
    let body = window_rows(lines_of(text), shown_lines(text, height), width);
    let c = count_of(body, '\n');
    let k: nat = if height > c { (height - c) as nat } else { 0 };
    lemma_count_concat(body, filler_rows(' ', width, k), '\n');
    lemma_filler_breaks(width, k);
}

/// When the window's text can be drawn: its first line is in the file, and
/// nothing overflows.
pub open spec fn window_text_ok(v: WindowView) -> bool {
    &&& v.scroll_offset.y <= line_count(v.text)
    &&& v.dimensions.y + v.scroll_offset.y <= usize::MAX
    &&& tabs_fit(view_source(v), v.dimensions.x, v.dimensions.y)
}

/// The first `k` bytes of `line`, or nothing when that would cut a
/// character.
fn prefix_bytes(line: &str, k: usize) -> (r: Vec<char>)
    ensures
        r@ == byte_prefix(line@, k),
{
    let len = line.len();
    let e = if len < k {
        len
    } else {
        k
    };
    if line.is_char_boundary(e) {
        let (piece, _) = line.split_at(e);
        proof {
            assert(piece.spec_bytes() =~= encode_utf8(line@).subrange(0, e as int));
            assert(piece@ == decode_utf8(encode_utf8(piece@)));
        }
        chars_of(piece)
    } else {
        Vec::new()
    }
}

/// A row of the window for `line`.
fn format_window_line(line: &str, width: usize) -> (r: Vec<char>)
    requires
        3 * count_of(byte_prefix(line@, width), '\t') <= usize::MAX,
    ensures
        r@ == window_row(line@, width),
{
    let l = prefix_bytes(line, width);
    let l_str = string_of(l.as_slice());
    let tabs = count_char(l_str.as_str(), '\t');
    let w = width.saturating_sub(tabs * 3);
    let cut = prefix_bytes(line, w);
    let mut shown: Vec<char> = Vec::new();
    let mut i: usize = 0;
    while i < cut.len()
        invariant
            i <= cut@.len(),
            shown@ == expand_tabs(cut@.take(i as int)),
        decreases cut@.len() - i,
    {
        proof {
            assert(cut@.take(i + 1).drop_last() =~= cut@.take(i as int));
        }
        if cut[i] == '\t' {
            shown.push(' ');
            shown.push(' ');
            shown.push(' ');
            shown.push(' ');
            proof {
                assert(shown@ =~= expand_tabs(cut@.take(i as int)) + seq![' ', ' ', ' ', ' ']);
            }
        } else {
            shown.push(cut[i]);
        }
        i += 1;
    }
    proof {
        assert(cut@.take(cut@.len() as int) =~= cut@);
    }
    let shown_str = string_of(shown.as_slice());
    let spaces = width.saturating_sub(shown_str.as_str().len());
    push_repeat(&mut shown, ' ', spaces);
    shown.push('\r');
    shown.push('\n');
    proof {
        assert(shown@ =~= window_row(line@, width));
    }
    shown
}

/// The text of a window `width` bytes wide and `height` rows high showing
/// `text`.
fn format_window_buffer(text: &str, width: usize, height: usize) -> (r: String)
    requires
        tabs_fit(text@, width, height),
    ensures
        r@ == formatted_window(text@, width, height),
{
    let chars = chars_of(text);
    let lines = split_lines(&chars);
    let ghost ls = lines_of(text@);
    let n = if lines.len() < height {
        lines.len()
    } else {
        height
    };
    let mut new: Vec<char> = Vec::new();
    let mut y: usize = 0;
    while y < n
        invariant
            n == shown_lines(text@, height),
            n <= lines@.len(),
            lines@.map_values(|l: Vec<char>| l@) == ls,
            ls == lines_of(text@),
            tabs_fit(text@, width, height),
            y <= n,
            new@ == window_rows(ls, y as int, width),
        decreases n - y,
    {
        let line = string_of(lines[y].as_slice());
        proof {
            assert(line@ == ls[y as int]);
        }
        let row = format_window_line(line.as_str(), width);
        extend_chars(&mut new, row.as_slice());
        y += 1;
    }
    let mut out = string_of(new.as_slice());
    fill_rest_of_screen(&mut out, ' ', width, height);
    out
}

/// Pads `line` with spaces to `length` bytes.
fn _format_command_bar(line: &mut String, length: usize)
    ensures
        final(line)@ == old(line)@ + repeat_char(
            ' ',
            (if length > byte_len(old(line)@) { length - byte_len(old(line)@) } else { 0 }) as nat,
        ),
{
    let spaces = length.saturating_sub(line.as_str().len());
    let mut v = chars_of(line.as_str());
    push_repeat(&mut v, ' ', spaces);
    *line = string_of(v.as_slice());
}

impl Window {
    /// A window of the given size over `buffer`, at the origin of the
    /// terminal and of the file, in Normal mode.
    pub fn new(width: u16, height: u16, buffer: Rope, name: Option<String>) -> (w: Window)
        ensures
            w@ == (WindowView {
                mode: Mode::Normal,
                dimensions: Position { x: width as usize, y: height as usize },
                window_offset: Position { x: 0, y: 0 },
                scroll_offset: Position { x: 0, y: 0 },
                cursor: Position { x: 0, y: 0 },
                max_cursor: Position { x: 0, y: 0 },
                text: rope_text(buffer),
                name: match name {
                    Some(n) => Some(n@),
                    None => None,
                },
                debug: "No Info"@,
            }),
    {
        Window {
            mode: Mode::Normal,
            dimensions: Position::new_u16(width, height),
            window_offset: Position { x: 0, y: 0 },
            scroll_offset: Position { x: 0, y: 0 },
            cursor: Position { x: 0, y: 0 },
            max_cursor: Position { x: 0, y: 0 },
            name,
            buffer,
            debug: crate::strings::string_from("No Info"),
        }
    }

    /// Pulls the cursor back to the end of its line when it is past it.
    fn adjust_cursor_x(&mut self)
        requires
            file_row(old(self)@) <= usize::MAX,
            adjust_ok(old(self)@),
        ensures
            final(self)@ == adjusted(old(self)@),
    {
        let row = self.cursor.y + self.scroll_offset.y;
        let line_len = rope_line_len(&self.buffer, row);
        if line_len < self.cursor.x {
            self.cursor.x = line_len;
        }
    }

    /// Moves the cursor `lines` lines down, at most to the last line; the
    /// window scrolls when the target is past its bottom. Returns whether
    /// it scrolled.
    pub fn move_cursor_down(&mut self, lines: usize) -> (scroll: bool)
        requires
            down_ok(old(self)@, lines),
        ensures
            scroll == down_scrolls(old(self)@, lines),
            final(self)@ == moved_down(old(self)@, lines),
    {
        let n = rope_len_lines(&self.buffer);
        let limit = n - 1;
        let target = if self.cursor.y + lines < limit {
            self.cursor.y + lines
        } else {
            limit
        };
        let diff = target - self.cursor.y;
        let max = self.window_offset.y + self.dimensions.y;
        let mut scroll = false;
        if target >= max {
            self.scroll_offset._add_to_y(target - max + 1);
            scroll = true;
        } else {
            self.cursor._add_to_y(diff);
        }
        self.cursor.set_x(self.max_cursor.x);
        self.adjust_cursor_x();
        scroll
    }

    /// Moves the cursor `lines` lines up, at least to the first line; the
    /// window scrolls one line up when the cursor is at its top. Returns
    /// whether it scrolled.
    pub fn move_cursor_up(&mut self, lines: usize) -> (scroll: bool)
        requires
            up_ok(old(self)@, lines),
        ensures
            scroll == up_scrolls(old(self)@, lines),
            final(self)@ == moved_up(old(self)@, lines),
    {
        let mut scroll = false;
        let target = if lines > self.cursor.y {
            0
        } else {
            self.cursor.y - lines
        };
        let min = self.window_offset.y;
        if target == min && self.cursor_screen().y == 0 {
            let scroll_offset = self.scroll_offset.y.saturating_sub(target).saturating_sub(1);
            self.scroll_offset.set_y(scroll_offset);
            scroll = true;
        }
        self.cursor = Position::new(self.max_cursor.x, target);
        self.adjust_cursor_x();
        scroll
    }

    /// Moves the cursor `cols` columns left, at least to the first column,
    /// and remembers the column.
    pub fn move_cursor_left(&mut self, cols: usize)
        ensures
            final(self)@ == moved_left(old(self)@, cols),
    {
        self.cursor.set_x(
            if cols > self.cursor.x {
                0
            } else {
                self.cursor.x - cols
            },
        );
        self.max_cursor.set_x(self.cursor.x);
    }

    /// Moves the cursor `cols` columns right, at most to the end of its
    /// line, and remembers the column.
    pub fn move_cursor_right(&mut self, cols: usize)
        requires
            file_row(old(self)@) <= usize::MAX,
            adjust_ok(old(self)@),
        ensures
            final(self)@ == moved_right(old(self)@, cols),
    {
        self.cursor.add_to_x(cols);
        self.adjust_cursor_x();
        self.max_cursor.set_x(self.cursor.x);
    }

    /// Types `c` before the cursor, which moves one column right.
    pub fn insert_char(&mut self, c: char)
        requires
            insert_ok(old(self)@, c),
        ensures
            final(self)@ == char_inserted(old(self)@, c),
    {
        let (x, y) = self.cursor_file().as_usize();
        let _len = rope_len_chars(&self.buffer);
        let line_index = rope_line_to_char(&self.buffer, y);
        rope_insert_char(&mut self.buffer, line_index + x, c);
        self.move_cursor_right(1);
    }

    /// Types a line break; the cursor moves to the start of the next line.
    pub fn insert_enter(&mut self)
        requires
            enter_ok(old(self)@),
        ensures
            final(self)@ == enter_inserted(old(self)@),
    {
        self.insert_char('\n');
        self.move_cursor_down(1);
        self.cursor.set_x(0);
    }

    /// Removes the character before the cursor, unless the cursor is at
    /// the start of the file; the cursor goes to where it stood.
    pub fn backspace(&mut self)
        requires
            backspace_ok(old(self)@),
        ensures
            final(self)@ == backspaced(old(self)@),
    {
        let f = self.cursor_file();
        let (fx, fy) = f.as_u16();
        if fx == 0 && fy == 0 {
            return;
        }
        let len = rope_len_chars(&self.buffer);
        let line_index = rope_line_to_char(&self.buffer, f.y);
        let index = line_index + f.x - 1;
        rope_remove(&mut self.buffer, index, index + 1);
        let ghost t = rope_text(self.buffer);
        proof {
            lemma_count_prefix(t, '\n', index as int);
            lemma_line_of_index(t, index as int);
        }
        let new_line = rope_char_to_line(&self.buffer, index);
        if new_line != self.cursor_file().y {
            self.move_cursor_up(1);
        }
        let start = rope_line_to_char(&self.buffer, new_line);
        self.cursor.set_x(index - start);
    }

    /// Removes the character under the cursor, if there is one, and pulls
    /// the cursor back into its line.
    pub fn delete(&mut self)
        requires
            delete_ok(old(self)@),
        ensures
            final(self)@ == char_deleted(old(self)@),
    {
        let f = self.cursor_file();
        let index = rope_line_to_char(&self.buffer, f.y) + f.x;
        if index < rope_len_chars(&self.buffer) {
            rope_remove(&mut self.buffer, index, index + 1);
        }
        self.adjust_cursor_x();
    }

    /// Moves the cursor to the first column of its line.
    pub fn home(&mut self)
        ensures
            final(self)@ == moved_left(old(self)@, old(self).cursor.x),
    {
        let x = self.cursor.x;
        self.move_cursor_left(x);
    }

    /// Moves the cursor to the end of its line.
    pub fn end(&mut self)
        requires
            file_row(old(self)@) <= usize::MAX,
            adjust_ok(old(self)@),
        ensures
            final(self)@ == moved_right(old(self)@, usize::MAX),
    {
        self.move_cursor_right(usize::MAX);
    }

    /// Removes the cursor's line, its break included, and pulls the cursor
    /// back into the line that takes its place.
    pub fn delete_line(&mut self)
        requires
            delete_line_ok(old(self)@),
        ensures
            final(self)@ == line_deleted(old(self)@),
    {
        let f = self.cursor_file();
        let _lines = rope_len_lines(&self.buffer);
        let start = rope_line_to_char(&self.buffer, f.y);
        let end = rope_line_to_char(&self.buffer, f.y + 1);
        let ghost t = rope_text(self.buffer);
        proof {
            lemma_line_start_monotone(t, f.y as nat);
        }
        rope_remove(&mut self.buffer, start, end);
        self.adjust_cursor_x();
    }

    /// The name of the window's file, or `UNNAMED`.
    pub fn buffer_name(&self) -> (r: String)
        ensures
            r@ == name_text(self@),
    {
        match &self.name {
            Some(n) => string_from(n.as_str()),
            None => string_from("UNNAMED"),
        }
    }

    /// The status bar: ` mode | name `, then ` screen | file ` with each
    /// place as `x/y`, then as many spaces as those two parts have bytes.
    pub fn status_bar(&self) -> (r: String)
        requires
            file_pos_ok(self@),
            screen_pos_ok(self@),
            byte_len(status_left(self@)) + byte_len(status_right(self@)) <= usize::MAX,
        ensures
            r@ == status_text(self@),
    {
        let mut left: Vec<char> = Vec::new();
        left.push(' ');
        extend_chars(&mut left, chars_of(self.mode.name()).as_slice());
        left.push(' ');
        left.push('|');
        left.push(' ');
        let name = self.buffer_name();
        extend_chars(&mut left, chars_of(name.as_str()).as_slice());
        left.push(' ');
        let mut right: Vec<char> = Vec::new();
        right.push(' ');
        let screen = self.cursor_screen().to_string();
        extend_chars(&mut right, chars_of(screen.as_str()).as_slice());
        right.push(' ');
        right.push('|');
        right.push(' ');
        let file = self.cursor_file().to_string();
        extend_chars(&mut right, chars_of(file.as_str()).as_slice());
        right.push(' ');
        proof {
            assert(left@ =~= status_left(self@));
            assert(right@ =~= status_right(self@));
        }
        let left_str = string_of(left.as_slice());
        let right_str = string_of(right.as_slice());
        let count = left_str.as_str().len() + right_str.as_str().len();
        let mut out = left;
        extend_chars(&mut out, right.as_slice());
        push_repeat(&mut out, ' ', count);
        string_of(out.as_slice())
    }

    /// Where the status bar goes: under the window, at its left edge, both
    /// numbers cut to 16 bits.
    pub fn status_bar_pos(&self) -> (p: Position)
        requires
            self.window_offset.x + self.dimensions.x <= usize::MAX,
            self.window_offset.y + self.dimensions.y <= usize::MAX,
        ensures
            p == (Position {
                x: (self.window_offset.x as u16) as usize,
                y: (((self.window_offset.y + self.dimensions.y) as usize) as u16) as usize,
            }),
    {
        let y = self.window_offset.plus(self.dimensions).as_u16_y();
        Position::new_u16(self.window_offset.as_u16_x(), y)
    }

    /// The window's text as it is drawn: the lines in view, each cut to
    /// the width and padded, rows ended by `"\r\n"`, blank rows below the
    /// end of the file.
    pub fn to_string(&self) -> (s: String)
        requires
            window_text_ok(self@),
        ensures
            s@ == window_text(self@),
    {
        let top = self.scroll_offset.y;
        let bottom = self.dimensions.y + top;
        let n = rope_len_lines(&self.buffer);
        let rest = n - top;
        let count = if bottom < rest {
            bottom
        } else {
            rest
        };
        let mut text: Vec<char> = Vec::new();
        let mut i: usize = 0;
        while i < count
            invariant
                i <= count,
                count <= rest,
                rest == n - top,
                n == line_count(rope_text(self.buffer)),
                text@ == lines_joined(rope_text(self.buffer), top as nat, i as nat),
            decreases count - i,
        {
            let line = rope_line_string(&self.buffer, top + i);
            extend_chars(&mut text, chars_of(line.as_str()).as_slice());
            i += 1;
        }
        let window = string_of(text.as_slice());
        format_window_buffer(window.as_str(), self.dimensions.x, self.dimensions.y)
    }

    /// The cursor's place in the file: its place in the window plus the
    /// scroll offset.
    pub fn cursor_file(&self) -> (p: Position)
        requires
            self.cursor.x + self.scroll_offset.x <= usize::MAX,
            self.cursor.y + self.scroll_offset.y <= usize::MAX,
        ensures
            p == (Position {
                x: (self.cursor.x + self.scroll_offset.x) as usize,
                y: (self.cursor.y + self.scroll_offset.y) as usize,
            }),
    {
        self.cursor.plus(self.scroll_offset)
    }

    /// The cursor's place on the terminal: its place in the window plus the
    /// window's offset.
    pub fn cursor_screen(&self) -> (p: Position)
        requires
            self.cursor.x + self.window_offset.x <= usize::MAX,
            self.cursor.y + self.window_offset.y <= usize::MAX,
        ensures
            p == (Position {
                x: (self.cursor.x + self.window_offset.x) as usize,
                y: (self.cursor.y + self.window_offset.y) as usize,
            }),
    {
        self.cursor.plus(self.window_offset)
    }
}

} // verus!
