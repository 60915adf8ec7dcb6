//! The parts of the editor's screen: the panes over buffers, the line
//! numbers and the status bar, with the colours they are drawn in and the
//! text they show.
use vstd::prelude::*;
use crate::editor::buffer::Buffer;
use crate::engine::mode::{mode_name, Mode};
use crate::strings::{chars_of, decimal, decimal_chars, extend_chars, string_of};
use crate::ui::layout::Pos;
use crate::ui::style::Color;

verus! {

/// The colours a part of the screen is drawn in.
#[derive(Debug, Clone, Copy)]
pub struct Theme {
    pub fg: Color,
    pub bg: Color,
    pub highlight: Color,
}

impl Default for Theme {
    /// White on a dark grey, highlighted in grey.
    fn default() -> (t: Theme)
        ensures
            t.fg == Color::White,
            t.bg == (Color::Rgb { r: 40, g: 40, b: 40 }),
            t.highlight == Color::Grey,
    {
        Theme { fg: Color::White, bg: Color::Rgb { r: 40, g: 40, b: 40 }, highlight: Color::Grey }
    }
}

/// A pane showing a buffer.
#[derive(Debug, Clone)]
pub struct Pane {
    pub buffer: Buffer,
    pub theme: Theme,
}

/// The column of line numbers beside the panes.
#[derive(Debug, Clone, Copy)]
pub struct LineNumbers {
    pub theme: Theme,
}

impl Default for LineNumbers {
    fn default() -> (l: LineNumbers)
        ensures
            l.theme.fg == Color::White,
            l.theme.bg == (Color::Rgb { r: 40, g: 40, b: 40 }),
            l.theme.highlight == Color::Grey,
    {
        LineNumbers { theme: Theme::default() }
    }
}

impl LineNumbers {
    /// The numbers shown in a column `height` rows high: 1 to `height`.
    pub fn numbers(&self, height: u16) -> (r: Vec<String>)
        ensures
            r@.len() == height,
            forall|i: int| 0 <= i < height ==> #[trigger] r@[i]@ == decimal((i + 1) as nat),
    {
        let mut r: Vec<String> = Vec::new();
        let mut n: u16 = 0;
        while n < height
            invariant
                n <= height,
                r@.len() == n,
                forall|i: int| 0 <= i < n ==> #[trigger] r@[i]@ == decimal((i + 1) as nat),
            decreases height - n,
        {
            let digits = decimal_chars(n as usize + 1);
            r.push(string_of(digits.as_slice()));
            n += 1;
        }
        r
    }
}

/// The status bar: the mode, the file's name and whether it is saved on
/// the left, the cursor's place on the right.
#[derive(Debug, Clone)]
pub struct StatusBar {
    pub mode: Mode,
    pub cursor: Pos,
    pub filename: String,
    pub file_saved: bool,
    pub theme: Theme,
}

/// The mark for a saved file and for one with changes.
pub open spec fn saved_mark_text(saved: bool) -> Seq<char> {
    if saved { seq!['✔', ' '] } else { seq!['✘', ' '] }
}

impl StatusBar {
    /// The mode's name and a space.
    pub fn mode_text(&self) -> (r: String)
        ensures
            r@ == mode_name(self.mode).push(' '),
    {
        let mut v = chars_of(self.mode.name());
        v.push(' ');
        string_of(v.as_slice())
    }

    /// The file's name and a space.
    pub fn filename_text(&self) -> (r: String)
        ensures
            r@ == self.filename@.push(' '),
    {
        let mut v = chars_of(self.filename.as_str());
        v.push(' ');
        string_of(v.as_slice())
    }

    /// A tick for a saved file, a cross for one with changes, and a space.
    pub fn saved_mark(&self) -> (r: String)
        ensures
            r@ == saved_mark_text(self.file_saved),
    {
        let mut v: Vec<char> = Vec::new();
        v.push(if self.file_saved { '✔' } else { '✘' });
        v.push(' ');
        string_of(v.as_slice())
    }

    /// The cursor's place as `x/y`.
    pub fn cursor_text(&self) -> (r: String)
        ensures
            r@ == decimal(self.cursor.x as nat) + seq!['/'] + decimal(self.cursor.y as nat),
    {
        let mut v = decimal_chars(self.cursor.x as usize);
        v.push('/');
        let y = decimal_chars(self.cursor.y as usize);
        extend_chars(&mut v, y.as_slice());
        string_of(v.as_slice())
    }
}

} // verus!
