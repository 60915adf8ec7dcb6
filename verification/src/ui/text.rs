//! Text widgets: a line of text drawn aligned within the width it is given.
use vstd::prelude::*;
use vstd::string::StringSliceAdditionalSpecFns;
use vstd::utf8::encode_utf8;
use crate::strings::{chars_of, extend_chars, push_repeat, repeat_char, string_from, string_of};
use crate::ui::layout::{Alignment, Rect};
use crate::ui::style::{Attributes, Color, Style};
use crate::ui::widget::{BoxWidget, DrawCommand, Widget};

verus! {

/// A line of text with its alignment and style.
#[derive(Debug)]
pub struct Text {
    content: String,
    align: Alignment,
    style: Style,
    width: u16,
    height: u16,
    comment: Option<String>,
}

/// The largest character of `s` by its code, or `'\0'` when there is none.
pub open spec fn max_char(s: Seq<char>) -> char
    decreases s.len(),
{
    if s.len() == 0 {
        '\0'
    } else {
        let m = max_char(s.drop_last());
        if (s.last() as u32) > (m as u32) {
            s.last()
        } else {
            m
        }
    }
}

/// `s` with each newline made a space.
pub open spec fn newlines_to_spaces(s: Seq<char>) -> Seq<char> {
    s.map_values(|c: char| if c == '\n' { ' ' } else { c })
}

/// `line` padded with spaces to `width` characters as the alignment says,
/// then cut to `width` characters; centred text gets the odd space on its
/// right.
pub open spec fn aligned(line: Seq<char>, width: nat, align: Alignment) -> Seq<char> {
    let pad: nat = if width > line.len() { (width - line.len()) as nat } else { 0 };
    let padded = match align {
        Alignment::Left => line + repeat_char(' ', pad),
        Alignment::Right => repeat_char(' ', pad) + line,
        Alignment::Center => repeat_char(' ', pad / 2) + line + repeat_char(
            ' ',
            (pad - pad / 2) as nat,
        ),
    };
    padded.take(width as int)
}

/// `line` aligned within `width` characters.
pub fn format_line(line: &str, width: usize, align: &Alignment) -> (r: String)
    ensures
        r@ == aligned(line@, width as nat, *align),
{
    let chars = chars_of(line);
    let n = chars.len();
    let pad = if width > n {
        width - n
    } else {
        0
    };
    let mut padded: Vec<char> = Vec::new();
    match align {
        Alignment::Left => {
            extend_chars(&mut padded, chars.as_slice());
            push_repeat(&mut padded, ' ', pad);
        },
        Alignment::Right => {
            push_repeat(&mut padded, ' ', pad);
            extend_chars(&mut padded, chars.as_slice());
        },
        Alignment::Center => {
            push_repeat(&mut padded, ' ', pad / 2);
            extend_chars(&mut padded, chars.as_slice());
            push_repeat(&mut padded, ' ', pad - pad / 2);
        },
    }
    let keep = if width < padded.len() {
        width
    } else {
        padded.len()
    };
    let cut = crate::strings::slice_chars(padded.as_slice(), 0, keep);
    proof {
        assert(cut@ =~= aligned(line@, width as nat, *align));
    }
    string_of(cut.as_slice())
}

impl Text {
    /// The text shown.
    pub closed spec fn content_view(&self) -> Seq<char> {
        self.content@
    }

    /// How the text is aligned.
    pub closed spec fn align_view(&self) -> Alignment {
        self.align
    }

    /// How the text is drawn.
    pub closed spec fn style_view(&self) -> Style {
        self.style
    }

    /// The width the text asks for.
    pub closed spec fn width_view(&self) -> u16 {
        self.width
    }

    /// The height the text asks for.
    pub closed spec fn height_view(&self) -> u16 {
        self.height
    }

    /// The comment naming the text, if any.
    pub closed spec fn comment_view(&self) -> Option<Seq<char>> {
        match self.comment {
            Some(c) => Some(c@),
            None => None,
        }
    }

    /// Text for `content`, newlines made spaces, left aligned and plain; it
    /// asks for a width of the code of its largest character cut to 16
    /// bits, and a height of one line, or none when it is empty.
    pub fn new(content: &str) -> (t: Text)
        ensures
            t.content_view() == newlines_to_spaces(content@),
            t.align_view() == Alignment::Left,
            t.style_view() == (Style {
                foreground_color: None,
                background_color: None,
                underline_color: None,
                attributes: Attributes { bits: 0 },
            }),
            t.width_view() == ((max_char(newlines_to_spaces(content@)) as u32) % 65536) as u16,
            t.height_view() == if content@.len() == 0 { 0u16 } else { 1u16 },
            t.comment_view() is None,
    {
        let chars = chars_of(content);
        let mut replaced: Vec<char> = Vec::new();
        let mut m: char = '\0';
        let mut i: usize = 0;
        while i < chars.len()
            invariant
                i <= chars@.len(),
                chars@ == content@,
                replaced@ == newlines_to_spaces(chars@.take(i as int)),
                m == max_char(newlines_to_spaces(chars@.take(i as int))),
            decreases chars@.len() - i,
        {
            let c = if chars[i] == '\n' {
                ' '
            } else {
                chars[i]
            };
            proof {
                assert(newlines_to_spaces(chars@.take(i + 1)) =~= newlines_to_spaces(
                    chars@.take(i as int),
                ).push(c));
                assert(newlines_to_spaces(chars@.take(i + 1)).drop_last() =~= newlines_to_spaces(
                    chars@.take(i as int),
                ));
            }
            replaced.push(c);
            if (c as u32) > (m as u32) {
                m = c;
            }
            i += 1;
        }
        proof {
            assert(chars@.take(chars@.len() as int) =~= chars@);
        }
        let code: u32 = (m as u32) % 65536;
        let width = code as u16;
        let height: u16 = if chars.len() == 0 {
            0
        } else {
            1
        };
        Text {
            content: string_of(replaced.as_slice()),
            align: Alignment::Left,
            style: Style::new(),
            width,
            height,
            comment: None,
        }
    }

    /// The length of the text in bytes, or the width it asks for when that
    /// is larger.
    pub fn char_len(&self) -> (r: usize)
        ensures
            r == if (encode_utf8(self.content_view()).len() as usize) >= (self.width_view() as usize) {
                encode_utf8(self.content_view()).len() as usize
            } else {
                self.width_view() as usize
            },
    {
        let len = self.content.as_str().len();
        let w = self.width as usize;
        if len >= w {
            len
        } else {
            w
        }
    }

    /// This text aligned as `align` says.
    pub fn with_alignment(self, align: Alignment) -> (t: Text)
        ensures
            t.content_view() == self.content_view(),
            t.align_view() == align,
            t.style_view() == self.style_view(),
            t.width_view() == self.width_view(),
            t.height_view() == self.height_view(),
            t.comment_view() == self.comment_view(),
    {
        Text { align, ..self }
    }

    /// This text in foreground color `fg`.
    pub fn with_fg(self, fg: Color) -> (t: Text)
        ensures
            t.content_view() == self.content_view(),
            t.align_view() == self.align_view(),
            t.style_view() == (Style { foreground_color: Some(fg), ..self.style_view() }),
            t.width_view() == self.width_view(),
            t.height_view() == self.height_view(),
            t.comment_view() == self.comment_view(),
    {
        let mut t = self;
        t.style.foreground_color = Some(fg);
        t
    }

    /// This text on background color `bg`.
    pub fn with_bg(self, bg: Color) -> (t: Text)
        ensures
            t.content_view() == self.content_view(),
            t.align_view() == self.align_view(),
            t.style_view() == (Style { background_color: Some(bg), ..self.style_view() }),
            t.width_view() == self.width_view(),
            t.height_view() == self.height_view(),
            t.comment_view() == self.comment_view(),
    {
        let mut t = self;
        t.style.background_color = Some(bg);
        t
    }

    /// This text with the attributes `atter`, in place of its own.
    pub fn with_atter(self, atter: Attributes) -> (t: Text)
        ensures
            t.content_view() == self.content_view(),
            t.align_view() == self.align_view(),
            t.style_view() == (Style { attributes: atter, ..self.style_view() }),
            t.width_view() == self.width_view(),
            t.height_view() == self.height_view(),
            t.comment_view() == self.comment_view(),
    {
        let mut t = self;
        t.style.attributes = atter;
        t
    }

    /// This text named by `comment`.
    pub fn with_comment(self, comment: String) -> (t: Text)
        ensures
            t.content_view() == self.content_view(),
            t.align_view() == self.align_view(),
            t.style_view() == self.style_view(),
            t.width_view() == self.width_view(),
            t.height_view() == self.height_view(),
            t.comment_view() == Some(comment@),
    {
        Text { comment: Some(comment), ..self }
    }

    /// This text asking for a height of `height`.
    pub fn max_height(self, height: u16) -> (t: Text)
        ensures
            t.content_view() == self.content_view(),
            t.align_view() == self.align_view(),
            t.style_view() == self.style_view(),
            t.width_view() == self.width_view(),
            t.height_view() == height,
            t.comment_view() == self.comment_view(),
    {
        Text { height, ..self }
    }

    /// This text asking for a width of `width`.
    pub fn max_width(self, width: u16) -> (t: Text)
        ensures
            t.content_view() == self.content_view(),
            t.align_view() == self.align_view(),
            t.style_view() == self.style_view(),
            t.width_view() == width,
            t.height_view() == self.height_view(),
            t.comment_view() == self.comment_view(),
    {
        Text { width, ..self }
    }

    /// The length of the text in bytes.
    pub fn len(&self) -> (r: usize)
        ensures
            r == encode_utf8(self.content_view()).len() as usize,
    {
        self.content.as_str().len()
    }

    /// Whether the text is empty.
    pub fn is_empty(&self) -> (r: bool)
        ensures
            r == (encode_utf8(self.content_view()).len() as usize == 0),
    {
        self.content.as_str().len() == 0
    }
}

impl Widget for Text {
    open spec fn fits(&self, bounds: Rect) -> bool {
        true
    }

    fn x(&self) -> (r: u16)
        ensures
            r == 0,
    {
        0
    }

    fn y(&self) -> (r: u16)
        ensures
            r == 0,
    {
        0
    }

    fn width(&self) -> (r: u16)
        ensures
            r == self.width_view(),
    {
        self.width
    }

    fn height(&self) -> (r: u16)
        ensures
            r == self.height_view(),
    {
        self.height
    }

    fn draw(&self, bounds: Rect) -> (r: Vec<DrawCommand>)
        ensures
            r@.len() == 1,
            r@[0].x == bounds.x,
            r@[0].y == bounds.y,
            r@[0].text@ == aligned(self.content_view(), bounds.width as nat, self.align_view()),
            r@[0].style == self.style_view(),
    {
        let width = bounds.width as usize;
        let x = bounds.x + self.x();
        let y = bounds.y + self.y();
        let mut out: Vec<DrawCommand> = Vec::new();
        out.push(
            DrawCommand {
                x,
                y,
                text: format_line(self.content.as_str(), width, &self.align),
                style: self.style,
            },
        );
        out
    }

    open spec fn boxed(self) -> BoxWidget {
        BoxWidget::Text(self)
    }

    fn into_box(self) -> (b: BoxWidget) {
        BoxWidget::Text(self)
    }

    fn debug_name(&self) -> (r: String)
        ensures
            r@ == match self.comment_view() {
                Some(c) => c,
                None => Seq::<char>::empty(),
            },
    {
        match &self.comment {
            Some(c) => c.clone(),
            None => {
                proof {
                    reveal_strlit("");
                }
                string_from("")
            },
        }
    }
}

} // verus!
