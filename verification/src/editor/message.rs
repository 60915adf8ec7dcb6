//! The messages that drive the editor's state, and the message boxes shown
//! to the user.
use vstd::prelude::*;
use crate::engine::line_number::LineNumberKind;
use crate::engine::mode::Mode;
use crate::strings::string_from;
use crate::ui::key::Keys;
use crate::ui::layout::{Alignment, Rect, Size, Stack};
use crate::ui::style::{Attributes, Color, Style};
use crate::ui::text::{max_char, newlines_to_spaces, Text};
use crate::ui::widget::{BoxWidget, Container};

verus! {

/// What the editor's state is asked to do next.
#[derive(Debug)]
pub enum Message {
    CursorDown,
    CursorUp,
    CursorLeft,
    CursorRight,
    CursorHome,
    CursorEnd,
    ScrollUp,
    ScrollDown,
    ScrollLeft,
    ScrollRight,
    InsertAtEnd,
    BackSpace,
    Delete,
    KeyPress(Keys),
    CheckForMapping,
    ModeCommandInsertStr(String),
    ModeInsertInsertStr(String),
    ChangeMode(Mode),
    ExecuteCommand,
    BufferList,
    EditFile(String),
    SwapBuffer(String),
    UserMessage(UserMessageBuilder),
    /// Number the rows as this says.
    SetLineNumbers(LineNumberKind),
    CloseCurrentPaneOnKeyPress,
    Resize(Size),
    Quit,
}

/// A message box: its message, its footer and its style.
#[derive(Debug)]
pub struct UserMessageBuilder {
    message: String,
    footer: String,
    style: Style,
}

/// Whether `t` is the text that `Text::new` makes of `s`, whatever its
/// style: `s` with newlines made spaces, left aligned, as wide as the code
/// of its largest character cut to 16 bits, one row high unless empty,
/// without a comment.
pub open spec fn plain_text(t: Text, s: Seq<char>) -> bool {
    &&& t.content_view() == newlines_to_spaces(s)
    &&& t.align_view() == Alignment::Left
    &&& t.width_view() == ((max_char(newlines_to_spaces(s)) as u32) % 65536) as u16
    &&& t.height_view() == if s.len() == 0 { 0u16 } else { 1u16 }
    &&& t.comment_view() is None
}

impl UserMessageBuilder {
    /// The message.
    pub closed spec fn message_view(&self) -> Seq<char> {
        self.message@
    }

    /// The footer.
    pub closed spec fn footer_view(&self) -> Seq<char> {
        self.footer@
    }

    /// The style.
    pub closed spec fn style_view(&self) -> Style {
        self.style
    }

    /// This box with `message` as its message.
    pub fn message(self, message: String) -> (r: UserMessageBuilder)
        ensures
            r.message_view() == message@,
            r.footer_view() == self.footer_view(),
            r.style_view() == self.style_view(),
    {
        UserMessageBuilder { message, ..self }
    }

    /// This box with `footer` as its footer.
    pub fn footer(self, footer: String) -> (r: UserMessageBuilder)
        ensures
            r.message_view() == self.message_view(),
            r.footer_view() == footer@,
            r.style_view() == self.style_view(),
    {
        UserMessageBuilder { footer, ..self }
    }

    /// This box in foreground color `fg`.
    pub fn fg(self, fg: Color) -> (r: UserMessageBuilder)
        ensures
            r.message_view() == self.message_view(),
            r.footer_view() == self.footer_view(),
            r.style_view() == (Style { foreground_color: Some(fg), ..self.style_view() }),
    {
        let mut r = self;
        r.style.foreground_color = Some(fg);
        r
    }

    /// This box on background color `bg`.
    pub fn _bg(self, bg: Color) -> (r: UserMessageBuilder)
        ensures
            r.message_view() == self.message_view(),
            r.footer_view() == self.footer_view(),
            r.style_view() == (Style { background_color: Some(bg), ..self.style_view() }),
    {
        let mut r = self;
        r.style.background_color = Some(bg);
        r
    }

    /// The message asking the state to show this box.
    pub fn build(self) -> (m: Message)
        ensures
            m == Message::UserMessage(self),
    {
        Message::UserMessage(self)
    }

    /// The box drawn in `rect`: the message above the footer, the footer
    /// on grey.
    pub fn as_view(&self, rect: Rect) -> (c: Container)
        ensures
            c.bounds_view() == rect,
            c.stack_view() == Stack::Vertically,
            c.children_view().len() == 2,
            c.comment_view() is None,
            c.children_view()[0] matches BoxWidget::Text(t) && plain_text(t, self.message_view())
                && t.style_view() == Style::plain(),
            c.children_view()[1] matches BoxWidget::Text(t) && plain_text(t, self.footer_view())
                && t.style_view() == (Style { background_color: Some(Color::Grey), ..Style::plain() }),
    {
        let stack = Stack::Vertically;
        let msg = Text::new(self.message.as_str());
        let ft = Text::new(self.footer.as_str()).with_bg(Color::Grey);
        Container::new(rect, stack).push(BoxWidget::Text(msg)).push(BoxWidget::Text(ft))
    }
}

impl Default for UserMessageBuilder {
    fn default() -> (r: UserMessageBuilder)
        ensures
            r.message_view() == Seq::<char>::empty(),
            r.footer_view() == Seq::<char>::empty(),
            r.style_view() == (Style {
                foreground_color: None,
                background_color: None,
                underline_color: None,
                attributes: Attributes { bits: 0 },
            }),
    {
        proof {
            reveal_strlit("");
        }
        UserMessageBuilder {
            message: string_from(""),
            footer: string_from(""),
            style: Style::new(),
        }
    }
}

} // verus!
