//! What the editor's state shows: the top message box when there is one,
//! else the focused buffer's rows, the status bar and the command bar.
use vstd::prelude::*;
use crate::editor::buffer::{screen_piece, screen_rows, sat_sub_u16, Buffer};
use crate::editor::message::UserMessageBuilder;
use crate::editor::state::{rows_joined, screen_text, State, StateView};
use crate::engine::mode::{mode_name, Mode};
use crate::engine::text_formater::byte_len;
use crate::rope::{line_count, line_text};
use crate::strings::{chars_of, decimal, decimal_chars, extend_chars, string_of};
use crate::ui::layout::{Alignment, Rect, Size, Stack};
use crate::ui::style::{attribute_bit, Attribute, Attributes, Color, Style};
use crate::ui::text::{newlines_to_spaces, Text};
use crate::ui::widget::{BoxWidget, Container};

verus! {

/// Whether `b` is a text showing `content`, asking for `width`, drawn in
/// `style` and aligned as `align` says.
pub open spec fn text_shows(
    b: BoxWidget,
    content: Seq<char>,
    width: u16,
    style: Style,
    align: Alignment,
) -> bool {
    &&& b matches BoxWidget::Text(t)
    &&& b->Text_0.content_view() == content
    &&& b->Text_0.width_view() == width
    &&& b->Text_0.style_view() == style
    &&& b->Text_0.align_view() == align
}

/// Whether `b` is a container with these bounds, stacking as `stack`
/// says, with `n` children.
pub open spec fn container_holds(b: BoxWidget, bounds: Rect, stack: Stack, n: nat) -> bool {
    &&& b matches BoxWidget::Container(c)
    &&& b->Container_0.bounds_view() == bounds
    &&& b->Container_0.stack_view() == stack
    &&& b->Container_0.children_view().len() == n
}

/// The `i`-th child of a container.
pub open spec fn child(b: BoxWidget, i: int) -> BoxWidget {
    match b {
        BoxWidget::Container(c) => c.children_view()[i],
        BoxWidget::Text(_) => b,
    }
}

/// The plain style: no colors, no attributes.
pub open spec fn plain_style() -> Style {
    Style {
        foreground_color: None,
        background_color: None,
        underline_color: None,
        attributes: Attributes { bits: 0 },
    }
}

/// The status bar's style: black on white, bold and italic.
pub open spec fn status_style() -> Style {
    Style {
        foreground_color: Some(Color::Black),
        background_color: Some(Color::White),
        underline_color: None,
        attributes: Attributes {
            bits: attribute_bit(Attribute::Bold) | attribute_bit(Attribute::Italic),
        },
    }
}

/// The room a text takes when laid out: its length in bytes, or the width
/// it asks for when that is larger.
pub open spec fn laid_width(content: Seq<char>, width: u16) -> int {
    if byte_len(content) >= width as usize {
        byte_len(content) as int
    } else {
        width as int
    }
}

/// The `i`-th row of the text area: the focused buffer's `i`-th row in
/// view, or a blank past its last.
pub open spec fn text_area_row(v: StateView, i: int) -> Seq<char> {
    let b = v.buffers[v.focused as int];
    let t = b.1;
    let c = b.2;
    if i < screen_rows(line_count(t), c.scroll.y as nat, (c.scroll.y + v.size.height) as nat) {
        screen_piece(
            line_text(t, (c.scroll.y + i) as nat),
            c.scroll.x as nat,
            (c.scroll.x + v.size.width) as nat,
        )
    } else {
        seq![' ']
    }
}

/// The width the cursor's place takes on the status bar: what the mode and
/// the buffer's name leave.
pub open spec fn status_width(v: StateView) -> u16 {
    let name = v.buffers[v.focused as int].0;
    (v.size.width - (laid_width(newlines_to_spaces(mode_name(v.mode)), 8) + laid_width(
        newlines_to_spaces(name),
        byte_len(name) as u16,
    )) as u16) as u16
}

/// When the status bar fits the terminal's width.
pub open spec fn status_fits(v: StateView) -> bool {
    let name = v.buffers[v.focused as int].0;
    laid_width(newlines_to_spaces(mode_name(v.mode)), 8) + laid_width(
        newlines_to_spaces(name),
        byte_len(name) as u16,
    ) <= v.size.width
}

/// Whether `r` shows the message box `m` over a terminal of `size`.
pub open spec fn message_shown(m: UserMessageBuilder, size: Size, r: BoxWidget) -> bool {
    &&& container_holds(
        r,
        Rect { x: 0, y: 0, width: size.width, height: size.height },
        Stack::Vertically,
        2,
    )
    &&& child(r, 0) matches BoxWidget::Text(t) && t.content_view() == newlines_to_spaces(
        m.message_view(),
    )
    &&& child(r, 1) matches BoxWidget::Text(t) && t.content_view() == newlines_to_spaces(
        m.footer_view(),
    ) && t.style_view().background_color == Some(Color::Grey)
}

/// Whether `r` shows the editor in state `v`: down the screen, the text
/// area with the focused buffer's rows, then the status bar (the mode, the
/// buffer's name, and the cursor's row and column, right aligned), then the
/// command bar (a colon in Command mode, then the command typed).
pub open spec fn editor_shown(v: StateView, r: BoxWidget) -> bool {
    let w = v.size.width;
    let h = v.size.height;
    let b = v.buffers[v.focused as int];
    let pos = b.2.pos;
    let text = child(r, 0);
    let info = child(r, 1);
    let status = child(info, 0);
    let cmd = child(info, 1);
    &&& container_holds(r, Rect { x: 0, y: 0, width: w, height: h }, Stack::Vertically, 2)
    &&& container_holds(
        text,
        Rect { x: 0, y: 0, width: w, height: (h - 2) as u16 },
        Stack::Vertically,
        h as nat,
    )
    &&& forall|i: int|
        0 <= i < h ==> text_shows(
            #[trigger] child(text, i),
            newlines_to_spaces(text_area_row(v, i)),
            w,
            plain_style(),
            Alignment::Left,
        )
    &&& container_holds(info, Rect { x: 0, y: 0, width: w, height: 2 }, Stack::Vertically, 2)
    &&& container_holds(status, Rect { x: 0, y: 0, width: w, height: 1 }, Stack::Horizontally, 3)
    &&& text_shows(
        child(status, 0),
        newlines_to_spaces(mode_name(v.mode)),
        8,
        status_style(),
        Alignment::Left,
    )
    &&& text_shows(
        child(status, 1),
        newlines_to_spaces(b.0),
        byte_len(b.0) as u16,
        status_style(),
        Alignment::Left,
    )
    &&& text_shows(
        child(status, 2),
        newlines_to_spaces(decimal(pos.y as nat) + seq!['/'] + decimal(pos.x as nat)),
        status_width(v),
        status_style(),
        Alignment::Right,
    )
    &&& container_holds(cmd, Rect { x: 0, y: 0, width: w, height: 1 }, Stack::Horizontally, 2)
    &&& text_shows(
        child(cmd, 0),
        newlines_to_spaces(
            if v.mode == Mode::Command {
                seq![':']
            } else {
                seq![' ']
            },
        ),
        1,
        plain_style(),
        Alignment::Left,
    )
    &&& text_shows(
        child(cmd, 1),
        newlines_to_spaces(screen_text(v.command.1, v.command.2, v.size)),
        sat_sub_u16(w, 1),
        plain_style(),
        Alignment::Left,
    )
}

/// The rows of `buf` in view in `size`, one after the other.
fn joined_rows(buf: &Buffer, size: &Size) -> (s: String)
    ensures
        s@ == screen_text(buf.text(), buf.cur(), *size),
{
    let lines = buf.on_screen(size);
    let ghost t = buf.text();
    let ghost c = buf.cur();
    let mut text: Vec<char> = Vec::new();
    let mut i: usize = 0;
    while i < lines.len()
        invariant
            i <= lines@.len(),
            lines@.len() == screen_rows(
                line_count(t),
                c.scroll.y as nat,
                (c.scroll.y + size.height) as nat,
            ),
            forall|j: int|
                0 <= j < lines@.len() ==> #[trigger] lines@[j]@ == screen_piece(
                    line_text(t, (c.scroll.y + j) as nat),
                    c.scroll.x as nat,
                    (c.scroll.x + size.width) as nat,
                ),
            text@ == rows_joined(t, c, *size, i as nat),
        decreases lines@.len() - i,
    {
        extend_chars(&mut text, chars_of(lines[i].as_str()).as_slice());
        i += 1;
    }
    string_of(text.as_slice())
}

/// A status bar text: black on white, bold and italic.
fn status_text(content: &str, width: u16) -> (t: Text)
    ensures
        t.content_view() == newlines_to_spaces(content@),
        t.width_view() == width,
        t.style_view() == status_style(),
        t.align_view() == Alignment::Left,
{
    let bold_italic = Attributes { bits: Attribute::Bold.bytes() | Attribute::Italic.bytes() };
    Text::new(content).max_width(width).with_fg(Color::Black).with_bg(Color::White).with_atter(
        bold_italic,
    )
}

impl State {
    /// What the state shows on a terminal of its size: the top message box
    /// when there is one; else the focused buffer's rows over the whole
    /// height, then the status bar and the command bar.
    pub fn view_widget(&self) -> (r: BoxWidget)
        requires
            self.wf(),
            self.size.height >= 2,
            self.messages@.len() == 0 ==> status_fits(self@),
        ensures
            self.messages@.len() > 0 ==> message_shown(self.messages@.last(), self.size, r),
            self.messages@.len() == 0 ==> editor_shown(self@, r),
    {
        let width = self.size.width;
        let height = self.size.height;
        let rect = Rect::new(self.size);
        if self.messages.len() > 0 {
            let builder = &self.messages[self.messages.len() - 1];
            return BoxWidget::Container(builder.as_view(rect));
        }
        let ghost v = self@;
        let buf = &self.buffers[self.focused];
        proof {
            assert(v.buffers[v.focused as int] == crate::editor::command::buffer_view(*buf));
        }
        // The text area.
        let rect_text = Rect::new(Size { width, height: height - 2 });
        let lines = buf.on_screen(&self.size);
        let mut text = Container::new(rect_text, Stack::Vertically);
        let mut i: usize = 0;
        while i < height as usize
            invariant
                i <= height,
                v.focused < v.buffers.len(),
                height == v.size.height,
                width == v.size.width,
                buf.name_view() == v.buffers[v.focused as int].0,
                buf.text() == v.buffers[v.focused as int].1,
                buf.cur() == v.buffers[v.focused as int].2,
                lines@.len() == screen_rows(
                    line_count(buf.text()),
                    buf.cur().scroll.y as nat,
                    (buf.cur().scroll.y + height) as nat,
                ),
                forall|j: int|
                    0 <= j < lines@.len() ==> #[trigger] lines@[j]@ == screen_piece(
                        line_text(buf.text(), (buf.cur().scroll.y + j) as nat),
                        buf.cur().scroll.x as nat,
                        (buf.cur().scroll.x + width) as nat,
                    ),
                text.bounds_view() == rect_text,
                text.stack_view() == Stack::Vertically,
                text.children_view().len() == i,
                forall|j: int|
                    0 <= j < i ==> text_shows(
                        #[trigger] text.children_view()[j],
                        newlines_to_spaces(text_area_row(v, j)),
                        width,
                        plain_style(),
                        Alignment::Left,
                    ),
            decreases height - i,
        {
            let t = if i < lines.len() {
                proof {
                    assert(lines@[i as int]@ == text_area_row(v, i as int));
                }
                Text::new(lines[i].as_str()).max_width(width)
            } else {
                proof {
                    reveal_strlit(" ");
                    assert(" "@ =~= text_area_row(v, i as int));
                }
                Text::new(" ").max_width(width)
            };
            proof {
                assert(text_shows(
                    BoxWidget::Text(t),
                    newlines_to_spaces(text_area_row(v, i as int)),
                    width,
                    plain_style(),
                    Alignment::Left,
                ));
            }
            let ghost before = text.children_view();
            text = text.push(BoxWidget::Text(t));
            proof {
                assert forall|j: int| 0 <= j < i implies text.children_view()[j] == before[j] by {}
            }
            i += 1;
        }
        // The command bar.
        let src_cmd = joined_rows(&self.command, &self.size);
        let colon = if self.mode == Mode::Command {
            proof {
                reveal_strlit(":");
                assert(":"@ =~= seq![':']);
            }
            ":"
        } else {
            proof {
                reveal_strlit(" ");
                assert(" "@ =~= seq![' ']);
            }
            " "
        };
        let rest = if width > 0 {
            width - 1
        } else {
            0
        };
        let cmd = Container::new(Rect::new(Size { width, height: 1 }), Stack::Horizontally).push(
            BoxWidget::Text(Text::new(colon).max_width(1)),
        ).push(BoxWidget::Text(Text::new(src_cmd.as_str()).max_width(rest)));
        // The status bar.
        let mode_status = status_text(self.mode.name(), 8);
        let name = buf.name_of();
        let name_len = name.as_str().len();
        let filename_status = status_text(name.as_str(), name_len as u16);
        let pos = buf.get_cursor().pos;
        let used = mode_status.char_len() + filename_status.char_len();
        let cursor_width = width - used as u16;
        let mut place = decimal_chars(pos.y as usize);
        place.push('/');
        extend_chars(&mut place, decimal_chars(pos.x as usize).as_slice());
        let place = string_of(place.as_slice());
        let cursor_pos_status = status_text(place.as_str(), cursor_width).with_alignment(
            Alignment::Right,
        );
        let status = Container::new(Rect::new(Size { width, height: 1 }), Stack::Horizontally).push(
            BoxWidget::Text(mode_status),
        ).push(BoxWidget::Text(filename_status)).push(BoxWidget::Text(cursor_pos_status));
        // The status bar over the command bar, under the text area.
        let info = Container::new(Rect::new(Size { width, height: 2 }), Stack::Vertically).push(
            BoxWidget::Container(status),
        ).push(BoxWidget::Container(cmd));
        let root = Container::new(rect, Stack::Vertically).push(BoxWidget::Container(text)).push(
            BoxWidget::Container(info),
        );
        let r = BoxWidget::Container(root);
        proof {
            assert(child(r, 0) == BoxWidget::Container(text));
            assert forall|j: int| 0 <= j < height implies text_shows(
                #[trigger] child(child(r, 0), j),
                newlines_to_spaces(text_area_row(v, j)),
                width,
                plain_style(),
                Alignment::Left,
            ) by {
                assert(child(child(r, 0), j) == text.children_view()[j]);
            }
            let info_b = child(r, 1);
            assert(child(info_b, 0) == BoxWidget::Container(status));
            assert(child(info_b, 1) == BoxWidget::Container(cmd));
            assert(container_holds(child(r, 0), Rect { x: 0, y: 0, width, height: (height - 2) as u16 }, Stack::Vertically, height as nat));
            assert(text_shows(child(BoxWidget::Container(status), 0), newlines_to_spaces(mode_name(v.mode)), 8, status_style(), Alignment::Left));
            assert(text_shows(child(BoxWidget::Container(status), 1), newlines_to_spaces(v.buffers[v.focused as int].0), byte_len(v.buffers[v.focused as int].0) as u16, status_style(), Alignment::Left));
            assert(cursor_width == status_width(v));
            assert(place@ == decimal(pos.y as nat) + seq!['/'] + decimal(pos.x as nat));
            assert(src_cmd@ == screen_text(v.command.1, v.command.2, v.size));
        }
        r
    }
}

} // verus!
