//! What the editor asks the terminal to draw.
use vstd::prelude::*;
use crate::editor::position::Position;

verus! {

/// A drawing request: a window's text, a status bar or line numbers at a
/// place on the terminal, the cursor's place, or the cursor's shape.
#[derive(Debug, Clone)]
pub enum Render {
    Window { pos: Position, text: String },
    StatusBar { pos: Position, text: String },
    LineNumbers { pos: Position, text: String },
    Cursor(Position),
    CursorShapeBlock,
    CursorShapeLine,
}

/// A drawing request with its text as a sequence of characters.
pub enum RenderView {
    Window { pos: Position, text: Seq<char> },
    StatusBar { pos: Position, text: Seq<char> },
    LineNumbers { pos: Position, text: Seq<char> },
    Cursor(Position),
    CursorShapeBlock,
    CursorShapeLine,
}

impl View for Render {
    type V = RenderView;

    open spec fn view(&self) -> RenderView {
        match self {
            Render::Window { pos, text } => RenderView::Window { pos: *pos, text: text@ },
            Render::StatusBar { pos, text } => RenderView::StatusBar { pos: *pos, text: text@ },
            Render::LineNumbers { pos, text } => RenderView::LineNumbers { pos: *pos, text: text@ },
            Render::Cursor(p) => RenderView::Cursor(*p),
            Render::CursorShapeBlock => RenderView::CursorShapeBlock,
            Render::CursorShapeLine => RenderView::CursorShapeLine,
        }
    }
}

/// The views of a list of drawing requests.
pub open spec fn render_views(v: Seq<Render>) -> Seq<RenderView> {
    v.map_values(|r: Render| r@)
}

} // verus!
