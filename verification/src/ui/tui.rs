//! What a drawable editor hands the terminal: text at places, and where the
//! cursor goes in which shape.
use vstd::prelude::*;

verus! {

/// The shape of the terminal's cursor.
#[derive(Debug, Clone, Copy, PartialEq, Eq, Structural)]
pub enum CursorShape {
    UnderScore,
    Line,
    Block,
}

/// How the terminal draws its cursor.
#[derive(Debug, Clone, Copy, PartialEq, Eq, Structural)]
pub enum CursorStyle {
    DefaultUserShape,
    BlinkingBlock,
    SteadyBlock,
    BlinkingUnderScore,
    SteadyUnderScore,
    BlinkingBar,
    SteadyBar,
}

/// Something the terminal can draw: lines of text at places on the
/// terminal, and the cursor's place and shape.
pub trait Display {
    /// The lines to draw, each group at its column and row.
    fn render(&mut self) -> Vec<(u16, u16, Vec<String>)>;

    /// Where the cursor goes, and in which shape.
    fn cursor(&self) -> (u16, u16, Option<CursorShape>);
}

} // verus!
