//! Positions, sizes and rectangles on the terminal screen, and how widgets
//! are stacked and aligned.
use vstd::prelude::*;

verus! {

/// Horizontal alignment of text inside its width.
#[derive(Debug, Clone, Copy, PartialEq, Eq, Structural)]
pub enum Alignment {
    Left,
    Right,
    Center,
}

impl Default for Alignment {
    fn default() -> (a: Alignment)
        ensures
            a == Alignment::Left,
    {
        Alignment::Left
    }
}

/// Whether a widget fills its space or shrinks to its content.
#[derive(Debug, Clone, Copy, PartialEq, Eq, Structural)]
pub enum Spacing {
    Fill,
    Shrink,
}

impl Default for Spacing {
    fn default() -> (s: Spacing)
        ensures
            s == Spacing::Shrink,
    {
        Spacing::Shrink
    }
}

/// The direction in which a container places its children.
#[derive(Debug, Clone, Copy, PartialEq, Eq, Structural)]
pub enum Stack {
    Vertically,
    Horizontally,
}

impl Default for Stack {
    fn default() -> (s: Stack)
        ensures
            s == Stack::Horizontally,
    {
        Stack::Horizontally
    }
}

/// A rectangle of the screen: its top-left corner and its size.
#[derive(Debug, Clone, Copy, Default, PartialEq, Eq, PartialOrd, Ord, Structural)]
pub struct Rect {
    pub x: u16,
    pub y: u16,
    pub width: u16,
    pub height: u16,
}

impl Rect {
    /// A rectangle of the given size at the origin.
    pub fn new(size: Size) -> (r: Rect)
        ensures
            r == (Rect { x: 0, y: 0, width: size.width, height: size.height }),
    {
        Self::with_position(Pos::new(0, 0), size)
    }

    /// A rectangle of the given size with its corner at `pos`.
    pub fn with_position(pos: Pos, size: Size) -> (r: Rect)
        ensures
            r == (Rect { x: pos.x, y: pos.y, width: size.width, height: size.height }),
    {
        Rect { x: pos.x, y: pos.y, width: size.width, height: size.height }
    }

    pub fn x(&self) -> (r: u16)
        ensures
            r == self.x,
    {
        self.x
    }

    pub fn y(&self) -> (r: u16)
        ensures
            r == self.y,
    {
        self.y
    }

    pub fn width(&self) -> (r: u16)
        ensures
            r == self.width,
    {
        self.width
    }

    pub fn height(&self) -> (r: u16)
        ensures
            r == self.height,
    {
        self.height
    }
}

/// A point of the screen.
#[derive(Debug, Default, Clone, Copy, PartialEq, Eq, PartialOrd, Ord, Hash, Structural)]
pub struct Pos {
    pub x: u16,
    pub y: u16,
}

impl Pos {
    pub fn new(x: u16, y: u16) -> (p: Pos)
        ensures
            p == (Pos { x, y }),
    {
        Pos { x, y }
    }
}

/// A width and a height on the screen.
#[derive(Debug, Default, Clone, Copy, PartialEq, Eq, PartialOrd, Ord, Hash, Structural)]
pub struct Size {
    pub width: u16,
    pub height: u16,
}

impl Size {
    pub fn new(width: u16, height: u16) -> (s: Size)
        ensures
            s == (Size { width, height }),
    {
        Size { width, height }
    }
}

} // verus!
