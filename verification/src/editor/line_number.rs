//! The kinds of line-number gutter a window can show.
use vstd::prelude::*;

verus! {

/// A gutter of relative or absolute numbers of a width, or none.
#[derive(Debug, Clone, PartialEq, Eq, Structural)]
pub enum LineNumbers {
    RelativeNumber(u16),
    AbsoluteNumber(u16),
    Off,
}

impl LineNumbers {
    /// The width of the gutter: its own width, or 0 for none.
    pub fn width(&self) -> (r: usize)
        ensures
            r == match *self {
                LineNumbers::AbsoluteNumber(w) => w as usize,
                LineNumbers::RelativeNumber(w) => w as usize,
                LineNumbers::Off => 0usize,
            },
    {
        match self {
            Self::AbsoluteNumber(w) | Self::RelativeNumber(w) => *w as usize,
            Self::Off => 0,
        }
    }
}

} // verus!
