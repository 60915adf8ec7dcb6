//! Positions in a window or a file: a column and a line.
use vstd::prelude::*;
use crate::strings::{decimal, decimal_chars, extend_chars, string_of};

verus! {

/// A position written as `x/y`.
pub open spec fn pos_text(p: Position) -> Seq<char> {
    decimal(p.x as nat) + seq!['/'] + decimal(p.y as nat)
}

/// A column `x` and a line `y`.
#[derive(Debug, Default, Clone, Copy, PartialEq, Eq, Hash, Structural)]
pub struct Position {
    pub x: usize,
    pub y: usize,
}

impl Position {
    pub fn new(x: usize, y: usize) -> (p: Position)
        ensures
            p == (Position { x, y }),
    {
        Position { x, y }
    }

    pub fn new_u16(x: u16, y: u16) -> (p: Position)
        ensures
            p == (Position { x: x as usize, y: y as usize }),
    {
        Position { x: x as usize, y: y as usize }
    }

    pub fn set_x(&mut self, x: usize)
        ensures
            *final(self) == (Position { x, y: old(self).y }),
    {
        self.x = x
    }

    pub fn set_y(&mut self, y: usize)
        ensures
            *final(self) == (Position { x: old(self).x, y }),
    {
        self.y = y
    }

    /// Moves right by `x` columns, stopping at the largest column.
    pub fn add_to_x(&mut self, x: usize)
        ensures
            final(self).y == old(self).y,
            final(self).x == if old(self).x + x > usize::MAX {
                usize::MAX
            } else {
                (old(self).x + x) as usize
            },
    {
        self.x = self.x.saturating_add(x);
    }

    /// Moves down by `y` lines, stopping at the largest line.
    pub fn _add_to_y(&mut self, y: usize)
        ensures
            final(self).x == old(self).x,
            final(self).y == if old(self).y + y > usize::MAX {
                usize::MAX
            } else {
                (old(self).y + y) as usize
            },
    {
        self.y = self.y.saturating_add(y);
    }

    pub fn as_usize(&self) -> (r: (usize, usize))
        ensures
            r == (self.x, self.y),
    {
        (self.x, self.y)
    }

    pub fn as_usize_x(&self) -> (r: usize)
        ensures
            r == self.x,
    {
        self.x
    }

    pub fn as_usize_y(&self) -> (r: usize)
        ensures
            r == self.y,
    {
        self.y
    }

    /// Both numbers cut to 16 bits.
    pub fn as_u16(&self) -> (r: (u16, u16))
        ensures
            r == (self.x as u16, self.y as u16),
    {
        (self.x as u16, self.y as u16)
    }

    /// The column cut to 16 bits.
    pub fn as_u16_x(&self) -> (r: u16)
        ensures
            r == self.x as u16,
    {
        self.x as u16
    }

    /// The line cut to 16 bits.
    pub fn as_u16_y(&self) -> (r: u16)
        ensures
            r == self.y as u16,
    {
        self.y as u16
    }

    /// The sum of two positions, number by number.
    pub fn plus(self, other: Position) -> (r: Position)
        requires
            self.x + other.x <= usize::MAX,
            self.y + other.y <= usize::MAX,
        ensures
            r == (Position { x: (self.x + other.x) as usize, y: (self.y + other.y) as usize }),
    {
        Position { x: self.x + other.x, y: self.y + other.y }
    }

    /// The position written as `x/y`.
    pub fn to_string(&self) -> (s: String)
        ensures
            s@ == pos_text(*self),
    {
        let mut v = decimal_chars(self.x);
        v.push('/');
        let y = decimal_chars(self.y);
        extend_chars(&mut v, y.as_slice());
        string_of(v.as_slice())
    }
}

} // verus!
