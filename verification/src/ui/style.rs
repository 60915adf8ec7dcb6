//! Colors and text attributes of what is drawn on the terminal: the same
//! colors, attributes and styles the terminal library draws with.
use vstd::prelude::*;

verus! {

/// A terminal color.
#[derive(Debug, Clone, Copy, PartialEq, Eq, Hash, Structural)]
pub enum Color {
    Reset,
    Black,
    DarkGrey,
    Red,
    DarkRed,
    Green,
    DarkGreen,
    Yellow,
    DarkYellow,
    Blue,
    DarkBlue,
    Magenta,
    DarkMagenta,
    Cyan,
    DarkCyan,
    White,
    Grey,
    Rgb { r: u8, g: u8, b: u8 },
    AnsiValue(u8),
}

/// A text attribute.
#[derive(Debug, Clone, Copy, PartialEq, Eq, Hash, Structural)]
pub enum Attribute {
    Reset,
    Bold,
    Dim,
    Italic,
    Underlined,
    DoubleUnderlined,
    Undercurled,
    Underdotted,
    Underdashed,
    SlowBlink,
    RapidBlink,
    Reverse,
    Hidden,
    CrossedOut,
    Fraktur,
    NoBold,
    NormalIntensity,
    NoItalic,
    NoUnderline,
    NoBlink,
    NoReverse,
    NoHidden,
    NotCrossedOut,
    Framed,
    Encircled,
    OverLined,
    NotFramedOrEncircled,
    NotOverLined,
}

/// The bit of an attribute in a set of attributes.
pub open spec fn attribute_bit(a: Attribute) -> u32 {
    match a {
        Attribute::Reset => 0x2,
        Attribute::Bold => 0x4,
        Attribute::Dim => 0x8,
        Attribute::Italic => 0x10,
        Attribute::Underlined => 0x20,
        Attribute::DoubleUnderlined => 0x40,
        Attribute::Undercurled => 0x80,
        Attribute::Underdotted => 0x100,
        Attribute::Underdashed => 0x200,
        Attribute::SlowBlink => 0x400,
        Attribute::RapidBlink => 0x800,
        Attribute::Reverse => 0x1000,
        Attribute::Hidden => 0x2000,
        Attribute::CrossedOut => 0x4000,
        Attribute::Fraktur => 0x8000,
        Attribute::NoBold => 0x10000,
        Attribute::NormalIntensity => 0x20000,
        Attribute::NoItalic => 0x40000,
        Attribute::NoUnderline => 0x80000,
        Attribute::NoBlink => 0x100000,
        Attribute::NoReverse => 0x200000,
        Attribute::NoHidden => 0x400000,
        Attribute::NotCrossedOut => 0x800000,
        Attribute::Framed => 0x1000000,
        Attribute::Encircled => 0x2000000,
        Attribute::OverLined => 0x4000000,
        Attribute::NotFramedOrEncircled => 0x8000000,
        Attribute::NotOverLined => 0x10000000,
    }
}

impl Attribute {
    /// The bit of this attribute in a set of attributes.
    pub fn bytes(self) -> (r: u32)
        ensures
            r == attribute_bit(self),
    {
        match self {
            Attribute::Reset => 0x2,
            Attribute::Bold => 0x4,
            Attribute::Dim => 0x8,
            Attribute::Italic => 0x10,
            Attribute::Underlined => 0x20,
            Attribute::DoubleUnderlined => 0x40,
            Attribute::Undercurled => 0x80,
            Attribute::Underdotted => 0x100,
            Attribute::Underdashed => 0x200,
            Attribute::SlowBlink => 0x400,
            Attribute::RapidBlink => 0x800,
            Attribute::Reverse => 0x1000,
            Attribute::Hidden => 0x2000,
            Attribute::CrossedOut => 0x4000,
            Attribute::Fraktur => 0x8000,
            Attribute::NoBold => 0x10000,
            Attribute::NormalIntensity => 0x20000,
            Attribute::NoItalic => 0x40000,
            Attribute::NoUnderline => 0x80000,
            Attribute::NoBlink => 0x100000,
            Attribute::NoReverse => 0x200000,
            Attribute::NoHidden => 0x400000,
            Attribute::NotCrossedOut => 0x800000,
            Attribute::Framed => 0x1000000,
            Attribute::Encircled => 0x2000000,
            Attribute::OverLined => 0x4000000,
            Attribute::NotFramedOrEncircled => 0x8000000,
            Attribute::NotOverLined => 0x10000000,
        }
    }
}

/// A set of text attributes, one bit each.
#[derive(Debug, Clone, Copy, PartialEq, Eq, Hash, Structural)]
pub struct Attributes {
    pub bits: u32,
}

impl Default for Attributes {
    fn default() -> (a: Attributes)
        ensures
            a.bits == 0,
    {
        Attributes { bits: 0 }
    }
}

impl vstd::std_specs::convert::FromSpecImpl<Attribute> for Attributes {
    open spec fn obeys_from_spec() -> bool {
        true
    }

    open spec fn from_spec(a: Attribute) -> Attributes {
        Attributes { bits: attribute_bit(a) }
    }
}

impl From<Attribute> for Attributes {
    /// The set holding just `a`.
    fn from(a: Attribute) -> Attributes {
        Attributes { bits: a.bytes() }
    }
}

/// How text is drawn: its colors and attributes.
#[derive(Debug, Clone, Copy, PartialEq, Eq, Hash, Structural)]
pub struct Style {
    pub foreground_color: Option<Color>,
    pub background_color: Option<Color>,
    pub underline_color: Option<Color>,
    pub attributes: Attributes,
}

impl Style {
    /// The plain style: no colors, no attributes.
    pub open spec fn plain() -> Style {
        Style {
            foreground_color: None,
            background_color: None,
            underline_color: None,
            attributes: Attributes { bits: 0 },
        }
    }

    /// The plain style: no colors, no attributes.
    pub fn new() -> (s: Style)
        ensures
            s == (Style {
                foreground_color: None,
                background_color: None,
                underline_color: None,
                attributes: Attributes { bits: 0 },
            }),
    {
        Style {
            foreground_color: None,
            background_color: None,
            underline_color: None,
            attributes: Attributes { bits: 0 },
        }
    }
}

} // verus!
