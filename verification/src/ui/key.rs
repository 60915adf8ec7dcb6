//! Keys as the editor reads them: one key, or a key with a modifier held,
//! and the conversions from characters, key names, function-key numbers
//! and terminal key events.
use vstd::prelude::*;
use crate::strings::{str_eq, to_lower_spec, to_lowercase};

verus! {

/// A key press: a key alone, or a key with a modifier key held.
#[derive(Debug, Copy, Clone, PartialEq, Eq, Hash, Structural)]
pub enum Keys {
    Key(Key),
    KeyAndMod { key: Key, modk: Key },
}

/// One key.
#[derive(Debug, Copy, Clone, PartialEq, Eq, Hash, Structural)]
pub enum Key {
    LA,
    LB,
    LC,
    LD,
    LE,
    LF,
    LG,
    LH,
    LI,
    LJ,
    LK,
    LL,
    LM,
    LN,
    LO,
    LP,
    LQ,
    LR,
    LS,
    LT,
    LU,
    LV,
    LW,
    LX,
    LY,
    LZ,
    UA,
    UB,
    UC,
    UD,
    UE,
    UF,
    UG,
    UH,
    UI,
    UJ,
    UK,
    UL,
    UM,
    UN,
    UO,
    UP,
    UQ,
    UR,
    US,
    UT,
    UU,
    UV,
    UW,
    UX,
    UY,
    UZ,
    N0,
    N1,
    N2,
    N3,
    N4,
    N5,
    N6,
    N7,
    N8,
    N9,
    F1,
    F2,
    F3,
    F4,
    F5,
    F6,
    F7,
    F8,
    F9,
    F10,
    F11,
    F12,
    Backspace,
    Enter,
    Left,
    Right,
    Up,
    Down,
    Home,
    End,
    PageUp,
    PageDown,
    Tab,
    BackTab,
    Delete,
    Insert,
    Esc,
    Ctrl,
    Alt,
    Shift,
    Space,
    Null,
    Colon,
    SimiColon,
    Caret,
    Char(char),
}

/// The key a character types.
pub open spec fn key_of_char(c: char) -> Key {
    if c == 'a' {
        Key::LA
    }
    else if c == 'b' {
        Key::LB
    }
    else if c == 'c' {
        Key::LC
    }
    else if c == 'd' {
        Key::LD
    }
    else if c == 'e' {
        Key::LE
    }
    else if c == 'f' {
        Key::LF
    }
    else if c == 'g' {
        Key::LG
    }
    else if c == 'h' {
        Key::LH
    }
    else if c == 'i' {
        Key::LI
    }
    else if c == 'j' {
        Key::LJ
    }
    else if c == 'k' {
        Key::LK
    }
    else if c == 'l' {
        Key::LL
    }
    else if c == 'm' {
        Key::LM
    }
    else if c == 'n' {
        Key::LN
    }
    else if c == 'o' {
        Key::LO
    }
    else if c == 'p' {
        Key::LP
    }
    else if c == 'q' {
        Key::LQ
    }
    else if c == 'r' {
        Key::LR
    }
    else if c == 's' {
        Key::LS
    }
    else if c == 't' {
        Key::LT
    }
    else if c == 'u' {
        Key::LU
    }
    else if c == 'v' {
        Key::LV
    }
    else if c == 'w' {
        Key::LW
    }
    else if c == 'x' {
        Key::LX
    }
    else if c == 'y' {
        Key::LY
    }
    else if c == 'z' {
        Key::LZ
    }
    else if c == 'A' {
        Key::UA
    }
    else if c == 'B' {
        Key::UB
    }
    else if c == 'C' {
        Key::UC
    }
    else if c == 'D' {
        Key::UD
    }
    else if c == 'E' {
        Key::UE
    }
    else if c == 'F' {
        Key::UF
    }
    else if c == 'G' {
        Key::UG
    }
    else if c == 'H' {
        Key::UH
    }
    else if c == 'I' {
        Key::UI
    }
    else if c == 'J' {
        Key::UJ
    }
    else if c == 'K' {
        Key::UK
    }
    else if c == 'L' {
        Key::UL
    }
    else if c == 'M' {
        Key::UM
    }
    else if c == 'N' {
        Key::UN
    }
    else if c == 'O' {
        Key::UO
    }
    else if c == 'P' {
        Key::UP
    }
    else if c == 'Q' {
        Key::UQ
    }
    else if c == 'R' {
        Key::UR
    }
    else if c == 'S' {
        Key::US
    }
    else if c == 'T' {
        Key::UT
    }
    else if c == 'U' {
        Key::UU
    }
    else if c == 'V' {
        Key::UV
    }
    else if c == 'W' {
        Key::UW
    }
    else if c == 'X' {
        Key::UX
    }
    else if c == 'Y' {
        Key::UY
    }
    else if c == 'Z' {
        Key::UZ
    }
    else if c == '0' {
        Key::N0
    }
    else if c == '1' {
        Key::N1
    }
    else if c == '2' {
        Key::N2
    }
    else if c == '3' {
        Key::N3
    }
    else if c == '4' {
        Key::N4
    }
    else if c == '5' {
        Key::N5
    }
    else if c == '6' {
        Key::N6
    }
    else if c == '7' {
        Key::N7
    }
    else if c == '8' {
        Key::N8
    }
    else if c == '9' {
        Key::N9
    }
    else if c == ':' {
        Key::Colon
    }
    else if c == ';' {
        Key::SimiColon
    }
    else if c == '^' {
        Key::Caret
    }
    else {
        Key::Char(c)
    }
}

/// The function key numbered `n`; numbers past eleven give F12.
pub open spec fn key_of_number(n: u8) -> Key {
    if n == 1 {
        Key::F1
    }
    else if n == 2 {
        Key::F2
    }
    else if n == 3 {
        Key::F3
    }
    else if n == 4 {
        Key::F4
    }
    else if n == 5 {
        Key::F5
    }
    else if n == 6 {
        Key::F6
    }
    else if n == 7 {
        Key::F7
    }
    else if n == 8 {
        Key::F8
    }
    else if n == 9 {
        Key::F9
    }
    else if n == 10 {
        Key::F10
    }
    else if n == 11 {
        Key::F11
    }
    else {
        Key::F12
    }
}

/// The key a lowercase key name stands for; `Null` for an unknown name.
pub open spec fn key_of_name(s: Seq<char>) -> Key {
    if s == "ctrl"@ {
        Key::Ctrl
    }
    else if s == "alt"@ {
        Key::Alt
    }
    else if s == "space"@ {
        Key::Space
    }
    else if s == "esc"@ {
        Key::Esc
    }
    else if s == "enter"@ {
        Key::Enter
    }
    else if s == "backspace"@ {
        Key::Backspace
    }
    else if s == "left"@ {
        Key::Left
    }
    else if s == "right"@ {
        Key::Right
    }
    else if s == "up"@ {
        Key::Up
    }
    else if s == "down"@ {
        Key::Down
    }
    else if s == "home"@ {
        Key::Home
    }
    else if s == "end"@ {
        Key::End
    }
    else if s == "pageup"@ {
        Key::PageUp
    }
    else if s == "pagedown"@ {
        Key::PageDown
    }
    else if s == "tab"@ {
        Key::Tab
    }
    else if s == "backtab"@ {
        Key::BackTab
    }
    else if s == "delete"@ {
        Key::Delete
    }
    else if s == "insert"@ {
        Key::Insert
    }
    else if s == "f1"@ {
        Key::F1
    }
    else if s == "f2"@ {
        Key::F2
    }
    else if s == "f3"@ {
        Key::F3
    }
    else if s == "f4"@ {
        Key::F4
    }
    else if s == "f5"@ {
        Key::F5
    }
    else if s == "f6"@ {
        Key::F6
    }
    else if s == "f7"@ {
        Key::F7
    }
    else if s == "f8"@ {
        Key::F8
    }
    else if s == "f9"@ {
        Key::F9
    }
    else if s == "f10"@ {
        Key::F10
    }
    else if s == "f11"@ {
        Key::F11
    }
    else if s == "f12"@ {
        Key::F12
    }
    else {
        Key::Null
    }
}

/// The character a key stands for; `'\0'` for a key that types none.
pub open spec fn char_of_key(k: Key) -> char {
    match k {
        Key::LA => 'a',
        Key::LB => 'b',
        Key::LC => 'c',
        Key::LD => 'd',
        Key::LE => 'e',
        Key::LF => 'f',
        Key::LG => 'g',
        Key::LH => 'h',
        Key::LI => 'i',
        Key::LJ => 'j',
        Key::LK => 'k',
        Key::LL => 'l',
        Key::LM => 'm',
        Key::LN => 'n',
        Key::LO => 'o',
        Key::LP => 'p',
        Key::LQ => 'q',
        Key::LR => 'r',
        Key::LS => 's',
        Key::LT => 't',
        Key::LU => 'u',
        Key::LV => 'v',
        Key::LW => 'w',
        Key::LX => 'x',
        Key::LY => 'y',
        Key::LZ => 'z',
        Key::UA => 'A',
        Key::UB => 'B',
        Key::UC => 'C',
        Key::UD => 'D',
        Key::UE => 'E',
        Key::UF => 'F',
        Key::UG => 'G',
        Key::UH => 'H',
        Key::UI => 'I',
        Key::UJ => 'J',
        Key::UK => 'K',
        Key::UL => 'L',
        Key::UM => 'M',
        Key::UN => 'N',
        Key::UO => 'O',
        Key::UP => 'P',
        Key::UQ => 'Q',
        Key::UR => 'R',
        Key::US => 'S',
        Key::UT => 'T',
        Key::UU => 'U',
        Key::UV => 'V',
        Key::UW => 'W',
        Key::UX => 'X',
        Key::UY => 'Y',
        Key::UZ => 'Z',
        Key::N0 => '0',
        Key::N1 => '1',
        Key::N2 => '2',
        Key::N3 => '3',
        Key::N4 => '4',
        Key::N5 => '5',
        Key::N6 => '6',
        Key::N7 => '7',
        Key::N8 => '8',
        Key::N9 => '9',
        Key::Colon => ':',
        Key::SimiColon => ';',
        Key::Char(c) => c,
        _ => '\0',
    }
}

/// The digit a key stands for.
pub open spec fn digit_of_key(k: Key) -> Option<usize> {
    match k {
        Key::N0 => Some(0usize),
        Key::N1 => Some(1usize),
        Key::N2 => Some(2usize),
        Key::N3 => Some(3usize),
        Key::N4 => Some(4usize),
        Key::N5 => Some(5usize),
        Key::N6 => Some(6usize),
        Key::N7 => Some(7usize),
        Key::N8 => Some(8usize),
        Key::N9 => Some(9usize),
        _ => None,
    }
}

impl vstd::std_specs::convert::FromSpecImpl<char> for Key {
    open spec fn obeys_from_spec() -> bool {
        true
    }

    open spec fn from_spec(c: char) -> Key {
        key_of_char(c)
    }
}

impl From<char> for Key {
    fn from(c: char) -> Key {
        match c {
            'a' => Self::LA,
            'b' => Self::LB,
            'c' => Self::LC,
            'd' => Self::LD,
            'e' => Self::LE,
            'f' => Self::LF,
            'g' => Self::LG,
            'h' => Self::LH,
            'i' => Self::LI,
            'j' => Self::LJ,
            'k' => Self::LK,
            'l' => Self::LL,
            'm' => Self::LM,
            'n' => Self::LN,
            'o' => Self::LO,
            'p' => Self::LP,
            'q' => Self::LQ,
            'r' => Self::LR,
            's' => Self::LS,
            't' => Self::LT,
            'u' => Self::LU,
            'v' => Self::LV,
            'w' => Self::LW,
            'x' => Self::LX,
            'y' => Self::LY,
            'z' => Self::LZ,
            'A' => Self::UA,
            'B' => Self::UB,
            'C' => Self::UC,
            'D' => Self::UD,
            'E' => Self::UE,
            'F' => Self::UF,
            'G' => Self::UG,
            'H' => Self::UH,
            'I' => Self::UI,
            'J' => Self::UJ,
            'K' => Self::UK,
            'L' => Self::UL,
            'M' => Self::UM,
            'N' => Self::UN,
            'O' => Self::UO,
            'P' => Self::UP,
            'Q' => Self::UQ,
            'R' => Self::UR,
            'S' => Self::US,
            'T' => Self::UT,
            'U' => Self::UU,
            'V' => Self::UV,
            'W' => Self::UW,
            'X' => Self::UX,
            'Y' => Self::UY,
            'Z' => Self::UZ,
            '0' => Self::N0,
            '1' => Self::N1,
            '2' => Self::N2,
            '3' => Self::N3,
            '4' => Self::N4,
            '5' => Self::N5,
            '6' => Self::N6,
            '7' => Self::N7,
            '8' => Self::N8,
            '9' => Self::N9,
            ':' => Self::Colon,
            ';' => Self::SimiColon,
            '^' => Self::Caret,
            _ => Self::Char(c),
        }
    }
}

impl vstd::std_specs::convert::FromSpecImpl<u8> for Key {
    open spec fn obeys_from_spec() -> bool {
        true
    }

    open spec fn from_spec(n: u8) -> Key {
        key_of_number(n)
    }
}

impl From<u8> for Key {
    fn from(num: u8) -> Key {
        match num {
            1 => Self::F1,
            2 => Self::F2,
            3 => Self::F3,
            4 => Self::F4,
            5 => Self::F5,
            6 => Self::F6,
            7 => Self::F7,
            8 => Self::F8,
            9 => Self::F9,
            10 => Self::F10,
            11 => Self::F11,
            _ => Self::F12,
        }
    }
}

/// Which key a lowercase name stands for.
fn key_from_lower_name(s: &str) -> (k: Key)
    ensures
        k == key_of_name(s@),
{
    if str_eq(s, "ctrl") {
        Key::Ctrl
    }
    else if str_eq(s, "alt") {
        Key::Alt
    }
    else if str_eq(s, "space") {
        Key::Space
    }
    else if str_eq(s, "esc") {
        Key::Esc
    }
    else if str_eq(s, "enter") {
        Key::Enter
    }
    else if str_eq(s, "backspace") {
        Key::Backspace
    }
    else if str_eq(s, "left") {
        Key::Left
    }
    else if str_eq(s, "right") {
        Key::Right
    }
    else if str_eq(s, "up") {
        Key::Up
    }
    else if str_eq(s, "down") {
        Key::Down
    }
    else if str_eq(s, "home") {
        Key::Home
    }
    else if str_eq(s, "end") {
        Key::End
    }
    else if str_eq(s, "pageup") {
        Key::PageUp
    }
    else if str_eq(s, "pagedown") {
        Key::PageDown
    }
    else if str_eq(s, "tab") {
        Key::Tab
    }
    else if str_eq(s, "backtab") {
        Key::BackTab
    }
    else if str_eq(s, "delete") {
        Key::Delete
    }
    else if str_eq(s, "insert") {
        Key::Insert
    }
    else if str_eq(s, "f1") {
        Key::from(1u8)
    }
    else if str_eq(s, "f2") {
        Key::from(2u8)
    }
    else if str_eq(s, "f3") {
        Key::from(3u8)
    }
    else if str_eq(s, "f4") {
        Key::from(4u8)
    }
    else if str_eq(s, "f5") {
        Key::from(5u8)
    }
    else if str_eq(s, "f6") {
        Key::from(6u8)
    }
    else if str_eq(s, "f7") {
        Key::from(7u8)
    }
    else if str_eq(s, "f8") {
        Key::from(8u8)
    }
    else if str_eq(s, "f9") {
        Key::from(9u8)
    }
    else if str_eq(s, "f10") {
        Key::from(10u8)
    }
    else if str_eq(s, "f11") {
        Key::from(11u8)
    }
    else if str_eq(s, "f12") {
        Key::from(12u8)
    }
    else {
        Key::Null
    }
}

impl vstd::std_specs::convert::FromSpecImpl<&str> for Key {
    open spec fn obeys_from_spec() -> bool {
        true
    }

    open spec fn from_spec(c: &str) -> Key {
        key_of_name(to_lower_spec(c@))
    }
}

impl From<&str> for Key {
    /// The key named by `c`, in any case: `"Esc"` and `"esc"` both give
    /// `Esc`, `"f5"` gives `F5`; any other name gives `Null`.
    fn from(c: &str) -> Key {
        let lower = to_lowercase(c);
        key_from_lower_name(lower.as_str())
    }
}

impl Key {
    /// The digit this key stands for, if it is a digit key.
    pub fn try_digit(self) -> (r: Option<usize>)
        ensures
            r == digit_of_key(self),
    {
        match self {
            Self::N0 => Some(0),
            Self::N1 => Some(1),
            Self::N2 => Some(2),
            Self::N3 => Some(3),
            Self::N4 => Some(4),
            Self::N5 => Some(5),
            Self::N6 => Some(6),
            Self::N7 => Some(7),
            Self::N8 => Some(8),
            Self::N9 => Some(9),
            _ => None,
        }
    }

    /// The key and the modifier of a terminal key event.
    pub fn from_event(key: KeyEvent) -> (r: (Key, Key))
        ensures
            r == (key_of_code(key.code), key_of_modifiers(key.modifiers)),
    {
        (Key::from(key.code), Key::from(key.modifiers))
    }

    /// The character this key types; `'\0'` for keys that type none.
    pub fn as_char(self) -> (c: char)
        ensures
            c == char_of_key(self),
    {
        match self {
            Self::LA => 'a',
            Self::LB => 'b',
            Self::LC => 'c',
            Self::LD => 'd',
            Self::LE => 'e',
            Self::LF => 'f',
            Self::LG => 'g',
            Self::LH => 'h',
            Self::LI => 'i',
            Self::LJ => 'j',
            Self::LK => 'k',
            Self::LL => 'l',
            Self::LM => 'm',
            Self::LN => 'n',
            Self::LO => 'o',
            Self::LP => 'p',
            Self::LQ => 'q',
            Self::LR => 'r',
            Self::LS => 's',
            Self::LT => 't',
            Self::LU => 'u',
            Self::LV => 'v',
            Self::LW => 'w',
            Self::LX => 'x',
            Self::LY => 'y',
            Self::LZ => 'z',
            Self::UA => 'A',
            Self::UB => 'B',
            Self::UC => 'C',
            Self::UD => 'D',
            Self::UE => 'E',
            Self::UF => 'F',
            Self::UG => 'G',
            Self::UH => 'H',
            Self::UI => 'I',
            Self::UJ => 'J',
            Self::UK => 'K',
            Self::UL => 'L',
            Self::UM => 'M',
            Self::UN => 'N',
            Self::UO => 'O',
            Self::UP => 'P',
            Self::UQ => 'Q',
            Self::UR => 'R',
            Self::US => 'S',
            Self::UT => 'T',
            Self::UU => 'U',
            Self::UV => 'V',
            Self::UW => 'W',
            Self::UX => 'X',
            Self::UY => 'Y',
            Self::UZ => 'Z',
            Self::N0 => '0',
            Self::N1 => '1',
            Self::N2 => '2',
            Self::N3 => '3',
            Self::N4 => '4',
            Self::N5 => '5',
            Self::N6 => '6',
            Self::N7 => '7',
            Self::N8 => '8',
            Self::N9 => '9',
            Self::Colon => ':',
            Self::SimiColon => ';',
            Self::Char(c) => c,
            _ => '\0',
        }
    }
}

/// The code of a terminal key event: which key was pressed.
#[derive(Debug, Copy, Clone, PartialEq, Eq, Hash, Structural)]
pub enum KeyCode {
    Backspace,
    Enter,
    Left,
    Right,
    Up,
    Down,
    Home,
    End,
    PageUp,
    PageDown,
    Tab,
    BackTab,
    Delete,
    Insert,
    F(u8),
    Char(char),
    Null,
    Esc,
}

/// The key a key code stands for.
pub open spec fn key_of_code(code: KeyCode) -> Key {
    match code {
        KeyCode::Backspace => Key::Backspace,
        KeyCode::Enter => Key::Enter,
        KeyCode::Left => Key::Left,
        KeyCode::Right => Key::Right,
        KeyCode::Up => Key::Up,
        KeyCode::Down => Key::Down,
        KeyCode::Home => Key::Home,
        KeyCode::End => Key::End,
        KeyCode::PageUp => Key::PageUp,
        KeyCode::PageDown => Key::PageDown,
        KeyCode::Tab => Key::Tab,
        KeyCode::BackTab => Key::BackTab,
        KeyCode::Delete => Key::Delete,
        KeyCode::Insert => Key::Insert,
        KeyCode::F(n) => key_of_number(n),
        KeyCode::Char(c) => key_of_char(c),
        KeyCode::Null => Key::Null,
        KeyCode::Esc => Key::Esc,
    }
}

impl vstd::std_specs::convert::FromSpecImpl<KeyCode> for Key {
    open spec fn obeys_from_spec() -> bool {
        true
    }

    open spec fn from_spec(code: KeyCode) -> Key {
        key_of_code(code)
    }
}

impl From<KeyCode> for Key {
    fn from(key: KeyCode) -> Key {
        match key {
            KeyCode::Backspace => Key::Backspace,
            KeyCode::Enter => Key::Enter,
            KeyCode::Left => Key::Left,
            KeyCode::Right => Key::Right,
            KeyCode::Up => Key::Up,
            KeyCode::Down => Key::Down,
            KeyCode::Home => Key::Home,
            KeyCode::End => Key::End,
            KeyCode::PageUp => Key::PageUp,
            KeyCode::PageDown => Key::PageDown,
            KeyCode::Tab => Key::Tab,
            KeyCode::BackTab => Key::BackTab,
            KeyCode::Delete => Key::Delete,
            KeyCode::Insert => Key::Insert,
            KeyCode::F(num) => Self::from(num),
            KeyCode::Char(c) => Self::from(c),
            KeyCode::Null => Key::Null,
            KeyCode::Esc => Key::Esc,
        }
    }
}

/// The Shift flag of a set of modifiers.
pub const SHIFT: u8 = 0b0000_0001;

/// The Control flag of a set of modifiers.
pub const CONTROL: u8 = 0b0000_0010;

/// The Alt flag of a set of modifiers.
pub const ALT: u8 = 0b0000_0100;

/// The modifier keys held during a key event, as a set of flags.
#[derive(Debug, Copy, Clone, PartialEq, Eq, Hash, Structural)]
pub struct KeyModifiers {
    pub bits: u8,
}

/// The modifier key a set of held modifiers counts as: Alt before Control;
/// Shift alone counts as none.
pub open spec fn key_of_modifiers(m: KeyModifiers) -> Key {
    if m.bits & ALT != 0 {
        Key::Alt
    } else if m.bits & CONTROL != 0 {
        Key::Ctrl
    } else {
        Key::Null
    }
}

impl vstd::std_specs::convert::FromSpecImpl<KeyModifiers> for Key {
    open spec fn obeys_from_spec() -> bool {
        true
    }

    open spec fn from_spec(m: KeyModifiers) -> Key {
        key_of_modifiers(m)
    }
}

impl From<KeyModifiers> for Key {
    fn from(key: KeyModifiers) -> Key {
        if key.bits & ALT != 0 {
            return Self::Alt;
        }
        if key.bits & CONTROL != 0 {
            return Self::Ctrl;
        }
        Self::Null
    }
}

/// A terminal key event: the key pressed and the modifiers held.
#[derive(Debug, Copy, Clone, PartialEq, Eq, Hash, Structural)]
pub struct KeyEvent {
    pub code: KeyCode,
    pub modifiers: KeyModifiers,
}

/// The key press an event stands for: the key alone when no modifier
/// counts, else the key with its modifier.
pub open spec fn keys_of_event(e: KeyEvent) -> Keys {
    let key = key_of_code(e.code);
    let modk = key_of_modifiers(e.modifiers);
    if modk == Key::Null {
        Keys::Key(key)
    } else {
        Keys::KeyAndMod { key, modk }
    }
}

impl vstd::std_specs::convert::FromSpecImpl<KeyEvent> for Keys {
    open spec fn obeys_from_spec() -> bool {
        true
    }

    open spec fn from_spec(e: KeyEvent) -> Keys {
        keys_of_event(e)
    }
}

impl From<KeyEvent> for Keys {
    fn from(event: KeyEvent) -> Keys {
        let key = Key::from(event.code);
        let modk = Key::from(event.modifiers);
        if let Key::Null = modk {
            return Self::Key(key);
        }
        Self::KeyAndMod { key, modk }
    }
}

/// Which modifier a set of held modifiers counts as: Alt whenever Alt is
/// held; Ctrl when Control is held without Alt; none when neither is, Shift
/// or not. Holding Shift as well changes nothing. An event whose modifiers
/// count gives its key together with that modifier, and then types no
/// character; an event whose modifiers do not count gives the plain key.
pub proof fn lemma_modifier_keys(m: KeyModifiers, code: KeyCode)
    ensures
        m.bits & ALT != 0 ==> key_of_modifiers(m) == Key::Alt,
        (m.bits & ALT == 0 && m.bits & CONTROL != 0) ==> key_of_modifiers(m) == Key::Ctrl,
        (m.bits & ALT == 0 && m.bits & CONTROL == 0) ==> key_of_modifiers(m) == Key::Null,
        key_of_modifiers(KeyModifiers { bits: m.bits | SHIFT }) == key_of_modifiers(m),
        (m.bits & ALT == 0 && m.bits & CONTROL != 0) ==> keys_of_event(
            KeyEvent { code, modifiers: m },
        ) == (Keys::KeyAndMod { key: key_of_code(code), modk: Key::Ctrl }) && keys_char(
            keys_of_event(KeyEvent { code, modifiers: m }),
        ) is None,
        (m.bits & ALT == 0 && m.bits & CONTROL == 0) ==> keys_of_event(
            KeyEvent { code, modifiers: m },
        ) == Keys::Key(key_of_code(code)),
{
    let b = m.bits;
    assert((b | SHIFT) & ALT == b & ALT) by (bit_vector);
    assert((b | SHIFT) & CONTROL == b & CONTROL) by (bit_vector);
}

/// A key press that stands for no key.
pub open spec fn keys_is_null(k: Keys) -> bool {
    match k {
        Keys::Key(key) => key == Key::Null,
        Keys::KeyAndMod { key, .. } => key == Key::Null,
    }
}

/// The character a key press types: its key's, when no modifier is held.
pub open spec fn keys_char(k: Keys) -> Option<char> {
    match k {
        Keys::Key(key) => Some(char_of_key(key)),
        Keys::KeyAndMod { .. } => None,
    }
}

impl Keys {
    /// The character this key press types, when no modifier is held.
    pub fn as_char(&self) -> (r: Option<char>)
        ensures
            r == keys_char(*self),
    {
        match self {
            Keys::Key(key) => Some(key.as_char()),
            Keys::KeyAndMod { .. } => None,
        }
    }

    /// Whether this key press stands for no key: its key is `Null`.
    pub fn is_null(&self) -> (r: bool)
        ensures
            r == keys_is_null(*self),
    {
        match self {
            Keys::Key(Key::Null) => true,
            Keys::KeyAndMod { key: Key::Null, .. } => true,
            _ => false,
        }
    }
}

/// The character a key typed from a character gives back is that character,
/// for every character but the caret, whose key types none.
pub proof fn lemma_char_key_round_trip(c: char)
    requires
        c != '^',
    ensures
        char_of_key(key_of_char(c)) == c,
{
}

/// Exactly the characters '0' to '9' give digit keys, each its own value.
pub proof fn lemma_digit_keys(c: char)
    ensures
        ('0' <= c && c <= '9') <==> digit_of_key(key_of_char(c)).is_some(),
        ('0' <= c && c <= '9') ==> digit_of_key(key_of_char(c)) == Some(((c as u32) - ('0' as u32)) as usize),
{
}

/// A character key pressed with no modifier that counts (Shift alone
/// included) types that character.
pub proof fn lemma_typed_char(c: char, m: KeyModifiers)
    requires
        c != '^',
        m.bits & ALT == 0,
        m.bits & CONTROL == 0,
    ensures
        keys_char(keys_of_event(KeyEvent { code: KeyCode::Char(c), modifiers: m })) == Some(c),
{
    lemma_char_key_round_trip(c);
}

} // verus!
