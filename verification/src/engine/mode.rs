//! The editing modes.
use vstd::prelude::*;

verus! {

/// The mode the editor is in: keys move in Normal mode, type text in Insert
/// mode and edit the command line in Command mode.
#[derive(Debug, Clone, Copy, PartialEq, Eq, Hash, Structural)]
pub enum Mode {
    Normal,
    Command,
    Insert,
}

/// The name a mode is shown by.
pub open spec fn mode_name(m: Mode) -> Seq<char> {
    match m {
        Mode::Normal => "Normal"@,
        Mode::Command => "Command"@,
        Mode::Insert => "Insert"@,
    }
}

impl Mode {
    /// The name this mode is shown by, as in the status bar.
    pub fn name(&self) -> (r: &'static str)
        ensures
            r@ == mode_name(*self),
    {
        match self {
            Self::Normal => "Normal",
            Self::Command => "Command",
            Self::Insert => "Insert",
        }
    }
}

impl Default for Mode {
    fn default() -> (m: Mode)
        ensures
            m == Mode::Normal,
    {
        Self::Normal
    }
}

} // verus!
