//! The commands the editor's windows carry out.
use vstd::prelude::*;
use crate::engine::mode::Mode;

verus! {

/// A command for the focused window.
#[derive(Debug, Clone, Copy, PartialEq, Eq, Hash, Structural)]
pub enum ReViCommand {
    StartUp,
    CursorUp,
    CursorDown,
    CursorLeft,
    CursorRight,
    Home,
    End,
    Backspace,
    NewLine,
    DeleteChar,
    DeleteLine,
    InsertChar(char),
    Mode(Mode),
    Save,
    Quit,
}

} // verus!
