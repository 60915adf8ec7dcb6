//! The editor's settings.
use vstd::prelude::*;
use crate::engine::line_number::LineNumberKind;

verus! {

/// How wide a tab is, and which line numbers windows show.
#[derive(Debug, Clone)]
pub struct Settings {
    pub tab_width: usize,
    pub line_number_kind: LineNumberKind,
}

impl Default for Settings {
    /// A tab is four wide; no line numbers.
    fn default() -> (s: Settings)
        ensures
            s.tab_width == 4,
            s.line_number_kind == LineNumberKind::Off,
    {
        Settings { tab_width: 4, line_number_kind: LineNumberKind::Off }
    }
}

} // verus!
