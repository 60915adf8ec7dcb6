//! ReVi: the verified core of a small terminal text editor in the style of Vim.
//!
//! The crate is laid out as the editor is:
//! - `ui`: keys, layout rectangles, text and container widgets, and the
//!   layout computation that places widgets on the screen;
//! - `engine`: key-string parsing, the key parser, key mappings, line numbers,
//!   text formatting for panes, cursor movement and command-line dispatch;
//! - `editor`: the buffer and cursor model, positions, the word trie,
//!   windows, messages and the editor state machine;
//! - `strings` and `rope`: the character-level helpers and the text rope that
//!   the rest builds on.
pub mod strings;
pub mod rope;
pub mod ui;
pub mod engine;
pub mod editor;
