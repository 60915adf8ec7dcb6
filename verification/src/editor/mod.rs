//! The editor: buffers with their cursors, positions, the word trie,
//! windows over ropes, messages and the state machine that ties them.
pub mod buffer;
pub mod keymapper;
pub mod command;
pub mod commandline;
pub mod line_number;
pub mod message;
pub mod position;
pub mod revi_command;
pub mod screen;
pub mod state;
pub mod trie;
pub mod tui;
pub mod ui;
pub mod revi;
pub mod window;

/// The editor's modes are the engine's.
pub use crate::engine::mode::Mode;
