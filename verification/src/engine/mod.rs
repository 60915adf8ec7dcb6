//! The editing engine: key-string parsing, the pending-key parser, key
//! mappings, modes, line numbers and the formatting of text for panes.
pub mod key_parser;
pub mod parse_keys;
pub mod mode;
pub mod line_number;
pub mod text_formater;
pub mod commands;
pub mod map_keys;
pub mod pane;
pub mod settings;
pub mod api;
pub mod command_line;
pub mod dispatch;
pub mod popup;
pub mod buffer;
pub mod command_bar;
pub mod pane_window;
pub mod message_box;
