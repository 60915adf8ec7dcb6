//! The terminal user interface: keys, layout, text and container widgets.
pub mod key;
pub mod layout;
pub mod style;
pub mod text;
pub mod widget;
pub mod container;
pub mod tui;
