//! Containers: widgets that place their children one after another. They
//! live with the other widgets, whose drawing they share.
pub use crate::ui::widget::{generate_layout, Container};
