//! Layout area: the layout tree model, the built-in layouts and the layout
//! modes with their degradation on small terminals.

pub mod mode;
pub mod model;
pub mod loader;
