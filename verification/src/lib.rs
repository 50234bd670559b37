//! Monocle window layouts: every window of a layout fills the whole tiling
//! area and the selected window is raised on top of the others.

pub mod window;
pub mod window_set;
pub mod model;
pub mod layout_state;
pub mod slots;
pub mod monocle;
pub mod render;
pub mod laws;
pub mod seq_facts;
