//! Layout: the kinds of layout boxes and the edges of the box model.

pub mod layout_box;
pub mod primitive;
