//! A full-screen text pager core: a scroll state, a hard-wrapping layout of
//! the document into a fixed character grid, and a spotlight tint per cell.

pub mod blend;
pub mod color;
pub mod geom;
pub mod layout;
pub mod viewport;
