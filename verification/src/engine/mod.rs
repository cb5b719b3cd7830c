//! Engine helpers: the isometric projection.

pub mod isometric;
