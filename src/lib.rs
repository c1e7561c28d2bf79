//! A dense, row-major matrix over one contiguous buffer, with borrowed read-only and
//! exclusive views, and row, column and cell traversal.
use vstd::prelude::*;

pub mod grid;
pub mod laws;
pub mod layout;
pub mod matrix;
pub mod render;
pub mod slice;
pub mod slicemut;
