//! Errors of writing or reading a `.deb`.

pub use crate::packing::{settled, Error, ErrorView, Result};
