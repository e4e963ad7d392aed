//! Errors of writing an Arch Linux package: those every archive backend has.

pub use crate::packing::{settled, Error, ErrorView, Result};
