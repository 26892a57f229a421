//! The items that most users of the library need.

pub use crate::fileio::file;
pub use crate::{FileError, FileIO};
