//! Line-oriented editing of one text file.
//!
//! The library computes what an edit does to the content of a file; it does
//! no input or output itself. A caller reads the file, hands the bytes (or
//! the error of the read) to an operation of [`FileIO`], and stores what the
//! operation returns.

pub mod byte_lines;
pub mod edit;
pub mod error;
pub mod fileio;
pub mod laws;
pub mod lines;
pub mod prelude;
pub mod round_trip;
pub mod source;
pub mod text;
pub mod trusted;

pub use crate::error::FileError;
pub use crate::fileio::file;
pub use crate::fileio::FileIO;
