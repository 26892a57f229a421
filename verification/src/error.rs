//! The errors of the editor.

use vstd::prelude::*;

verus! {

/// Why an operation on the edited file did not succeed.
#[derive(Clone, Copy, Debug, PartialEq, Eq, Structural)]
pub enum FileError {
    /// The file is absent.
    NotFound,
    /// A line number was given as 0; line numbers start at 1.
    InvalidInput,
    /// Any other failure of the underlying storage.
    IOFailure,
}

} // verus!
