//! The ways a request can fail.

use vstd::prelude::*;

verus! {

/// Why a request failed.  A client never learns which of these it was: every
/// one of them is answered alike.  The kind is kept for whoever logs it.
#[derive(Clone, Copy, Debug, PartialEq, Eq, Structural)]
pub enum TransferError {
    /// The transport failed while the body of the request was arriving.
    StreamError,
    /// The file could not be created.
    CreateError,
    /// The file was created or opened, and writing to it failed.
    WriteError,
    /// No free name was found within the permitted number of attempts.
    ExhaustedRetries,
    /// The file to read or delete is absent or cannot be reached.
    NotFound,
}

} // verus!
