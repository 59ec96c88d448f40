//! The ways an operation of the registry can fail.
use vstd::prelude::*;

verus! {

/// Why an operation was refused. Every failure is returned as a value.
#[derive(Clone, Copy, Debug, PartialEq, Eq, Structural)]
pub enum Error {
    /// No record is stored under the key.
    NotFound,
    /// The caller is not the administrator.
    Unauthorized,
    /// A required text of the payload is empty once trimmed.
    InvalidPayload,
    /// The source port holds fewer ships than were to be moved.
    InsufficientShips,
    /// The durable counter could not be written.
    StorageFault,
}

} // verus!
