//! The errors that the storage decisions report.
use vstd::prelude::*;

verus! {

/// Why a store decision refused to go on.
#[derive(Clone, Copy, Debug, PartialEq, Eq, Structural)]
pub enum StoreError {
    /// The computed target already exists where a fresh one is required.
    AlreadyExists,
    /// The payload cannot be framed (its length does not fit the length field).
    InvalidInput,
    /// A run, day or frame counter would overflow.
    InvalidData,
}

} // verus!
