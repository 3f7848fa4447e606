//! The ways a ledger operation can fail.

use vstd::prelude::*;

verus! {

/// Why an operation was not carried out.
#[derive(Clone, Copy, Debug, PartialEq, Eq, Structural)]
pub enum LedgerError {
    /// The asset id is not well-formed hexadecimal text.
    Parse,
    /// The asset, the log entry or the sending account does not exist.
    NotFound,
    /// A balance would drop below zero or exceed 128 bits.
    Arithmetic,
    /// A persistent structure could not be opened over its memory segments.
    StorageInit,
    /// The memory behind the event log could not grow to take an entry.
    StorageWrite,
    /// A stored record is not a valid encoding of its type.
    Corrupt,
}

} // verus!
