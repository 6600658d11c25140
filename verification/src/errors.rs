//! The error kinds a ledger operation can return.

use vstd::prelude::*;

verus! {

/// Why a ledger operation failed.
///
/// Every fallible operation of the library returns one of these; pagination
/// past the end of the data is an empty result, never an error.
#[derive(Clone, Copy, Debug, PartialEq, Eq, Structural)]
pub enum LedgerError {
    /// A positional index or a listing identifier matched nothing.
    NotFound,
    /// The calling party already holds a confirmation for this listing.
    AlreadyBooked,
    /// The supplied viewing credential is wrong or was never created.
    Unauthorized,
}

} // verus!
