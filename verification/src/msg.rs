//! The typed requests and responses of the ledger.
//!
//! The dispatch shell around the library decodes wire bytes into these types
//! and encodes the answers back; the library itself only ever sees and
//! returns the typed values.

use vstd::prelude::*;

use crate::state::{Confirmation, Listing};

verus! {

/// The initialization request: fixes the process-wide seed material.
#[derive(Clone, Debug, PartialEq)]
pub struct InitMsg {
    /// Opaque seed bytes, mixed into every derived identifier and credential.
    pub prng_seed: Vec<u8>,
}

/// A mutation request.
#[derive(Clone, Debug, PartialEq)]
pub enum HandleMsg {
    /// Publish a new listing; the caller becomes its owner.
    AddListing {
        name: String,
        description: String,
        address: String,
        images: Vec<String>,
        price: u128,
    },
    /// Book the listing at registry position `id` for the window
    /// `start..end`; the window is not validated.
    ConfirmListing { id: u32, start: u64, end: u64 },
    /// Create (or replace) the caller's viewing credential from the supplied
    /// entropy.
    CreateViewingKey { entropy: String },
}

/// The payload of a successful mutation.
#[derive(Clone, Debug, PartialEq)]
pub enum HandleAnswer {
    /// The booking was recorded.
    ListingConfirmation { booked: bool },
    /// The freshly derived viewing credential.
    CreateViewingKey { key: String },
}

/// A read request.
#[derive(Clone, Debug, PartialEq)]
pub enum QueryMsg {
    /// A page of the listing catalog, most recent first.
    GetListings { page: u32, page_size: u32 },
    /// A page of one party's confirmations, most recent first, gated by that
    /// party's viewing credential.
    GetConfirmations { page: u32, page_size: u32, address: String, vk: String },
    /// The registry position of the listing with the given identifier.
    GetIndexOfListing { id: String },
}

/// The payload of a successful read.
#[derive(Clone, Debug, PartialEq)]
pub enum QueryAnswer {
    /// One page of listings and the total registry length.
    Listings { listings: Vec<Listing>, total: u64 },
    /// One page of the requested party's confirmations.
    Confirmations { confirmations: Vec<Confirmation> },
    /// The position of the looked-up listing.
    ListingIndex { index: u32 },
}

/// The (empty) response payload of a successful `AddListing` request.
#[derive(Clone, Debug, PartialEq)]
pub struct AddListing {}

} // verus!
