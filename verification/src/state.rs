//! The persisted record types of the ledger and their mathematical views.

use vstd::prelude::*;

use crate::log::Duplicable;

verus! {

/// Process-wide configuration, written once at initialization and read-only
/// afterwards: the deploying identity and the seed material for identifier
/// derivation.
#[derive(Clone, Debug, PartialEq)]
pub struct State {
    /// Canonical identity of the party that initialized the ledger.
    pub owner: Vec<u8>,
    /// Opaque seed bytes fixed at initialization, mixed into every derived
    /// listing identifier and viewing credential.
    pub prng_seed: Vec<u8>,
}

/// Mathematical view of [`State`].
pub ghost struct StateV {
    pub owner: Seq<u8>,
    pub prng_seed: Seq<u8>,
}

impl View for State {
    type V = StateV;

    open spec fn view(&self) -> StateV {
        StateV { owner: self.owner@, prng_seed: self.prng_seed@ }
    }
}

impl DeepView for State {
    type V = StateV;

    open spec fn deep_view(&self) -> StateV {
        self@
    }
}

/// A published rental offer. Once appended to the registry it is never
/// mutated or removed.
#[derive(Clone, Debug, PartialEq)]
pub struct Listing {
    /// Lower-case hex identifier, derived at creation time.
    pub id: String,
    /// Canonical identity of the creator.
    pub owner: Vec<u8>,
    pub name: String,
    pub description: String,
    pub address: String,
    /// Ordered opaque image references; order is preserved, never validated.
    pub images: Vec<String>,
    /// Amount in an implied base currency unit.
    pub price: u128,
}

/// Mathematical view of [`Listing`].
pub ghost struct ListingV {
    pub id: Seq<char>,
    pub owner: Seq<u8>,
    pub name: Seq<char>,
    pub description: Seq<char>,
    pub address: Seq<char>,
    pub images: Seq<Seq<char>>,
    pub price: u128,
}

impl View for Listing {
    type V = ListingV;

    open spec fn view(&self) -> ListingV {
        ListingV {
            id: self.id@,
            owner: self.owner@,
            name: self.name@,
            description: self.description@,
            address: self.address@,
            images: self.images.deep_view(),
            price: self.price,
        }
    }
}

impl DeepView for Listing {
    type V = ListingV;

    open spec fn deep_view(&self) -> ListingV {
        self@
    }
}

impl Duplicable for Listing {
    fn duplicate(&self) -> (r: Listing)
        ensures
            r.deep_view() == self.deep_view(),
    {
        let r = Listing {
            id: self.id.clone(),
            owner: self.owner.clone(),
            images: self.images.clone(),
            name: self.name.clone(),
            description: self.description.clone(),
            address: self.address.clone(),
            price: self.price,
        };
        proof {
            assert(r.owner@ =~= self.owner@);
            assert(r.images.deep_view() =~= self.images.deep_view());
        }
        r
    }
}

/// A booking: one party's claim on one listing for a time window.
/// The window is not validated (`end < start` is accepted), and nothing
/// prevents two different parties from booking overlapping windows.
#[derive(Clone, Debug, PartialEq)]
pub struct Confirmation {
    /// Identifier of the listing being booked.
    pub id: String,
    /// Canonical identity of the booking party.
    pub addr: Vec<u8>,
    /// Start of the window, as an unvalidated timestamp.
    pub start: u64,
    /// End of the window, as an unvalidated timestamp.
    pub end: u64,
}

/// Mathematical view of [`Confirmation`].
pub ghost struct ConfirmationV {
    pub id: Seq<char>,
    pub addr: Seq<u8>,
    pub start: u64,
    pub end: u64,
}

impl View for Confirmation {
    type V = ConfirmationV;

    open spec fn view(&self) -> ConfirmationV {
        ConfirmationV { id: self.id@, addr: self.addr@, start: self.start, end: self.end }
    }
}

impl DeepView for Confirmation {
    type V = ConfirmationV;

    open spec fn deep_view(&self) -> ConfirmationV {
        self@
    }
}

impl Duplicable for Confirmation {
    fn duplicate(&self) -> (r: Confirmation)
        ensures
            r.deep_view() == self.deep_view(),
    {
        let r = Confirmation {
            id: self.id.clone(),
            addr: self.addr.clone(),
            start: self.start,
            end: self.end,
        };
        proof {
            assert(r.addr@ =~= self.addr@);
        }
        r
    }
}

} // verus!
