//! The library-wide laws, stated over the spec-level transitions.
//!
//! Each handler's contract equals a transition function on ledger views, so
//! these laws about sequences of requests are proved once here and hold of
//! every execution of the handlers.

use vstd::prelude::*;

use crate::contract::{
    canonical_of, find_index, has_confirmation, ledger_wf, lemma_find_index, lemma_find_index_at,
    spec_add_listing, spec_confirm_listing, EnvV, LedgerV,
};
use crate::errors::LedgerError;
use crate::idgen::spec_listing_id;
use crate::state::ConfirmationV;
use crate::store::{confs_of, lemma_store_append};

verus! {

/// Uniqueness per party: once a party has successfully confirmed a listing,
/// a second confirmation attempt by the same party for the same listing
/// fails `AlreadyBooked` and appends nothing — the ledger is unchanged.
pub proof fn lemma_confirm_once_per_party(
    l: LedgerV,
    env1: EnvV,
    env2: EnvV,
    index: u32,
    start1: u64,
    end1: u64,
    start2: u64,
    end2: u64,
)
    requires
        ledger_wf(l),
        env1.sender == env2.sender,
        spec_confirm_listing(l, env1, index, start1, end1).1 is Ok,
    ensures
        ({
            let l1 = spec_confirm_listing(l, env1, index, start1, end1).0;
            &&& spec_confirm_listing(l1, env2, index, start2, end2).1 == Err::<
                bool,
                LedgerError,
            >(LedgerError::AlreadyBooked)
            &&& spec_confirm_listing(l1, env2, index, start2, end2).0 == l1
        }),
{
    let party = canonical_of(env1.sender);
    let id = l.listings[index as int].id;
    let conf = ConfirmationV { id, addr: party, start: start1, end: end1 };
    lemma_store_append(l.confirmations, party, conf);
    let l1 = spec_confirm_listing(l, env1, index, start1, end1).0;
    let before = confs_of(l.confirmations, party);
    assert(confs_of(l1.confirmations, party) == before.push(conf));
    assert(confs_of(l1.confirmations, party)[before.len() as int].id == id);
    assert(has_confirmation(confs_of(l1.confirmations, party), id));
}

/// The success side of uniqueness per party: a confirmation of an in-range
/// position by a party that has not yet confirmed that listing is recorded.
pub proof fn lemma_confirm_succeeds(l: LedgerV, env: EnvV, index: u32, start: u64, end: u64)
    requires
        index < l.listings.len(),
        !has_confirmation(
            confs_of(l.confirmations, canonical_of(env.sender)),
            l.listings[index as int].id,
        ),
    ensures
        spec_confirm_listing(l, env, index, start, end).1 == Ok::<bool, LedgerError>(true),
{
}

/// Cross-party isolation: a confirmation by one party never changes any
/// other party's confirmations — in particular, overlapping windows by
/// different parties are accepted independently.
pub proof fn lemma_confirm_isolates_parties(
    l: LedgerV,
    env: EnvV,
    index: u32,
    start: u64,
    end: u64,
    other: Seq<u8>,
)
    requires
        ledger_wf(l),
        other != canonical_of(env.sender),
    ensures
        confs_of(spec_confirm_listing(l, env, index, start, end).0.confirmations, other)
            == confs_of(l.confirmations, other),
{
    if index < l.listings.len() {
        let id = l.listings[index as int].id;
        let party = canonical_of(env.sender);
        if !has_confirmation(confs_of(l.confirmations, party), id) {
            let conf = ConfirmationV { id, addr: party, start, end };
            lemma_store_append(l.confirmations, party, conf);
        }
    }
}

/// One creation request, with everything the transition reads from it.
pub ghost struct AddRequest {
    pub env: EnvV,
    pub name: Seq<char>,
    pub description: Seq<char>,
    pub address: Seq<char>,
    pub images: Seq<Seq<char>>,
    pub price: u128,
}

/// The ledger after a whole sequence of creation requests, first to last.
pub open spec fn apply_add_listings(l: LedgerV, reqs: Seq<AddRequest>) -> LedgerV
    decreases reqs.len(),
{
    if reqs.len() == 0 {
        l
    } else {
        let r = reqs[0];
        apply_add_listings(
            spec_add_listing(l, r.env, r.name, r.description, r.address, r.images, r.price),
            reqs.skip(1),
        )
    }
}

/// Registry/index parity: after any sequence of creation requests, the
/// catalog and the identifier log still have equal lengths.
pub proof fn lemma_registry_index_parity(l: LedgerV, reqs: Seq<AddRequest>)
    requires
        l.listings.len() == l.listing_ids.len(),
    ensures
        apply_add_listings(l, reqs).listings.len() == apply_add_listings(l, reqs).listing_ids.len(),
    decreases reqs.len(),
{
    if reqs.len() > 0 {
        let r = reqs[0];
        lemma_registry_index_parity(
            spec_add_listing(l, r.env, r.name, r.description, r.address, r.images, r.price),
            reqs.skip(1),
        );
    }
}

/// Lookup correctness: a listing whose identifier occurs nowhere yet lands
/// at the position equal to the old registry length, and identifier lookup
/// finds exactly that position afterwards. (A repeated identifier — which
/// derivation does not formally exclude — would instead be found at its
/// first occurrence, so the premise excludes one.)
pub proof fn lemma_lookup_correctness(
    l: LedgerV,
    env: EnvV,
    name: Seq<char>,
    description: Seq<char>,
    address: Seq<char>,
    images: Seq<Seq<char>>,
    price: u128,
)
    requires
        forall|j: int|
            0 <= j < l.listing_ids.len() ==> l.listing_ids[j] != spec_listing_id(
                env.height,
                env.time,
                env.sender,
                l.state.prng_seed,
            ),
    ensures
        ({
            let id = spec_listing_id(env.height, env.time, env.sender, l.state.prng_seed);
            let l1 = spec_add_listing(l, env, name, description, address, images, price);
            find_index(l1.listing_ids, id) == Some(l.listing_ids.len() as int)
        }),
{
    let id = spec_listing_id(env.height, env.time, env.sender, l.state.prng_seed);
    let l1 = spec_add_listing(l, env, name, description, address, images, price);
    lemma_find_index_at(l1.listing_ids, id, l.listing_ids.len() as int);
}

/// Lookup of an identifier never inserted fails: nothing is found.
pub proof fn lemma_lookup_absent(ids: Seq<Seq<char>>, id: Seq<char>)
    requires
        forall|j: int| 0 <= j < ids.len() ==> ids[j] != id,
    ensures
        find_index(ids, id) is None,
{
    lemma_find_index(ids, id);
    if find_index(ids, id) is Some {
        let i = find_index(ids, id)->Some_0;
        assert(ids[i] == id);
    }
}

/// Determinism of identifier generation: two derivations from equal block
/// height, block time, sender and seed produce the identical identifier.
pub proof fn lemma_identifier_deterministic(
    height1: u64,
    time1: u64,
    sender1: Seq<char>,
    seed1: Seq<u8>,
    height2: u64,
    time2: u64,
    sender2: Seq<char>,
    seed2: Seq<u8>,
)
    requires
        height1 == height2,
        time1 == time2,
        sender1 == sender2,
        seed1 == seed2,
    ensures
        spec_listing_id(height1, time1, sender1, seed1) == spec_listing_id(
            height2,
            time2,
            sender2,
            seed2,
        ),
{
}

} // verus!
