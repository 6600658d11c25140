//! The ledger itself and its request handlers.
//!
//! All persistent state is one [`Ledger`] value, threaded explicitly through
//! every handler; the hosting environment persists it between requests and
//! applies each request all-or-nothing. Each handler's contract equals a
//! spec-level transition function, so properties of whole request sequences
//! can be stated and proved over the transitions alone.
//!
//! Within the library, the canonical identity of a party is the byte
//! encoding of its address string (an injective mapping, as the host's
//! address API guarantees for its own canonical form); a host shell that
//! uses a different canonical form converts at the boundary.

use vstd::prelude::*;

use vstd::slice::slice_to_vec;
use vstd::utf8::encode_utf8;

use crate::credentials::{cred_of, cred_set, cred_wf, CredentialStore};
use crate::errors::LedgerError;
use crate::idgen::{derive_credential, derive_listing_id, spec_credential, spec_listing_id};
use crate::log::AppendLog;
use crate::msg::{AddListing, HandleAnswer, HandleMsg, InitMsg, QueryAnswer, QueryMsg};
use crate::pagination::page_desc;
use crate::state::{Confirmation, ConfirmationV, Listing, ListingV, State, StateV};
use crate::store::{
    confs_of, find_party, store_append, store_records_owned, store_wf, ConfirmationStore,
    PartyLedgerV,
};

verus! {

/// The per-request host context: block height and time, and the address of
/// the party that sent the request.
pub struct Env {
    pub height: u64,
    pub time: u64,
    pub sender: String,
}

/// Mathematical view of [`Env`].
pub ghost struct EnvV {
    pub height: u64,
    pub time: u64,
    pub sender: Seq<char>,
}

impl View for Env {
    type V = EnvV;

    open spec fn view(&self) -> EnvV {
        EnvV { height: self.height, time: self.time, sender: self.sender@ }
    }
}

/// The canonical identity the library stores a party under: the byte
/// encoding of its address. Distinct addresses get distinct identities.
pub open spec fn canonical_of(addr: Seq<char>) -> Seq<u8> {
    encode_utf8(addr)
}

/// Executable form of [`canonical_of`].
pub fn canonicalize(addr: &str) -> (r: Vec<u8>)
    ensures
        r@ == canonical_of(addr@),
{
    slice_to_vec(addr.as_bytes())
}

/// The whole persistent state of the ledger process.
pub struct Ledger {
    /// Owner and seed, written once at initialization.
    pub state: State,
    /// The public listing catalog, in insertion order.
    pub listings: AppendLog<Listing>,
    /// The listing identifiers, appended in lock-step with the catalog.
    pub listing_ids: AppendLog<String>,
    /// The per-party private booking namespaces.
    pub confirmations: ConfirmationStore,
    /// The per-address viewing credentials.
    pub credentials: CredentialStore,
}

/// Mathematical view of [`Ledger`].
pub ghost struct LedgerV {
    pub state: StateV,
    pub listings: Seq<ListingV>,
    pub listing_ids: Seq<Seq<char>>,
    pub confirmations: Seq<PartyLedgerV>,
    pub credentials: Seq<crate::credentials::CredentialEntryV>,
}

impl View for Ledger {
    type V = LedgerV;

    open spec fn view(&self) -> LedgerV {
        LedgerV {
            state: self.state@,
            listings: self.listings@,
            listing_ids: self.listing_ids@,
            confirmations: self.confirmations@,
            credentials: self.credentials@,
        }
    }
}

/// Well-formedness of a ledger: the identifier log runs in lock-step with
/// the catalog (same length, the record at each position carrying the
/// identifier stored there), the catalog fits the positional index width,
/// and the party and credential namespaces have distinct keys.
pub open spec fn ledger_wf(l: LedgerV) -> bool {
    &&& l.listings.len() == l.listing_ids.len()
    &&& l.listings.len() <= u32::MAX
    &&& forall|k: int| 0 <= k < l.listings.len() ==> l.listing_ids[k] == #[trigger] l.listings[k].id
    &&& store_wf(l.confirmations)
    &&& store_records_owned(l.confirmations)
    &&& cred_wf(l.credentials)
}

/// Initialization: the sender becomes the owner, the supplied seed becomes
/// the process seed, and every log starts empty.
pub open spec fn spec_init(env: EnvV, prng_seed: Seq<u8>) -> LedgerV {
    LedgerV {
        state: StateV { owner: canonical_of(env.sender), prng_seed },
        listings: Seq::empty(),
        listing_ids: Seq::empty(),
        confirmations: Seq::empty(),
        credentials: Seq::empty(),
    }
}

/// Creating a listing: derives the identifier from the request's entropy and
/// appends the record and its identifier in lock-step.
pub open spec fn spec_add_listing(
    l: LedgerV,
    env: EnvV,
    name: Seq<char>,
    description: Seq<char>,
    address: Seq<char>,
    images: Seq<Seq<char>>,
    price: u128,
) -> LedgerV {
    let id = spec_listing_id(env.height, env.time, env.sender, l.state.prng_seed);
    let listing = ListingV {
        id,
        owner: canonical_of(env.sender),
        name,
        description,
        address,
        images,
        price,
    };
    LedgerV { listings: l.listings.push(listing), listing_ids: l.listing_ids.push(id), ..l }
}

/// Whether a party's ledger already holds a confirmation for `id`.
pub open spec fn has_confirmation(confs: Seq<ConfirmationV>, id: Seq<char>) -> bool {
    exists|j: int| 0 <= j < confs.len() && confs[j].id == id
}

/// Confirming a listing: `NotFound` past the end of the catalog,
/// `AlreadyBooked` when the caller already confirmed this listing (no
/// mutation either way), and otherwise one record appended to the caller's
/// namespace.
pub open spec fn spec_confirm_listing(
    l: LedgerV,
    env: EnvV,
    index: u32,
    start: u64,
    end: u64,
) -> (LedgerV, Result<bool, LedgerError>) {
    if index >= l.listings.len() {
        (l, Err(LedgerError::NotFound))
    } else {
        let id = l.listings[index as int].id;
        let party = canonical_of(env.sender);
        if has_confirmation(confs_of(l.confirmations, party), id) {
            (l, Err(LedgerError::AlreadyBooked))
        } else {
            let conf = ConfirmationV { id, addr: party, start, end };
            (
                LedgerV { confirmations: store_append(l.confirmations, party, conf), ..l },
                Ok(true),
            )
        }
    }
}

/// Creating a viewing credential: derives it from the request's entropy and
/// stores it for the sender's address, replacing any earlier one.
pub open spec fn spec_create_viewing_key(l: LedgerV, env: EnvV, entropy: Seq<char>) -> (
    LedgerV,
    Seq<char>,
) {
    let key = spec_credential(env.height, env.time, env.sender, l.state.prng_seed, entropy);
    (LedgerV { credentials: cred_set(l.credentials, env.sender, key), ..l }, key)
}

/// Initializes a fresh ledger for the sending party with the supplied seed.
pub fn init(env: &Env, msg: InitMsg) -> (l: Ledger)
    ensures
        l@ == spec_init(env@, msg.prng_seed@),
        ledger_wf(l@),
{
    let l = Ledger {
        state: State { owner: canonicalize(self_sender(env)), prng_seed: msg.prng_seed },
        listings: AppendLog::new(),
        listing_ids: AppendLog::new(),
        confirmations: ConfirmationStore::new(),
        credentials: CredentialStore::new(),
    };
    l
}

/// The sender's address as a borrowed string.
fn self_sender(env: &Env) -> (r: &str)
    ensures
        r@ == env@.sender,
{
    env.sender.as_str()
}

/// Publishes a new listing owned by the sender. The identifier is derived
/// deterministically from the request's entropy; nothing else of the ledger
/// changes. Needs room for one more positional index.
pub fn add_listing(
    l: &mut Ledger,
    env: &Env,
    name: String,
    description: String,
    address: String,
    images: Vec<String>,
    price: u128,
) -> (r: AddListing)
    requires
        ledger_wf(old(l)@),
        old(l)@.listings.len() < u32::MAX,
    ensures
        final(l)@ == spec_add_listing(
            old(l)@,
            env@,
            name@,
            description@,
            address@,
            images.deep_view(),
            price,
        ),
        ledger_wf(final(l)@),
{
    let id = derive_listing_id(env.height, env.time, self_sender(env), &l.state.prng_seed);
    let id_copy = id.clone();
    let owner = canonicalize(self_sender(env));
    let listing = Listing { id, owner, name, description, address, images, price };
    l.listings.push(listing);
    l.listing_ids.push(id_copy);
    AddListing {}
}

/// Books the listing at catalog position `index` for the sender: fails
/// `NotFound` past the end of the catalog and `AlreadyBooked` on a repeat
/// confirmation by the same party, mutating nothing in either case;
/// otherwise appends exactly one record to the sender's private namespace
/// and reports `booked == true`.
pub fn confirm_listing(l: &mut Ledger, env: &Env, index: u32, start: u64, end: u64) -> (r:
    Result<bool, LedgerError>)
    requires
        ledger_wf(old(l)@),
    ensures
        final(l)@ == spec_confirm_listing(old(l)@, env@, index, start, end).0,
        r == spec_confirm_listing(old(l)@, env@, index, start, end).1,
        ledger_wf(final(l)@),
{
    let listing = match l.listings.get_at(index as usize) {
        Ok(listing) => listing,
        Err(e) => {
            return Err(e);
        },
    };
    let party = canonicalize(self_sender(env));
    let id = listing.id.clone();
    let already = match l.confirmations.get(&party) {
        Some(log) => scan_for_id(log, &id),
        None => false,
    };
    if already {
        return Err(LedgerError::AlreadyBooked);
    }
    let conf = Confirmation { id, addr: party.clone(), start, end };
    proof {
        crate::store::lemma_store_append(l@.confirmations, party@, conf@);
        crate::store::lemma_store_append_owned(l@.confirmations, party@, conf@);
    }
    l.confirmations.append(&party, conf);
    Ok(true)
}

/// Whether the party's log already holds a confirmation for `id`: the linear
/// scan the confirmation protocol runs before appending.
fn scan_for_id(log: &AppendLog<Confirmation>, id: &String) -> (r: bool)
    ensures
        r == has_confirmation(log@, id@),
{
    let n = log.length();
    let mut i: usize = 0;
    while i < n
        invariant
            n == log@.len(),
            i <= n,
            forall|j: int| 0 <= j < i ==> log@[j].id != id@,
        decreases n - i,
    {
        match log.get_at(i) {
            Ok(conf) => {
                if conf.id == *id {
                    return true;
                }
            },
            Err(_) => {
            },
        }
        i = i + 1;
    }
    false
}

/// Creates (or replaces) the sender's viewing credential and returns it.
pub fn create_viewing_key(l: &mut Ledger, env: &Env, entropy: String) -> (r: String)
    requires
        ledger_wf(old(l)@),
    ensures
        final(l)@ == spec_create_viewing_key(old(l)@, env@, entropy@).0,
        r@ == spec_create_viewing_key(old(l)@, env@, entropy@).1,
        ledger_wf(final(l)@),
{
    let key = derive_credential(
        env.height,
        env.time,
        self_sender(env),
        &l.state.prng_seed,
        entropy.as_str(),
    );
    let key_copy = key.clone();
    l.credentials.set(&env.sender, key);
    proof {
        lemma_cred_set_wf(old(l)@.credentials, env@.sender, key_copy@);
    }
    key_copy
}

/// Storing a credential keeps the addresses distinct.
proof fn lemma_cred_set_wf(
    s: Seq<crate::credentials::CredentialEntryV>,
    addr: Seq<char>,
    key: Seq<char>,
)
    requires
        cred_wf(s),
    ensures
        cred_wf(cred_set(s, addr, key)),
{
    crate::credentials::lemma_find_cred(s, addr);
}

/// Write access to the singleton configuration: replaces the stored value.
pub fn config(l: &mut Ledger, state: State)
    ensures
        final(l)@ == (LedgerV { state: state@, ..old(l)@ }),
{
    l.state = state;
}

/// Read access to the singleton configuration.
pub fn config_read(l: &Ledger) -> (r: &State)
    ensures
        r@ == l@.state,
{
    &l.state
}

/// One page of the listing catalog, most recent first, with the total count.
pub fn query_listings(l: &Ledger, page: u32, page_size: u32) -> (r: (Vec<Listing>, u64))
    requires
        ledger_wf(l@),
    ensures
        r.0.deep_view() == page_desc(l@.listings, page, page_size),
        r.1 == l@.listings.len(),
{
    let items = l.listings.page(page, page_size);
    let total = l.listings.length() as u64;
    (items, total)
}

/// The first position in the identifier log holding `id`, if any.
pub open spec fn find_index(ids: Seq<Seq<char>>, id: Seq<char>) -> Option<int>
    decreases ids.len(),
{
    if ids.len() == 0 {
        None
    } else if ids[0] == id {
        Some(0int)
    } else {
        match find_index(ids.skip(1), id) {
            None => None,
            Some(i) => Some(i + 1),
        }
    }
}

/// What [`find_index`] returns: the first position holding `id`, or nothing
/// when no position holds it.
pub proof fn lemma_find_index(ids: Seq<Seq<char>>, id: Seq<char>)
    ensures
        match find_index(ids, id) {
            Some(i) => 0 <= i < ids.len() && ids[i] == id && (forall|j: int|
                0 <= j < i ==> ids[j] != id),
            None => forall|j: int| 0 <= j < ids.len() ==> ids[j] != id,
        },
    decreases ids.len(),
{
    if ids.len() > 0 && ids[0] != id {
        lemma_find_index(ids.skip(1), id);
        assert forall|j: int| 1 <= j < ids.len() implies ids.skip(1)[j - 1] == ids[j] by {}
    }
}

/// The converse characterization: a position holding `id` with no earlier
/// one is what [`find_index`] returns.
pub proof fn lemma_find_index_at(ids: Seq<Seq<char>>, id: Seq<char>, k: int)
    requires
        0 <= k < ids.len(),
        ids[k] == id,
        forall|j: int| 0 <= j < k ==> ids[j] != id,
    ensures
        find_index(ids, id) == Some(k),
    decreases ids.len(),
{
    if ids[0] != id {
        lemma_find_index_at(ids.skip(1), id, k - 1);
    }
}

/// The first catalog position whose stored identifier equals `id`, or
/// `NotFound` when no position holds it.
pub fn find_listing_id(l: &Ledger, id: &String) -> (r: Result<u32, LedgerError>)
    requires
        ledger_wf(l@),
    ensures
        r == match find_index(l@.listing_ids, id@) {
            Some(k) => Ok::<u32, LedgerError>(k as u32),
            None => Err::<u32, LedgerError>(LedgerError::NotFound),
        },
{
    let n = l.listing_ids.length();
    let mut i: usize = 0;
    while i < n
        invariant
            ledger_wf(l@),
            n == l@.listing_ids.len(),
            n <= u32::MAX,
            i <= n,
            forall|j: int| 0 <= j < i ==> l@.listing_ids[j] != id@,
        decreases n - i,
    {
        match l.listing_ids.get_at(i) {
            Ok(stored) => {
                if *stored == *id {
                    proof {
                        lemma_find_index_at(l@.listing_ids, id@, i as int);
                    }
                    return Ok(i as u32);
                }
            },
            Err(_) => {
            },
        }
        i = i + 1;
    }
    proof {
        lemma_find_index(l@.listing_ids, id@);
    }
    Err(LedgerError::NotFound)
}

/// One page of `address`'s confirmations, most recent first, gated by the
/// viewing credential: `Unauthorized`, and no data, unless `vk` is exactly
/// the credential stored for `address`; a party that never booked reads an
/// empty page.
pub fn query_confirmations(
    l: &Ledger,
    page: u32,
    page_size: u32,
    address: &String,
    vk: &String,
) -> (r: Result<Vec<Confirmation>, LedgerError>)
    requires
        ledger_wf(l@),
    ensures
        cred_of(l@.credentials, address@) == Some(vk@) ==> r is Ok && r->Ok_0.deep_view()
            == page_desc(confs_of(l@.confirmations, canonical_of(address@)), page, page_size),
        cred_of(l@.credentials, address@) != Some(vk@) ==> r == Err::<
            Vec<Confirmation>,
            LedgerError,
        >(LedgerError::Unauthorized),
        r is Ok ==> forall|i: int|
            0 <= i < r->Ok_0.deep_view().len() ==> (#[trigger] r->Ok_0.deep_view()[i]).addr
                == canonical_of(address@),
{
    proof {
        let key = canonical_of(address@);
        crate::store::lemma_find_party(l@.confirmations, key);
        assert forall|j: int|
            0 <= j < confs_of(l@.confirmations, key).len() implies (#[trigger] confs_of(
            l@.confirmations,
            key,
        )[j]).addr == key by {
            if find_party(l@.confirmations, key) is Some {
                let m = find_party(l@.confirmations, key)->Some_0;
                assert(confs_of(l@.confirmations, key) == l@.confirmations[m].confs);
            }
        }
    }
    if !l.credentials.check(address, vk) {
        return Err(LedgerError::Unauthorized);
    }
    let party = canonicalize(address.as_str());
    match l.confirmations.get(&party) {
        Some(log) => Ok(log.page(page, page_size)),
        None => {
            let empty: Vec<Confirmation> = Vec::new();
            proof {
                assert(empty.deep_view() =~= page_desc(
                    confs_of(l@.confirmations, canonical_of(address@)),
                    page,
                    page_size,
                ));
            }
            Ok(empty)
        },
    }
}

/// Routes a mutation request to its handler. `AddListing` answers with no
/// payload; the other requests answer with their payload.
pub fn handle(l: &mut Ledger, env: &Env, msg: HandleMsg) -> (r: Result<
    Option<HandleAnswer>,
    LedgerError,
>)
    requires
        ledger_wf(old(l)@),
        msg matches HandleMsg::AddListing { .. } ==> old(l)@.listings.len() < u32::MAX,
    ensures
        ledger_wf(final(l)@),
        match msg {
            HandleMsg::AddListing { name, description, address, images, price } => final(l)@
                == spec_add_listing(
                old(l)@,
                env@,
                name@,
                description@,
                address@,
                images.deep_view(),
                price,
            ) && r == Ok::<Option<HandleAnswer>, LedgerError>(None),
            HandleMsg::ConfirmListing { id, start, end } => {
                let (l2, res) = spec_confirm_listing(old(l)@, env@, id, start, end);
                final(l)@ == l2 && match res {
                    Ok(b) => r matches Ok(Some(HandleAnswer::ListingConfirmation { booked }))
                        && booked == b,
                    Err(e) => r == Err::<Option<HandleAnswer>, LedgerError>(e),
                }
            },
            HandleMsg::CreateViewingKey { entropy } => {
                let (l2, key) = spec_create_viewing_key(old(l)@, env@, entropy@);
                final(l)@ == l2 && (r matches Ok(
                    Some(HandleAnswer::CreateViewingKey { key: k }),
                ) && k@ == key)
            },
        },
{
    match msg {
        HandleMsg::AddListing { name, description, address, images, price } => {
            let _ = add_listing(l, env, name, description, address, images, price);
            Ok(None)
        },
        HandleMsg::ConfirmListing { id, start, end } => {
            match confirm_listing(l, env, id, start, end) {
                Ok(booked) => Ok(Some(HandleAnswer::ListingConfirmation { booked })),
                Err(e) => Err(e),
            }
        },
        HandleMsg::CreateViewingKey { entropy } => {
            let key = create_viewing_key(l, env, entropy);
            Ok(Some(HandleAnswer::CreateViewingKey { key }))
        },
    }
}

/// Routes a read request to its handler and wraps the typed answer.
pub fn query(l: &Ledger, msg: QueryMsg) -> (r: Result<QueryAnswer, LedgerError>)
    requires
        ledger_wf(l@),
    ensures
        match msg {
            QueryMsg::GetListings { page, page_size } => r matches Ok(
                QueryAnswer::Listings { listings, total },
            ) && listings.deep_view() == page_desc(l@.listings, page, page_size) && total
                == l@.listings.len(),
            QueryMsg::GetConfirmations { page, page_size, address, vk } => {
                if cred_of(l@.credentials, address@) == Some(vk@) {
                    r matches Ok(QueryAnswer::Confirmations { confirmations })
                        && confirmations.deep_view() == page_desc(
                        confs_of(l@.confirmations, canonical_of(address@)),
                        page,
                        page_size,
                    )
                } else {
                    r == Err::<QueryAnswer, LedgerError>(LedgerError::Unauthorized)
                }
            },
            QueryMsg::GetIndexOfListing { id } => match find_index(l@.listing_ids, id@) {
                Some(k) => r matches Ok(QueryAnswer::ListingIndex { index }) && index == k as u32,
                None => r == Err::<QueryAnswer, LedgerError>(LedgerError::NotFound),
            },
        },
{
    match msg {
        QueryMsg::GetListings { page, page_size } => {
            let (listings, total) = query_listings(l, page, page_size);
            Ok(QueryAnswer::Listings { listings, total })
        },
        QueryMsg::GetConfirmations { page, page_size, address, vk } => {
            match query_confirmations(l, page, page_size, &address, &vk) {
                Ok(confirmations) => Ok(QueryAnswer::Confirmations { confirmations }),
                Err(e) => Err(e),
            }
        },
        QueryMsg::GetIndexOfListing { id } => {
            match find_listing_id(l, &id) {
                Ok(index) => Ok(QueryAnswer::ListingIndex { index }),
                Err(e) => Err(e),
            }
        },
    }
}

} // verus!
