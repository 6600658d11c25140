//! Per-party confirmation namespaces.
//!
//! Each booking party owns an isolated append log of its confirmations, keyed
//! by the party's canonical identity bytes. Keys are kept distinct, so no two
//! parties ever share a log; looking up a party that never booked yields
//! nothing rather than an error.

use vstd::prelude::*;

use crate::log::AppendLog;
use crate::state::{Confirmation, ConfirmationV};

verus! {

/// One party's private confirmation namespace.
pub struct PartyLedger {
    /// Canonical identity bytes of the owning party.
    pub party: Vec<u8>,
    /// The party's confirmations, in append order.
    pub confs: AppendLog<Confirmation>,
}

/// Mathematical view of [`PartyLedger`].
pub ghost struct PartyLedgerV {
    pub party: Seq<u8>,
    pub confs: Seq<ConfirmationV>,
}

impl View for PartyLedger {
    type V = PartyLedgerV;

    open spec fn view(&self) -> PartyLedgerV {
        PartyLedgerV { party: self.party@, confs: self.confs@ }
    }
}

impl DeepView for PartyLedger {
    type V = PartyLedgerV;

    open spec fn deep_view(&self) -> PartyLedgerV {
        self@
    }
}

/// The position of the namespace owned by `key`, if one exists.
pub open spec fn find_party(s: Seq<PartyLedgerV>, key: Seq<u8>) -> Option<int>
    decreases s.len(),
{
    if s.len() == 0 {
        None
    } else if s[0].party == key {
        Some(0int)
    } else {
        match find_party(s.skip(1), key) {
            None => None,
            Some(i) => Some(i + 1),
        }
    }
}

/// What [`find_party`] returns: the unique position holding `key`, or nothing
/// when no position holds it.
pub proof fn lemma_find_party(s: Seq<PartyLedgerV>, key: Seq<u8>)
    ensures
        match find_party(s, key) {
            Some(i) => 0 <= i < s.len() && s[i].party == key && (forall|j: int|
                0 <= j < i ==> s[j].party != key),
            None => forall|j: int| 0 <= j < s.len() ==> s[j].party != key,
        },
    decreases s.len(),
{
    if s.len() > 0 && s[0].party != key {
        lemma_find_party(s.skip(1), key);
        assert forall|j: int| 1 <= j < s.len() implies s.skip(1)[j - 1] == s[j] by {}
    }
}

/// The converse characterization: a position holding `key` with no earlier
/// one is what [`find_party`] returns.
pub proof fn lemma_find_party_at(s: Seq<PartyLedgerV>, key: Seq<u8>, i: int)
    requires
        0 <= i < s.len(),
        s[i].party == key,
        forall|j: int| 0 <= j < i ==> s[j].party != key,
    ensures
        find_party(s, key) == Some(i),
    decreases s.len(),
{
    if s[0].party != key {
        lemma_find_party_at(s.skip(1), key, i - 1);
    }
}

/// A sequence with no position holding `key` has nothing to find.
pub proof fn lemma_find_party_none(s: Seq<PartyLedgerV>, key: Seq<u8>)
    requires
        forall|j: int| 0 <= j < s.len() ==> s[j].party != key,
    ensures
        find_party(s, key) is None,
{
    lemma_find_party(s, key);
    if find_party(s, key) is Some {
        let i = find_party(s, key)->Some_0;
        assert(s[i].party == key);
    }
}

/// The confirmations stored for `key`: empty when the party never booked.
pub open spec fn confs_of(s: Seq<PartyLedgerV>, key: Seq<u8>) -> Seq<ConfirmationV> {
    match find_party(s, key) {
        Some(i) => s[i].confs,
        None => Seq::empty(),
    }
}

/// Appending a confirmation to `key`'s namespace, as a function on views:
/// the namespace grows by one record, or comes into being with one.
pub open spec fn store_append(
    s: Seq<PartyLedgerV>,
    key: Seq<u8>,
    conf: ConfirmationV,
) -> Seq<PartyLedgerV> {
    match find_party(s, key) {
        Some(i) => s.update(i, PartyLedgerV { party: key, confs: s[i].confs.push(conf) }),
        None => s.push(PartyLedgerV { party: key, confs: seq![conf] }),
    }
}

/// Namespace isolation under append: the appending party's log grows by
/// exactly the appended record, every other party's log is untouched, and
/// the keys stay distinct.
pub proof fn lemma_store_append(s: Seq<PartyLedgerV>, key: Seq<u8>, conf: ConfirmationV)
    requires
        store_wf(s),
    ensures
        store_wf(store_append(s, key, conf)),
        confs_of(store_append(s, key, conf), key) == confs_of(s, key).push(conf),
        forall|k: Seq<u8>|
            k != key ==> #[trigger] confs_of(store_append(s, key, conf), k) == confs_of(s, k),
{
    let t = store_append(s, key, conf);
    lemma_find_party(s, key);
    match find_party(s, key) {
        Some(i) => {
            lemma_find_party_at(t, key, i);
            assert(confs_of(t, key) == confs_of(s, key).push(conf));
            assert forall|k: Seq<u8>| k != key implies #[trigger] confs_of(t, k) == confs_of(
                s,
                k,
            ) by {
                lemma_find_party(s, k);
                match find_party(s, k) {
                    Some(m) => {
                        assert(m != i);
                        lemma_find_party_at(t, k, m);
                    },
                    None => {
                        lemma_find_party_none(t, k);
                    },
                }
            }
        },
        None => {
            lemma_find_party_at(t, key, s.len() as int);
            assert(confs_of(s, key) =~= Seq::<ConfirmationV>::empty());
            assert(confs_of(t, key) =~= confs_of(s, key).push(conf));
            assert forall|k: Seq<u8>| k != key implies #[trigger] confs_of(t, k) == confs_of(
                s,
                k,
            ) by {
                lemma_find_party(s, k);
                match find_party(s, k) {
                    Some(m) => {
                        lemma_find_party_at(t, k, m);
                    },
                    None => {
                        lemma_find_party_none(t, k);
                    },
                }
            }
        },
    }
}

/// Every record in a party's namespace names that party as the booking
/// party: the `addr` a confirmation carries is the identity it is stored
/// under.
pub open spec fn store_records_owned(s: Seq<PartyLedgerV>) -> bool {
    forall|i: int, j: int|
        0 <= i < s.len() && 0 <= j < s[i].confs.len() ==> (#[trigger] s[i].confs[j]).addr
            == s[i].party
}

/// Appending a record that names its own party keeps every namespace's
/// records owned by that namespace's party.
pub proof fn lemma_store_append_owned(s: Seq<PartyLedgerV>, key: Seq<u8>, conf: ConfirmationV)
    requires
        store_records_owned(s),
        conf.addr == key,
    ensures
        store_records_owned(store_append(s, key, conf)),
{
    let t = store_append(s, key, conf);
    lemma_find_party(s, key);
    assert forall|i: int, j: int|
        0 <= i < t.len() && 0 <= j < t[i].confs.len() implies (#[trigger] t[i].confs[j]).addr
        == t[i].party by {
        match find_party(s, key) {
            Some(m) => {
                if i == m && j == s[m].confs.len() {
                    assert(t[i].confs[j] == conf);
                } else if i == m {
                    assert(t[i].confs[j] == s[m].confs[j]);
                } else {
                    assert(t[i] == s[i]);
                }
            },
            None => {
                if i == s.len() {
                    assert(t[i].confs[j] == conf);
                } else {
                    assert(t[i] == s[i]);
                }
            },
        }
    }
}

/// All the per-party confirmation namespaces.
pub struct ConfirmationStore {
    pub parties: Vec<PartyLedger>,
}

impl View for ConfirmationStore {
    type V = Seq<PartyLedgerV>;

    open spec fn view(&self) -> Seq<PartyLedgerV> {
        self.parties.deep_view()
    }
}

/// Well-formedness: no two namespaces share an owning party, so each party's
/// log is isolated from every other's.
pub open spec fn store_wf(s: Seq<PartyLedgerV>) -> bool {
    forall|i: int, j: int| 0 <= i < j < s.len() ==> s[i].party != s[j].party
}

/// Byte-for-byte equality of two identity keys.
fn bytes_eq(a: &Vec<u8>, b: &Vec<u8>) -> (r: bool)
    ensures
        r == (a@ == b@),
{
    if a.len() != b.len() {
        proof {
            assert(a@ != b@);
        }
        return false;
    }
    let mut i: usize = 0;
    while i < a.len()
        invariant
            i <= a@.len(),
            a@.len() == b@.len(),
            forall|j: int| 0 <= j < i ==> a@[j] == b@[j],
        decreases a@.len() - i,
    {
        if a[i] != b[i] {
            return false;
        }
        i = i + 1;
    }
    proof {
        assert(a@ =~= b@);
    }
    true
}

impl ConfirmationStore {
    /// A store with no namespaces: the state before any booking.
    pub fn new() -> (r: ConfirmationStore)
        ensures
            r@ == Seq::<PartyLedgerV>::empty(),
            store_wf(r@),
    {
        let r = ConfirmationStore { parties: Vec::new() };
        proof {
            assert(r@ =~= Seq::<PartyLedgerV>::empty());
        }
        r
    }

    /// The position of `key`'s namespace, if the party ever booked.
    fn lookup(&self, key: &Vec<u8>) -> (r: Option<usize>)
        ensures
            match r {
                Some(i) => find_party(self@, key@) == Some(i as int),
                None => find_party(self@, key@) is None,
            },
    {
        let mut i: usize = 0;
        proof {
            lemma_find_party(self@, key@);
        }
        while i < self.parties.len()
            invariant
                i <= self@.len(),
                forall|j: int| 0 <= j < i ==> self@[j].party != key@,
                match find_party(self@, key@) {
                    Some(k) => 0 <= k < self@.len() && self@[k].party == key@ && (forall|j: int|
                        0 <= j < k ==> self@[j].party != key@),
                    None => forall|j: int| 0 <= j < self@.len() ==> self@[j].party != key@,
                },
            decreases self@.len() - i,
        {
            if bytes_eq(&self.parties[i].party, key) {
                proof {
                    assert(self@[i as int] == self.parties@[i as int].deep_view());
                    assert(self@[i as int].party == key@);
                }
                return Some(i);
            }
            proof {
                assert(self@[i as int] == self.parties@[i as int].deep_view());
            }
            i = i + 1;
        }
        None
    }

    /// Opens `key`'s namespace for reading; a party that never booked has
    /// none, which callers treat as zero records.
    pub fn get(&self, key: &Vec<u8>) -> (r: Option<&AppendLog<Confirmation>>)
        ensures
            match r {
                Some(log) => find_party(self@, key@) is Some && log@ == confs_of(self@, key@),
                None => find_party(self@, key@) is None,
            },
    {
        proof {
            lemma_find_party(self@, key@);
        }
        match self.lookup(key) {
            Some(i) => {
                proof {
                    assert(self@[i as int] == self.parties@[i as int].deep_view());
                }
                Some(&self.parties[i].confs)
            },
            None => None,
        }
    }

    /// Appends one confirmation to `key`'s namespace, creating the namespace
    /// on its first booking. Every other namespace is left untouched.
    pub fn append(&mut self, key: &Vec<u8>, conf: Confirmation)
        requires
            store_wf(old(self)@),
        ensures
            store_wf(final(self)@),
            final(self)@ == store_append(old(self)@, key@, conf@),
    {
        proof {
            lemma_find_party(self@, key@);
            lemma_store_append(self@, key@, conf@);
        }
        match self.lookup(key) {
            Some(i) => {
                let ghost prev = self@;
                self.parties[i].confs.push(conf);
                proof {
                    assert(self@ =~= prev.update(
                        i as int,
                        PartyLedgerV { party: key@, confs: prev[i as int].confs.push(conf@) },
                    ));
                }
            },
            None => {
                let ghost prev = self@;
                let mut confs = AppendLog::new();
                confs.push(conf);
                self.parties.push(PartyLedger { party: key.clone(), confs });
                proof {
                    assert(self.parties@[prev.len() as int].party@ =~= key@);
                    assert(self.parties@[prev.len() as int].confs@ =~= seq![conf@]);
                    assert(self@ =~= prev.push(
                        PartyLedgerV { party: key@, confs: seq![conf@] },
                    ));
                    lemma_find_party(prev, key@);
                }
            },
        }
    }
}

} // verus!
