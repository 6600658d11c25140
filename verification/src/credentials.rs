//! The credential store: one viewing secret per address.
//!
//! A party creates a credential once (creating it again replaces the old
//! one), and read access to that party's confirmations is granted exactly
//! when the supplied credential equals the stored one. An address that never
//! created a credential authorizes nothing.

use vstd::prelude::*;

verus! {

/// One address's viewing credential.
pub struct CredentialEntry {
    pub addr: String,
    pub key: String,
}

/// Mathematical view of [`CredentialEntry`].
pub ghost struct CredentialEntryV {
    pub addr: Seq<char>,
    pub key: Seq<char>,
}

impl View for CredentialEntry {
    type V = CredentialEntryV;

    open spec fn view(&self) -> CredentialEntryV {
        CredentialEntryV { addr: self.addr@, key: self.key@ }
    }
}

impl DeepView for CredentialEntry {
    type V = CredentialEntryV;

    open spec fn deep_view(&self) -> CredentialEntryV {
        self@
    }
}

/// The position of `addr`'s credential, if one was ever created.
pub open spec fn find_cred(s: Seq<CredentialEntryV>, addr: Seq<char>) -> Option<int>
    decreases s.len(),
{
    if s.len() == 0 {
        None
    } else if s[0].addr == addr {
        Some(0int)
    } else {
        match find_cred(s.skip(1), addr) {
            None => None,
            Some(i) => Some(i + 1),
        }
    }
}

/// What [`find_cred`] returns: the unique position holding `addr`, or
/// nothing when no position holds it.
pub proof fn lemma_find_cred(s: Seq<CredentialEntryV>, addr: Seq<char>)
    ensures
        match find_cred(s, addr) {
            Some(i) => 0 <= i < s.len() && s[i].addr == addr && (forall|j: int|
                0 <= j < i ==> s[j].addr != addr),
            None => forall|j: int| 0 <= j < s.len() ==> s[j].addr != addr,
        },
    decreases s.len(),
{
    if s.len() > 0 && s[0].addr != addr {
        lemma_find_cred(s.skip(1), addr);
        assert forall|j: int| 1 <= j < s.len() implies s.skip(1)[j - 1] == s[j] by {}
    }
}

/// The credential stored for `addr`, if any.
pub open spec fn cred_of(s: Seq<CredentialEntryV>, addr: Seq<char>) -> Option<Seq<char>> {
    match find_cred(s, addr) {
        Some(i) => Some(s[i].key),
        None => None,
    }
}

/// Storing a credential: replaces `addr`'s entry, or appends a first one.
pub open spec fn cred_set(
    s: Seq<CredentialEntryV>,
    addr: Seq<char>,
    key: Seq<char>,
) -> Seq<CredentialEntryV> {
    match find_cred(s, addr) {
        Some(i) => s.update(i, CredentialEntryV { addr, key }),
        None => s.push(CredentialEntryV { addr, key }),
    }
}

/// Well-formedness: each address holds at most one credential.
pub open spec fn cred_wf(s: Seq<CredentialEntryV>) -> bool {
    forall|i: int, j: int| 0 <= i < j < s.len() ==> s[i].addr != s[j].addr
}

/// All the viewing credentials.
pub struct CredentialStore {
    pub entries: Vec<CredentialEntry>,
}

impl View for CredentialStore {
    type V = Seq<CredentialEntryV>;

    open spec fn view(&self) -> Seq<CredentialEntryV> {
        self.entries.deep_view()
    }
}

impl CredentialStore {
    /// A store with no credentials.
    pub fn new() -> (r: CredentialStore)
        ensures
            r@ == Seq::<CredentialEntryV>::empty(),
            cred_wf(r@),
    {
        let r = CredentialStore { entries: Vec::new() };
        proof {
            assert(r@ =~= Seq::<CredentialEntryV>::empty());
        }
        r
    }

    /// The position of `addr`'s credential, if one exists.
    fn lookup(&self, addr: &String) -> (r: Option<usize>)
        ensures
            match r {
                Some(i) => find_cred(self@, addr@) == Some(i as int),
                None => find_cred(self@, addr@) is None,
            },
    {
        let mut i: usize = 0;
        proof {
            lemma_find_cred(self@, addr@);
        }
        while i < self.entries.len()
            invariant
                i <= self@.len(),
                forall|j: int| 0 <= j < i ==> self@[j].addr != addr@,
                match find_cred(self@, addr@) {
                    Some(k) => 0 <= k < self@.len() && self@[k].addr == addr@ && (forall|j: int|
                        0 <= j < k ==> self@[j].addr != addr@),
                    None => forall|j: int| 0 <= j < self@.len() ==> self@[j].addr != addr@,
                },
            decreases self@.len() - i,
        {
            if self.entries[i].addr == *addr {
                proof {
                    assert(self@[i as int] == self.entries@[i as int].deep_view());
                    assert(self@[i as int].addr == addr@);
                }
                return Some(i);
            }
            proof {
                assert(self@[i as int] == self.entries@[i as int].deep_view());
            }
            i = i + 1;
        }
        None
    }

    /// Stores `key` as `addr`'s credential, replacing any earlier one.
    pub fn set(&mut self, addr: &String, key: String)
        requires
            cred_wf(old(self)@),
        ensures
            cred_wf(final(self)@),
            final(self)@ == cred_set(old(self)@, addr@, key@),
    {
        proof {
            lemma_find_cred(self@, addr@);
        }
        match self.lookup(addr) {
            Some(i) => {
                let ghost prev = self@;
                let entry = CredentialEntry { addr: addr.clone(), key };
                self.entries.set(i, entry);
                proof {
                    assert(self@ =~= prev.update(
                        i as int,
                        CredentialEntryV { addr: addr@, key: key@ },
                    ));
                }
            },
            None => {
                let ghost prev = self@;
                self.entries.push(CredentialEntry { addr: addr.clone(), key });
                proof {
                    assert(self@ =~= prev.push(CredentialEntryV { addr: addr@, key: key@ }));
                    lemma_find_cred(prev, addr@);
                }
            },
        }
    }

    /// Whether `vk` is exactly the credential stored for `addr`; an address
    /// with no stored credential authorizes nothing.
    pub fn check(&self, addr: &String, vk: &String) -> (r: bool)
        ensures
            r == (cred_of(self@, addr@) == Some(vk@)),
    {
        proof {
            lemma_find_cred(self@, addr@);
        }
        match self.lookup(addr) {
            Some(i) => {
                proof {
                    assert(self@[i as int] == self.entries@[i as int].deep_view());
                }
                self.entries[i].key == *vk
            },
            None => false,
        }
    }
}

} // verus!
