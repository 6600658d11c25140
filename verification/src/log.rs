//! The append log: a positionally indexed, append-only sequence of records.
//!
//! Appends go at the next position, indexed reads are by zero-based position,
//! and nothing is ever updated or removed. The view is the sequence of the
//! records' own views, so every contract over a log reads as a statement
//! about mathematical sequences.

use vstd::prelude::*;

use crate::errors::LedgerError;
use crate::pagination::{page_desc, page_len};

verus! {

/// A record that can be copied field for field, so a query can hand entries
/// out of a log without surrendering the stored ones.
pub trait Duplicable: DeepView + Sized {
    /// A copy of the record with the same view.
    fn duplicate(&self) -> (r: Self)
        ensures
            r.deep_view() == self.deep_view(),
    ;
}

/// An append-only, positionally indexed sequence of records.
pub struct AppendLog<T: DeepView> {
    pub entries: Vec<T>,
}

impl<T: DeepView> View for AppendLog<T> {
    type V = Seq<T::V>;

    open spec fn view(&self) -> Seq<T::V> {
        self.entries.deep_view()
    }
}

impl<T: DeepView> AppendLog<T> {
    /// An empty log: what attaching a namespace that has never been written
    /// yields.
    pub fn new() -> (r: AppendLog<T>)
        ensures
            r@ == Seq::<T::V>::empty(),
    {
        let r = AppendLog { entries: Vec::new() };
        proof {
            assert(r@ =~= Seq::<T::V>::empty());
        }
        r
    }

    /// The number of records appended so far.
    pub fn length(&self) -> (n: usize)
        ensures
            n == self@.len(),
    {
        self.entries.len()
    }

    /// Appends one record at the next available position.
    pub fn push(&mut self, record: T)
        ensures
            final(self)@ == old(self)@.push(record.deep_view()),
    {
        self.entries.push(record);
        proof {
            assert(self@ =~= old(self)@.push(record.deep_view()));
        }
    }

    /// Random access by zero-based position; `NotFound` exactly when the
    /// position is past the end.
    pub fn get_at(&self, index: usize) -> (r: Result<&T, LedgerError>)
        ensures
            index < self@.len() ==> r is Ok && r->Ok_0.deep_view() == self@[index as int],
            index >= self@.len() ==> r == Result::<&T, LedgerError>::Err(LedgerError::NotFound),
    {
        if index < self.entries.len() {
            Ok(&self.entries[index])
        } else {
            Err(LedgerError::NotFound)
        }
    }
}

impl<T: Duplicable> AppendLog<T> {
    /// One page of the log in reverse insertion order (most recent first):
    /// skips `page * page_size` records from the end, then takes up to
    /// `page_size`. Paging past the end yields an empty page.
    pub fn page(&self, page: u32, page_size: u32) -> (r: Vec<T>)
        ensures
            r.deep_view() == page_desc(self@, page, page_size),
    {
        let n = self.entries.len();
        let mut r: Vec<T> = Vec::new();
        proof {
            assert((page as int) * (page_size as int) <= 0xffffffffu64 * 0xffffffffu64)
                by (nonlinear_arith)
                requires
                    0 <= page as int <= 0xffffffffu64,
                    0 <= page_size as int <= 0xffffffffu64,
            ;
        }
        let start_wide: u64 = (page as u64) * (page_size as u64);
        if start_wide >= n as u64 {
            proof {
                assert(r.deep_view() =~= page_desc(self@, page, page_size));
            }
            return r;
        }
        let start = start_wide as usize;
        let remaining = n - start;
        let k = if (page_size as u64) < (remaining as u64) {
            page_size as usize
        } else {
            remaining
        };
        proof {
            assert(k == page_len(self@.len() as int, page, page_size));
        }
        let mut i: usize = 0;
        while i < k
            invariant
                n == self@.len(),
                start + k <= n,
                start == (page as int) * (page_size as int),
                k == page_len(self@.len() as int, page, page_size),
                i <= k,
                r.deep_view().len() == i,
                forall|j: int|
                    0 <= j < i ==> r.deep_view()[j] == self@[n - 1 - (start + j)],
            decreases k - i,
        {
            let idx = n - 1 - (start + i);
            let ghost prev = r.deep_view();
            let record = self.entries[idx].duplicate();
            proof {
                assert(record.deep_view() == self.entries@[idx as int].deep_view());
                assert(self.entries@[idx as int].deep_view() == self@[idx as int]);
            }
            r.push(record);
            proof {
                assert(r.deep_view() =~= prev.push(self@[idx as int]));
            }
            i = i + 1;
        }
        proof {
            assert(r.deep_view() =~= page_desc(self@, page, page_size));
        }
        r
    }
}

} // verus!
