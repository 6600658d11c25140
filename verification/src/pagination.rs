//! Reverse-order pagination over an append log.
//!
//! Browsing returns the most recent records first: a page skips
//! `page * page_size` records from the end and takes up to `page_size` of
//! the ones before them. Paging past the end is an empty page, never an
//! error.

use vstd::prelude::*;

verus! {

/// How many records the requested page holds over a log of `n` records.
pub open spec fn page_len(n: int, page: u32, page_size: u32) -> int {
    let start = (page as int) * (page_size as int);
    if start >= n {
        0
    } else if n - start < page_size as int {
        n - start
    } else {
        page_size as int
    }
}

/// The requested page in reverse insertion order: record `i` of the page is
/// the record `page * page_size + i` positions from the end of the log.
pub open spec fn page_desc<A>(s: Seq<A>, page: u32, page_size: u32) -> Seq<A> {
    Seq::new(
        page_len(s.len() as int, page, page_size) as nat,
        |i: int| s[s.len() - 1 - ((page as int) * (page_size as int) + i)],
    )
}

/// A page holds `min(page_size, max(0, n - page * page_size))` records.
pub proof fn lemma_page_len_formula(n: int, page: u32, page_size: u32)
    requires
        n >= 0,
    ensures
        page_len(n, page, page_size) == vstd::math::min(
            page_size as int,
            vstd::math::max(0, n - (page as int) * (page_size as int)),
        ),
{
}

} // verus!
