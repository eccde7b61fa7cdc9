//! The engine-facing decision logic: error kinds, search parameters, and
//! the paging arithmetic.
//!
//! The opaque engine itself (store handles, transactions, match retrieval)
//! stands outside this crate; what is decided here is everything the façade
//! computes before calling it: which page window a result request covers,
//! which defaults apply, and which query text is authoritative on a search
//! handle.

use vstd::arithmetic::div_mod::lemma_fundamental_div_mod;
use vstd::arithmetic::mul::lemma_mul_inequality;
use vstd::math::{max, min};
use vstd::prelude::*;

verus! {

/// A store-level failure of the underlying engine, reported by the caller
/// that drives it.  Distinct from query failures; never retried here.
#[derive(Clone, Copy, Debug, PartialEq, Eq, Structural)]
pub enum DbError {
    /// The store could not be created or opened.
    Open,
    /// An I/O failure while adding documents or committing.
    Io,
}

/// The query text could not be parsed.  Distinct from store failures.
#[derive(Clone, Copy, Debug, PartialEq, Eq, Structural)]
pub enum QueryParserError {
    Malformed,
}

/// Any failure a search can surface: a store error or a query error,
/// never conflated.
#[derive(Clone, Copy, Debug, PartialEq, Eq, Structural)]
pub enum SearchError {
    Database(DbError),
    QueryParser(QueryParserError),
}

/// The page size used when a search does not name one.
pub const DEFAULT_PAGE_SIZE: u32 = 100;

/// The effective search parameters: the given page size or the default,
/// and the given document bound or the store's whole document count.
pub fn search_params(page_size: Option<u32>, max_docs: Option<u32>, doc_count: u32) -> (r: (
    u32,
    u32,
))
    ensures
        r.0 == match page_size {
            Some(p) => p,
            None => DEFAULT_PAGE_SIZE,
        },
        r.1 == match max_docs {
            Some(m) => m,
            None => doc_count,
        },
{
    let p = match page_size {
        Some(p) => p,
        None => DEFAULT_PAGE_SIZE,
    };
    let m = match max_docs {
        Some(m) => m,
        None => doc_count,
    };
    (p, m)
}

/// The mathematical form of a search handle's state.
pub struct SearchSpec {
    pub query: Seq<char>,
    pub page_size: u32,
    pub max_docs: u32,
}

/// One search bound to a parsed query: the authoritative query text, the
/// page size, and the total document bound.  Page windows are computed
/// here; the engine retrieves the matches.
pub struct Search {
    query: String,
    page_size: u32,
    max_docs: u32,
}

impl View for Search {
    type V = SearchSpec;

    closed spec fn view(&self) -> SearchSpec {
        SearchSpec { query: self.query@, page_size: self.page_size, max_docs: self.max_docs }
    }
}

impl Search {
    /// A search over the given query text, page size and document bound.
    pub fn new(query: &str, page_size: u32, max_docs: u32) -> (s: Search)
        ensures
            s@.query == query@,
            s@.page_size == page_size,
            s@.max_docs == max_docs,
    {
        Search { query: query.to_owned(), page_size, max_docs }
    }

    /// Replaces the active query text; paging stays as it was.
    pub fn update(&mut self, query: &str)
        ensures
            final(self)@.query == query@,
            final(self)@.page_size == old(self)@.page_size,
            final(self)@.max_docs == old(self)@.max_docs,
    {
        self.query = query.to_owned();
    }

    /// Replaces the active query text only when its parse succeeded: on
    /// failure the prior query stays authoritative, never an ambiguous
    /// in-between.
    pub fn update_parsed(&mut self, query: &str, parsed: bool) -> (r: bool)
        ensures
            r == parsed,
            parsed ==> final(self)@.query == query@,
            !parsed ==> final(self)@.query == old(self)@.query,
            final(self)@.page_size == old(self)@.page_size,
            final(self)@.max_docs == old(self)@.max_docs,
    {
        if parsed {
            self.query = query.to_owned();
        }
        parsed
    }

    /// The active query text.
    pub fn query(&self) -> (q: &String)
        ensures
            q@ == self@.query,
    {
        &self.query
    }

    /// The engine window of a zero-based page: its first match offset, the
    /// page size, and the document bound.  `None` only when the offset does
    /// not fit the engine's 32-bit match index.
    pub fn results_window(&self, page: u32) -> (w: Option<(u32, u32, u32)>)
        ensures
            w is Some <==> page * self@.page_size <= u32::MAX,
            w matches Some(t) ==> t.0 == page * self@.page_size && t.1 == self@.page_size
                && t.2 == self@.max_docs,
    {
        proof {
            assert((page as int) * (self.page_size as int) <= u32::MAX as int * u32::MAX as int)
                by (nonlinear_arith)
                requires
                    page <= u32::MAX,
                    self.page_size <= u32::MAX,
            ;
        }
        let first = (page as u64) * (self.page_size as u64);
        if first <= u32::MAX as u64 {
            Some((first as u32, self.page_size, self.max_docs))
        } else {
            None
        }
    }
}

/// How many matches a page window yields from a result list of `total`
/// matches: a full page, the remainder of the last page, or none beyond it.
pub open spec fn spec_page_len(total: int, size: int, page: int) -> int
    recommends
        total >= 0,
        size > 0,
        page >= 0,
{
    let first = page * size;
    if first >= total {
        0
    } else if total - first >= size {
        size
    } else {
        total - first
    }
}

/// Pagination is exact: page `p` of a result list of `total` matches holds
/// `min(size, max(0, total - p * size))` of them, and exactly the pages
/// before `ceil(total / size)` are non-empty.
pub proof fn lemma_pagination(total: int, size: int, page: int)
    requires
        total >= 0,
        size > 0,
        page >= 0,
    ensures
        spec_page_len(total, size, page) == min(size, max(0, total - page * size)),
        page >= (total + size - 1) / size ==> spec_page_len(total, size, page) == 0,
        page < (total + size - 1) / size ==> spec_page_len(total, size, page) > 0,
{
    let c = (total + size - 1) / size;
    lemma_fundamental_div_mod(total + size - 1, size);
    let r = (total + size - 1) % size;
    assert(total + size - 1 == size * c + r);
    if page >= c {
        lemma_mul_inequality(c, page, size);
        assert(c * size >= total);
        assert(page * size >= total);
    } else {
        lemma_mul_inequality(page, c - 1, size);
        assert(page * size <= (c - 1) * size);
        assert((c - 1) * size == c * size - size) by (nonlinear_arith);
        assert(c * size == total + size - 1 - r);
        assert(page * size < total);
    }
}

/// The number of matches a page yields, executably: `total` is the match
/// count the engine reports for the query, bounded by the search's limits.
pub fn page_len(total: u32, size: u32, page: u32) -> (n: u32)
    requires
        size > 0,
    ensures
        n == spec_page_len(total as int, size as int, page as int),
{
    proof {
        assert((page as int) * (size as int) <= u32::MAX as int * u32::MAX as int)
            by (nonlinear_arith)
            requires
                page <= u32::MAX,
                size <= u32::MAX,
        ;
    }
    let first = (page as u64) * (size as u64);
    if first >= total as u64 {
        0
    } else if (total as u64) - first >= size as u64 {
        size
    } else {
        (total as u64 - first) as u32
    }
}

} // verus!
