//! Messages exchanged with the semantic-search service.
use vstd::prelude::*;

verus! {

/// How many results a query asks for.
pub const RETRIEVAL_K: usize = 10;

/// A search query: `k` results for `query`, narrowed by `filters`.
pub struct DeweyRequest {
    pub k: usize,
    pub query: String,
    pub filters: Vec<String>,
}

/// One search result: a file and a byte range `(start, end)` in it.
pub struct DeweyResponseItem {
    pub filepath: String,
    pub subset: (u64, u64),
}

/// The results of one search.
pub struct DeweyResponse {
    pub results: Vec<DeweyResponseItem>,
}

/// The query sent for an analysis: ten results for the clamped context, no filters.
pub fn retrieval_query(query: String) -> (r: DeweyRequest)
    ensures
        r.k == RETRIEVAL_K,
        r.query@ == query@,
        r.filters@.len() == 0,
{
    DeweyRequest { k: RETRIEVAL_K, query, filters: Vec::new() }
}

} // verus!
