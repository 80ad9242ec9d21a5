//! Exact search for signatures in a buffer of bytes.

use crate::signature::Signature;
use crate::text::{occurs_at, occurs_in};
use memmem::{Searcher, TwoWaySearcher};
use vstd::prelude::*;

verus! {

/// `pattern` is found in `data`: it is not empty and lies somewhere in `data`,
/// at any byte offset. An empty pattern is found nowhere.
pub open spec fn pattern_found(data: Seq<u8>, pattern: Seq<u8>) -> bool {
    pattern.len() > 0 && occurs_in(data, pattern)
}

/// Signature `i` of `table` is found in `data` and none before it is.
pub open spec fn is_first_found(data: Seq<u8>, table: Seq<Signature>, i: int) -> bool {
    &&& 0 <= i < table.len()
    &&& pattern_found(data, table[i].pattern@)
    &&& forall|j: int| 0 <= j < i ==> !pattern_found(data, #[trigger] table[j].pattern@)
}

/// The index of the first signature of `table`, in table order, that is
/// found in `data`.
pub open spec fn first_found(data: Seq<u8>, table: Seq<Signature>) -> Option<int> {
    if exists|i: int| is_first_found(data, table, i) {
        Some(choose|i: int| is_first_found(data, table, i))
    } else {
        None
    }
}

/// At most one signature is the first one found.
pub proof fn lemma_first_found_unique(data: Seq<u8>, table: Seq<Signature>, i: int, k: int)
    requires
        is_first_found(data, table, i),
        is_first_found(data, table, k),
    ensures
        i == k,
{
}

/// `first_found` is `Some(i)` exactly for the one `i` that is first found,
/// and `None` exactly when no signature of the table is found.
pub proof fn lemma_first_found(data: Seq<u8>, table: Seq<Signature>)
    ensures
        forall|i: int| is_first_found(data, table, i) <==> first_found(data, table) == Some(i),
        first_found(data, table) is None <==> forall|j: int|
            0 <= j < table.len() ==> !pattern_found(data, #[trigger] table[j].pattern@),
{
    assert forall|i: int| is_first_found(data, table, i) implies first_found(data, table) == Some(
        i,
    ) by {
        let c = choose|c: int| is_first_found(data, table, c);
        lemma_first_found_unique(data, table, i, c);
    }
    if first_found(data, table) is None {
        assert forall|j: int| 0 <= j < table.len() implies !pattern_found(
            data,
            #[trigger] table[j].pattern@,
        ) by {
            if pattern_found(data, table[j].pattern@) {
                lemma_some_found_has_first(data, table, j);
            }
        }
    }
}

/// If signature `j` is found, then some signature at or before `j` is the first found.
proof fn lemma_some_found_has_first(data: Seq<u8>, table: Seq<Signature>, j: int)
    requires
        0 <= j < table.len(),
        pattern_found(data, table[j].pattern@),
    ensures
        exists|i: int| 0 <= i <= j && is_first_found(data, table, i),
    decreases j,
{
    if exists|k: int| 0 <= k < j && pattern_found(data, #[trigger] table[k].pattern@) {
        let k = choose|k: int| 0 <= k < j && pattern_found(data, #[trigger] table[k].pattern@);
        lemma_some_found_has_first(data, table, k);
    } else {
        assert(is_first_found(data, table, j));
    }
}

/// Runs the two-way searcher of `memmem` for `pattern` over `data`
/// (`TwoWaySearcher::new`, then `Searcher::search_in`). Trusted: an index
/// that comes back is the start of an occurrence of `pattern` in `data`, and
/// nothing comes back only when `pattern` lies nowhere in `data`.
#[verifier::external_body]
fn two_way_search(pattern: &[u8], data: &[u8]) -> (hit: Option<usize>)
    ensures
        match hit {
            Some(at) => occurs_at(data@, pattern@, at as int),
            None => !occurs_in(data@, pattern@),
        },
{
    TwoWaySearcher::new(pattern).search_in(data)
}

/// Whether `pattern` is found in `data`. An empty pattern, or one longer
/// than `data`, is never found.
pub fn contains_pattern(data: &[u8], pattern: &[u8]) -> (found: bool)
    ensures
        found == pattern_found(data@, pattern@),
{
    if pattern.len() == 0 || data.len() < pattern.len() {
        return false;
    }
    two_way_search(pattern, data).is_some()
}

/// The first signature of `table`, in table order, that is found in `data`.
pub fn find_signature(data: &[u8], table: &Vec<Signature>) -> (hit: Option<usize>)
    ensures
        first_found(data@, table@) == match hit {
            Some(i) => Some(i as int),
            None => None,
        },
{
    proof {
        lemma_first_found(data@, table@);
    }
    let mut i: usize = 0;
    while i < table.len()
        invariant
            i <= table.len(),
            forall|j: int| 0 <= j < i ==> !pattern_found(data@, #[trigger] table@[j].pattern@),
        decreases table.len() - i,
    {
        if contains_pattern(data, table[i].pattern.as_slice()) {
            assert(is_first_found(data@, table@, i as int));
            return Some(i);
        }
        i += 1;
    }
    None
}

} // verus!
