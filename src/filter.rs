//! Case-insensitive substring filtering over the buffered lines.

use std::collections::VecDeque;
use vstd::prelude::*;

use crate::text::{contains, lower_of, lowercase, occurs_in, texts};

verus! {

/// A line is shown under a query when the query is empty, or when the
/// lowercase query occurs in the lowercase line.
pub open spec fn line_matches(line: Seq<char>, query: Seq<char>) -> bool {
    query.len() == 0 || occurs_in(lower_of(line), lower_of(query))
}

/// The indices of the lines that match `query`, in increasing order.
pub open spec fn matching_indices(lines: Seq<Seq<char>>, query: Seq<char>) -> Seq<int>
    decreases lines.len(),
{
    if lines.len() == 0 {
        Seq::empty()
    } else {
        let earlier = matching_indices(lines.drop_last(), query);
        if line_matches(lines.last(), query) {
            earlier.push(lines.len() - 1)
        } else {
            earlier
        }
    }
}

/// The indices held by an executable index list, as integers.
pub open spec fn index_view(v: Seq<usize>) -> Seq<int> {
    v.map_values(|i: usize| i as int)
}

/// Filter law: the matching indices are strictly increasing and valid, an
/// index is among them exactly when its line matches the query, and under
/// the empty query they are all the indices of the lines.
pub proof fn lemma_matching_indices(lines: Seq<Seq<char>>, query: Seq<char>)
    ensures
        forall|i: int, j: int|
            0 <= i < j < matching_indices(lines, query).len() ==> #[trigger] matching_indices(
                lines,
                query,
            )[i] < #[trigger] matching_indices(lines, query)[j],
        forall|k: int|
            0 <= k < matching_indices(lines, query).len() ==> 0 <= #[trigger] matching_indices(
                lines,
                query,
            )[k] < lines.len(),
        forall|n: int|
            0 <= n < lines.len() ==> (#[trigger] matching_indices(lines, query).contains(n)
                <==> line_matches(lines[n], query)),
        query.len() == 0 ==> matching_indices(lines, query) == Seq::new(lines.len(), |i: int| i),
    decreases lines.len(),
{
    let m = matching_indices(lines, query);
    if lines.len() > 0 {
        let init = lines.drop_last();
        let e = matching_indices(init, query);
        lemma_matching_indices(init, query);
        assert forall|n: int| 0 <= n < lines.len() implies (#[trigger] m.contains(n)
            <==> line_matches(lines[n], query)) by {
            if n < lines.len() - 1 {
                assert(init[n] == lines[n]);
                if e.contains(n) {
                    let k = choose|k: int| 0 <= k < e.len() && e[k] == n;
                    assert(m[k] == n);
                }
                if m.contains(n) {
                    let k = choose|k: int| 0 <= k < m.len() && m[k] == n;
                    if k < e.len() {
                        assert(e[k] == n);
                    }
                }
            } else {
                if line_matches(lines[n], query) {
                    assert(m[m.len() - 1] == n);
                } else {
                    assert(!e.contains(n));
                }
            }
        }
        if query.len() == 0 {
            assert(m =~= Seq::new(lines.len(), |i: int| i));
        }
    } else {
        if query.len() == 0 {
            assert(m =~= Seq::new(lines.len(), |i: int| i));
        }
    }
}

/// Whether `line` is shown under `query`.
pub fn entry_matches_filter(line: &str, query: &str) -> (r: bool)
    ensures
        r == line_matches(line@, query@),
{
    if query.is_empty() {
        return true;
    }
    let query_lower = lowercase(query);
    let line_lower = lowercase(line);
    contains(line_lower.as_str(), query_lower.as_str())
}

/// The indices of the buffered lines that match `query`, in order.
pub fn filtered_indices(lines: &VecDeque<String>, query: &str) -> (r: Vec<usize>)
    ensures
        index_view(r@) == matching_indices(texts(lines@), query@),
{
    let ghost all = texts(lines@);
    let mut out: Vec<usize> = Vec::new();
    let mut idx: usize = 0;
    assert(all.subrange(0, 0) =~= Seq::<Seq<char>>::empty());
    assert(index_view(out@) =~= Seq::<int>::empty());
    while idx < lines.len()
        invariant
            idx <= lines@.len(),
            all == texts(lines@),
            index_view(out@) == matching_indices(all.subrange(0, idx as int), query@),
        decreases lines@.len() - idx,
    {
        let ghost before = out@;
        let matched = entry_matches_filter(lines[idx].as_str(), query);
        if matched {
            out.push(idx);
        }
        proof {
            let next = all.subrange(0, idx + 1);
            assert(next.drop_last() =~= all.subrange(0, idx as int));
            assert(next.last() == lines@[idx as int]@);
            if matched {
                assert(index_view(out@) =~= index_view(before).push(idx as int));
            } else {
                assert(out@ == before);
            }
        }
        idx = idx + 1;
    }
    assert(all.subrange(0, lines@.len() as int) =~= all);
    out
}

} // verus!
