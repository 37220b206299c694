//! Resolving a triangle index back to the object that produced it.
//!
//! The reverse index holds one cumulative interval entry per object; a
//! query is answered by a monotonic-predicate binary search for the largest
//! entry not above the query, in logarithmically many probes.  A query
//! outside every range answers with `None`; a zero-width range can never
//! match.

use vstd::prelude::*;
use crate::flatten::{FlattenOutput, flatten_ok, spec_triangles};
use crate::model::{CityModel, ObjectIndex};

verus! {

/// A successful pick: the owning object's id and the inclusive
/// triangle-triple range `[start, end]` it owns.
#[derive(Clone, PartialEq, Eq, Debug)]
pub struct PickResult {
    pub id: String,
    pub start: u32,
    pub end: u32,
}

/// In a non-decreasing sequence any two ordered positions are ordered.
proof fn lemma_sorted_pair(s: Seq<u32>, i: int, j: int)
    requires
        forall|k: int| 0 <= k < s.len() - 1 ==> #[trigger] s[k] <= s[k + 1],
        0 <= i <= j < s.len(),
    ensures
        s[i] <= s[j],
    decreases j - i,
{
    if i < j {
        lemma_sorted_pair(s, i, j - 1);
    }
}

/// Resolves a triangle-triple index to the object owning it: the id and
/// inclusive range of the interval containing `query`, or `None` when the
/// query lies outside every range — a normal result, not an error.
pub fn get_interval_and_id(index: &ObjectIndex, query: u32) -> (r: Option<PickResult>)
    requires
        index.wf(),
    ensures
        match r {
            Some(p) => exists|k: int|
                0 <= k < index.ids@.len() && (#[trigger] index.intervals@[k]) <= query && query
                    < index.intervals@[k + 1] && p.id == index.ids@[k] && p.start
                    == index.intervals@[k] && p.end == index.intervals@[k + 1] - 1,
            None => forall|k: int|
                0 <= k < index.ids@.len() ==> !((#[trigger] index.intervals@[k]) <= query && query
                    < index.intervals@[k + 1]),
        },
{
    let n = index.ids.len();
    let mut lo: usize = 0;
    let mut hi: usize = n;
    while lo < hi
        invariant
            index.wf(),
            n == index.ids@.len(),
            0 <= lo <= hi <= n,
            index.intervals@[lo as int] <= query,
            forall|j: int| hi < j <= n ==> #[trigger] index.intervals@[j] > query,
        decreases hi - lo,
    {
        let mid = lo + (hi - lo) / 2 + 1;
        if index.intervals[mid] <= query {
            lo = mid;
        } else {
            hi = mid - 1;
            proof {
                assert forall|j: int| hi < j <= n implies #[trigger] index.intervals@[j]
                    > query by {
                    lemma_sorted_pair(index.intervals@, mid as int, j);
                }
            }
        }
    }
    if lo == n {
        proof {
            assert forall|k: int|
                0 <= k < index.ids@.len() implies !((#[trigger] index.intervals@[k]) <= query
                && query < index.intervals@[k + 1]) by {
                lemma_sorted_pair(index.intervals@, k + 1, n as int);
            }
        }
        None
    } else {
        let id = index.ids[lo].clone();
        let start = index.intervals[lo];
        let end = index.intervals[lo + 1] - 1;
        proof {
            assert(index.intervals@[lo as int + 1] > query);
        }
        Some(PickResult { id, start, end })
    }
}

/// Every triangle of the buffer is owned: a sequence of cumulative interval
/// entries that starts at zero covers every query below its final entry, so
/// picking any emitted triangle index succeeds.
proof fn lemma_cover(s: Seq<u32>, query: u32)
    requires
        s.len() >= 1,
        s[0] == 0,
        forall|k: int| 0 <= k < s.len() - 1 ==> #[trigger] s[k] <= s[k + 1],
        query < s.last(),
    ensures
        exists|k: int|
            0 <= k < s.len() - 1 && (#[trigger] s[k]) <= query && query < s[k + 1],
    decreases s.len(),
{
    if s.len() == 1 {
        assert(false);
    } else if query >= s[s.len() - 2] {
        assert((#[trigger] s[s.len() - 2]) <= query && query < s[s.len() - 2 + 1]);
    } else {
        lemma_cover(s.drop_last(), query);
        let k = choose|k: int|
            0 <= k < s.drop_last().len() - 1 && (#[trigger] s.drop_last()[k]) <= query && query
                < s.drop_last()[k + 1];
        assert((#[trigger] s[k]) <= query && query < s[k + 1]);
    }
}

/// A pick below the index's final cumulative count always lands in some
/// object's range: `get_interval_and_id` cannot answer `None` for a
/// triangle the buffer actually holds.
pub proof fn lemma_pick_covers(index: ObjectIndex, query: u32)
    requires
        index.wf(),
        query < index.intervals@.last(),
    ensures
        exists|k: int|
            0 <= k < index.ids@.len() && (#[trigger] index.intervals@[k]) <= query && query
                < index.intervals@[k + 1],
{
    lemma_cover(index.intervals@, query);
}

/// Every emitted triangle of a flattened document is pickable: for any
/// triple index below the triangle count, some object's range contains it,
/// so `get_interval_and_id` answers with that object rather than `None`.
pub proof fn lemma_flatten_pick_covers(m: CityModel, out: FlattenOutput, t: u32)
    requires
        flatten_ok(m, out),
        (t as int) < spec_triangles(m).len() / 3,
    ensures
        exists|k: int|
            0 <= k < out.index.ids@.len() && (#[trigger] out.index.intervals@[k]) <= t && t
                < out.index.intervals@[k + 1],
{
    assert(out.index.intervals@.last() as int == spec_triangles(m).len() / 3);
    lemma_pick_covers(out.index, t);
}

} // verus!
