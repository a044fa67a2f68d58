//! The order in which tiles and chunks are kept: by row, then by column.
use vstd::prelude::*;

use vstd::std_specs::btree::increasing_seq;
use vstd::std_specs::cmp::OrdSpec;

verus! {

/// Whether the index (row, column) `a` comes before `b`: by row first, then by column.
pub open spec fn key_less(a: (u64, u64), b: (u64, u64)) -> bool {
    a.0 < b.0 || (a.0 == b.0 && a.1 < b.1)
}

/// A sequence of (row, column) indices that the ordered maps keep increasing is ordered by
/// row first, then by column.
pub proof fn lemma_increasing_keys(s: Seq<(u64, u64)>)
    requires
        increasing_seq(s),
    ensures
        forall|i: int, j: int| 0 <= i < j < s.len() ==> key_less(s[i], s[j]),
{
    assert forall|i: int, j: int| 0 <= i < j < s.len() implies key_less(s[i], s[j]) by {
        assert(s[i].cmp_spec(&s[j]) is Less);
    }
}

} // verus!
