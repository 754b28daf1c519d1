//! Lexicographic sorting of `(u64, u64)` ranges.

use vstd::prelude::*;
use vstd::relations::{sorted_by, total_ordering};
use vstd::seq_lib::{lemma_sorted_unique, to_multiset_build, to_multiset_insert};

verus! {

/// The lexicographic order on pairs, as `Ord` for tuples defines it.
pub open spec fn pair_le(a: (u64, u64), b: (u64, u64)) -> bool {
    a.0 < b.0 || (a.0 == b.0 && a.1 <= b.1)
}

pub open spec fn pair_leq() -> spec_fn((u64, u64), (u64, u64)) -> bool {
    |a: (u64, u64), b: (u64, u64)| pair_le(a, b)
}

/// The lexicographic order on pairs is a total order.
pub proof fn lemma_pair_le_total()
    ensures
        total_ordering(pair_leq()),
{
}

/// The ranges sorted into lexicographic order.
pub open spec fn sorted_ranges(s: Seq<(u64, u64)>) -> Seq<(u64, u64)> {
    s.sort_by(pair_leq())
}

/// Sorts ranges lexicographically (insertion sort).
pub fn sort_ranges(v: &Vec<(u64, u64)>) -> (r: Vec<(u64, u64)>)
    ensures
        r@ == sorted_ranges(v@),
        sorted_by(r@, pair_leq()),
        r@.to_multiset() == v@.to_multiset(),
{
    let mut out: Vec<(u64, u64)> = Vec::new();
    let mut i: usize = 0;
    assert(v@.take(0) =~= out@);
    while i < v.len()
        invariant
            i <= v@.len(),
            sorted_by(out@, pair_leq()),
            out@.to_multiset() == v@.take(i as int).to_multiset(),
        decreases v@.len() - i,
    {
        let x = v[i];
        let mut j: usize = 0;
        while j < out.len() && (out[j].0 < x.0 || (out[j].0 == x.0 && out[j].1 <= x.1))
            invariant
                j <= out@.len(),
                forall|k: int| 0 <= k < j ==> pair_le(#[trigger] out@[k], x),
            decreases out@.len() - j,
        {
            j = j + 1;
        }
        let ghost old_out = out@;
        out.insert(j, x);
        proof {
            assert(out@ == old_out.insert(j as int, x));
            assert(v@.take(i + 1) =~= v@.take(i as int).push(x));
            to_multiset_insert(old_out, j as int, x);
            to_multiset_build(v@.take(i as int), x);
            assert(out@.to_multiset() == old_out.to_multiset().insert(x));
            assert(v@.take(i + 1).to_multiset() == v@.take(i as int).to_multiset().insert(x));
            assert forall|a: int, b: int| 0 <= a < b < out@.len() implies #[trigger] pair_leq()(
                out@[a],
                out@[b],
            ) by {
                if b < j {
                    assert(pair_leq()(old_out[a], old_out[b]));
                } else if b == j {
                    assert(pair_le(old_out[a], x));
                } else if a == j {
                    // x is strictly below old_out[j] and everything after it
                    assert(!pair_le(old_out[j as int], x));
                    if b - 1 > j {
                        assert(pair_leq()(old_out[j as int], old_out[b - 1]));
                    }
                } else if a < j {
                    assert(pair_leq()(old_out[a], old_out[b - 1]));
                } else {
                    assert(pair_leq()(old_out[a - 1], old_out[b - 1]));
                }
            }
        }
        i = i + 1;
    }
    proof {
        assert(v@.take(v@.len() as int) =~= v@);
        v@.lemma_sort_by_ensures(pair_leq());
        lemma_pair_le_total();
        lemma_sorted_unique(out@, sorted_ranges(v@), pair_leq());
    }
    out
}

} // verus!
