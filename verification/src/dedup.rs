//! Deduplication: the distinct values of a list, in descending order.

use vstd::prelude::*;

verus! {

/// A sequence that is sorted strictly descending: every element is
/// strictly greater than each one after it.
pub open spec fn strictly_descending(s: Seq<i32>) -> bool {
    forall|i: int, j: int| 0 <= i < j < s.len() ==> s[i] > s[j]
}

/// Returns the distinct values of the input, sorted in descending order.
/// Those two clauses pin the result completely: a strictly descending
/// sequence with a given set of values is unique.
pub fn unique(xs: Vec<i32>) -> (out: Vec<i32>)
    ensures
        strictly_descending(out@),
        forall|x: i32| out@.contains(x) <==> xs@.contains(x),
{
    let mut out: Vec<i32> = Vec::new();
    let mut i: usize = 0;
    while i < xs.len()
        invariant
            0 <= i <= xs@.len(),
            strictly_descending(out@),
            forall|x: i32| out@.contains(x) <==> xs@.take(i as int).contains(x),
        decreases xs@.len() - i,
    {
        let x = xs[i];
        insert_descending(&mut out, x);
        proof {
            assert forall|y: i32| xs@.take(i + 1).contains(y) implies out@.contains(y) by {
                let k = choose|k: int| 0 <= k < i + 1 && #[trigger] xs@.take(i + 1)[k] == y;
                if k < i {
                    assert(xs@.take(i as int)[k] == y);
                }
            }
            assert forall|y: i32| out@.contains(y) implies xs@.take(i + 1).contains(y) by {
                if y == x {
                    assert(xs@.take(i + 1)[i as int] == y);
                } else {
                    let k = choose|k: int| 0 <= k < i && #[trigger] xs@.take(i as int)[k] == y;
                    assert(xs@.take(i + 1)[k] == y);
                }
            }
        }
        i = i + 1;
    }
    proof {
        assert(xs@.take(xs@.len() as int) =~= xs@);
    }
    out
}

/// Inserts a value into a strictly descending list, keeping it strictly
/// descending; a value already present is left alone.
fn insert_descending(out: &mut Vec<i32>, x: i32)
    requires
        strictly_descending(old(out)@),
    ensures
        strictly_descending(final(out)@),
        forall|y: i32| final(out)@.contains(y) <==> (old(out)@.contains(y) || y == x),
{
    let ghost old_seq = out@;
    let mut p: usize = 0;
    while p < out.len() && out[p] > x
        invariant
            0 <= p <= out@.len(),
            out@ == old_seq,
            forall|k: int| 0 <= k < p ==> out@[k] > x,
        decreases out@.len() - p,
    {
        p = p + 1;
    }
    if p < out.len() && out[p] == x {
        proof {
            assert(old_seq[p as int] == x);
            assert(old_seq.contains(x));
        }
        return ;
    }
    proof {
        assert(p == old_seq.len() || old_seq[p as int] < x);
    }
    out.insert(p, x);
    proof {
        let new_seq = out@;
        assert(new_seq == old_seq.insert(p as int, x));
        old_seq.insert_ensures(p as int, x);
        // Everything before the insertion point is greater than x, and
        // everything after it is smaller: the head of the scan stopped at
        // the first element not greater than x, which is not equal to it.
        assert forall|i: int, j: int| 0 <= i < j < new_seq.len() implies new_seq[i] > new_seq[j] by {
            if i < p && j == p {
                assert(new_seq[i] == old_seq[i]);
            } else if i == p && j > p {
                assert(new_seq[j] == old_seq[j - 1]);
                assert(old_seq[p as int] < x);
                if j - 1 > p {
                    assert(old_seq[p as int] > old_seq[j - 1]);
                }
            } else if i < p && j > p {
                assert(new_seq[i] == old_seq[i]);
                assert(new_seq[j] == old_seq[j - 1]);
                if j - 1 > i {
                    assert(old_seq[i] > old_seq[j - 1]);
                }
            } else if i > p && j > p {
                assert(new_seq[i] == old_seq[i - 1]);
                assert(new_seq[j] == old_seq[j - 1]);
            } else {
                assert(new_seq[i] == old_seq[i]);
                assert(new_seq[j] == old_seq[j]);
            }
        }
        assert forall|y: i32| new_seq.contains(y) implies (old_seq.contains(y) || y == x) by {
            let k = choose|k: int| 0 <= k < new_seq.len() && #[trigger] new_seq[k] == y;
            if k < p {
                assert(old_seq[k] == y);
            } else if k > p {
                assert(old_seq[k - 1] == y);
            }
        }
        assert forall|y: i32| old_seq.contains(y) || y == x implies new_seq.contains(y) by {
            if y == x {
                assert(new_seq[p as int] == y);
            } else {
                let k = choose|k: int| 0 <= k < old_seq.len() && #[trigger] old_seq[k] == y;
                if k < p {
                    assert(new_seq[k] == y);
                } else {
                    assert(new_seq[k + 1] == y);
                }
            }
        }
    }
}

} // verus!
