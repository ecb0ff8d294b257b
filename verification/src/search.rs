//! Finding the first element of a slice that a predicate accepts.

use vstd::prelude::*;

verus! {

/// Returns the index of the first element the predicate accepts, or
/// `None` when it accepts none.  What "accepts" means is pinned by the
/// predicate's own postcondition: the returned index is one the predicate
/// answered `true` for, and every earlier element got `false`.
pub fn index_of<T, P: Fn(&T) -> bool>(xs: &[T], predicate: P) -> (index: Option<usize>)
    requires
        forall|i: int| 0 <= i < xs@.len() ==> call_requires(predicate, (&xs[i],)),
    ensures
        match index {
            Some(i) => i < xs@.len() && call_ensures(predicate, (&xs[i as int],), true)
                && forall|j: int| 0 <= j < i ==> call_ensures(predicate, (&xs[j],), false),
            None => forall|j: int|
                0 <= j < xs@.len() ==> call_ensures(predicate, (&xs[j],), false),
        },
{
    let mut i: usize = 0;
    while i < xs.len()
        invariant
            0 <= i <= xs@.len(),
            forall|k: int| 0 <= k < xs@.len() ==> call_requires(predicate, (&xs[k],)),
            forall|j: int| 0 <= j < i ==> call_ensures(predicate, (&xs[j],), false),
        decreases xs@.len() - i,
    {
        if predicate(&xs[i]) {
            return Some(i);
        }
        i = i + 1;
    }
    None
}

} // verus!
