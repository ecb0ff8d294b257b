//! Planning poker: finding the players with the lowest and the highest
//! estimate.  With fewer than two estimates the round is invalid, and
//! when everyone estimated the same there are no extremes to report.

use vstd::prelude::*;
use vstd::slice::slice_index_get;

verus! {

pub type Player = String;

/// One player's estimate.
#[derive(Debug, PartialEq, Clone)]
pub struct Estimate {
    pub player: Player,
    pub estimate: usize,
}

#[derive(Debug, PartialEq, Clone)]
pub enum PlanningPokerError {
    NotEnoughPlayers { got: usize },
}

/// Whether every estimate of the sequence is the same.
pub open spec fn all_equal(s: Seq<Estimate>) -> bool {
    forall|i: int, j: int|
        0 <= i < s.len() && 0 <= j < s.len() ==> s[i].estimate == s[j].estimate
}

/// The index the lowest-estimate scan ends on after the first `n`
/// elements: it starts at 0 and moves only for a strictly lower estimate,
/// so it lands on the first occurrence of the minimum.
pub open spec fn scan_min_index(s: Seq<Estimate>, n: int) -> int
    decreases n,
{
    if n <= 1 {
        0
    } else {
        let prev = scan_min_index(s, n - 1);
        if s[n - 1].estimate < s[prev].estimate {
            n - 1
        } else {
            prev
        }
    }
}

/// The index the highest-estimate scan ends on after the first `n`
/// elements: it starts at 1 and moves only for a strictly higher
/// estimate.
pub open spec fn scan_max_index(s: Seq<Estimate>, n: int) -> int
    decreases n,
{
    if n <= 0 {
        1
    } else {
        let prev = scan_max_index(s, n - 1);
        if s[n - 1].estimate > s[prev].estimate {
            n - 1
        } else {
            prev
        }
    }
}

/// The lowest-estimate scan lands on the first occurrence of the minimum.
pub proof fn lemma_scan_min_index(s: Seq<Estimate>, n: int)
    requires
        1 <= n <= s.len(),
    ensures
        0 <= scan_min_index(s, n) < n,
        forall|j: int| 0 <= j < n ==> #[trigger] s[j].estimate >= s[scan_min_index(s, n)].estimate,
        forall|j: int| 0 <= j < scan_min_index(s, n) ==> #[trigger] s[j].estimate > s[scan_min_index(s, n)].estimate,
    decreases n,
{
    if n > 1 {
        lemma_scan_min_index(s, n - 1);
    }
}

/// The highest-estimate scan lands on the highest estimate; except for
/// its seed position 1, it lands on the first occurrence.
pub proof fn lemma_scan_max_index(s: Seq<Estimate>, n: int)
    requires
        2 <= n <= s.len(),
    ensures
        0 <= scan_max_index(s, n) < n,
        forall|j: int| 0 <= j < n ==> #[trigger] s[j].estimate <= s[scan_max_index(s, n)].estimate,
        scan_max_index(s, n) == 1 || forall|j: int|
            0 <= j < scan_max_index(s, n) ==> #[trigger] s[j].estimate < s[scan_max_index(s, n)].estimate,
    decreases n,
{
    if n > 2 {
        lemma_scan_max_index(s, n - 1);
    } else {
        reveal_with_fuel(scan_max_index, 3);
    }
}

/// Finds the estimates at the extremes.  Fewer than two estimates is an
/// error; all estimates equal means no extremes; otherwise the pair is
/// the lowest and the highest estimate, each at the position its scan
/// lands on (see the scan lemmas: the first minimum, and the first
/// maximum but for the scan's seed).
pub fn find_extremes<'a>(estimates: &'a [Estimate]) -> (extremes: Result<
    Option<(&'a Estimate, &'a Estimate)>,
    PlanningPokerError,
>)
    ensures
        estimates@.len() < 2 ==> extremes == Err::<Option<(&'a Estimate, &'a Estimate)>, PlanningPokerError>(
            (PlanningPokerError::NotEnoughPlayers { got: estimates@.len() as usize }),
        ),
        estimates@.len() >= 2 && all_equal(estimates@) ==> extremes == Ok::<
            Option<(&'a Estimate, &'a Estimate)>,
            PlanningPokerError,
        >(None),
        estimates@.len() >= 2 && !all_equal(estimates@) ==> (match extremes {
            Ok(pair) => match pair {
                Some(extreme_pair) => *extreme_pair.0 == estimates@[scan_min_index(
                    estimates@,
                    estimates@.len() as int,
                )] && *extreme_pair.1 == estimates@[scan_max_index(
                    estimates@,
                    estimates@.len() as int,
                )],
                None => false,
            },
            Err(_) => false,
        }),
{
    let len = estimates.len();
    if len < 2 {
        return Err(PlanningPokerError::NotEnoughPlayers { got: len });
    }
    let mut lowest: usize = 0;
    let mut highest: usize = 1;
    let mut i: usize = 0;
    while i < len
        invariant
            len == estimates@.len(),
            2 <= len,
            0 <= i <= len,
            lowest == scan_min_index(estimates@, if i <= 1 { 1int } else { i as int }),
            highest == scan_max_index(estimates@, i as int),
            lowest < len,
            highest < len,
        decreases len - i,
    {
        let current = slice_index_get(estimates, i);
        let low = slice_index_get(estimates, lowest);
        if current.estimate < low.estimate {
            lowest = i;
        }
        let high = slice_index_get(estimates, highest);
        if current.estimate > high.estimate {
            highest = i;
        }
        i = i + 1;
    }
    proof {
        lemma_scan_min_index(estimates@, len as int);
        lemma_scan_max_index(estimates@, len as int);
    }
    let low = slice_index_get(estimates, lowest);
    let high = slice_index_get(estimates, highest);
    if low.estimate == high.estimate {
        proof {
            // The scans reach the minimum and the maximum; if those are
            // equal, every estimate equals both.
            assert(all_equal(estimates@));
        }
        return Ok(None);
    }
    Ok(Some((low, high)))
}

} // verus!
