//! Extracting every substring that lies between a start marker and an
//! end marker, scanning left to right: each round finds the first start
//! marker, then the first end marker at or after it, takes what stands
//! between the markers, and resumes one start-marker length past the end
//! match.

use vstd::prelude::*;

verus! {

/// Whether `pat` occurs in `s` at position `i`.
pub open spec fn is_match_at(s: Seq<char>, pat: Seq<char>, i: int) -> bool {
    0 <= i && i + pat.len() <= s.len() && s.subrange(i, i + pat.len()) == pat
}

/// The first position at or after `from` where `pat` occurs, if any.
pub open spec fn find_from(s: Seq<char>, pat: Seq<char>, from: int) -> Option<int>
    recommends
        0 <= from,
    decreases s.len() - from,
{
    if pat.len() == 0 || from + pat.len() > s.len() {
        None::<int>
    } else if is_match_at(s, pat, from) {
        Some(from)
    } else {
        find_from(s, pat, from + 1)
    }
}

/// A found position lies at or after where the search began, the match
/// fits inside the text, and it is the first: nothing matches earlier.
pub proof fn lemma_find_from_position(s: Seq<char>, pat: Seq<char>, from: int)
    ensures
        match find_from(s, pat, from) {
            Some(p) => from <= p && p + pat.len() <= s.len() && is_match_at(s, pat, p)
                && forall|j: int| from <= j < p ==> !is_match_at(s, pat, j),
            None => pat.len() >= 1 ==> forall|j: int| from <= j ==> !is_match_at(s, pat, j),
        },
    decreases s.len() - from,
{
    if pat.len() == 0 || from + pat.len() > s.len() {
    } else if is_match_at(s, pat, from) {
    } else {
        lemma_find_from_position(s, pat, from + 1);
    }
}

/// The measure of one extraction scan: how much of the text is left.
pub open spec fn scan_measure(s: Seq<char>, i: int) -> int {
    if i <= s.len() {
        s.len() - i
    } else {
        0
    }
}

/// Whether every extraction round from position `i` on is well-formed:
/// whenever both markers are found, the end match begins no earlier than
/// the end of the start match, so that something (possibly empty) stands
/// between them.
pub open spec fn extract_ok_from(s: Seq<char>, start: Seq<char>, end: Seq<char>, i: int) -> bool
    decreases scan_measure(s, i),
{
    if i >= s.len() || start.len() == 0 || end.len() == 0 {
        true
    } else {
        match find_from(s, start, i) {
            None => true,
            Some(a) => match find_from(s, end, a) {
                None => true,
                Some(b) => {
                    proof {
                        lemma_find_from_position(s, start, i);
                        lemma_find_from_position(s, end, a);
                    }
                    a + start.len() <= b && extract_ok_from(s, start, end, b + start.len())
                },
            },
        }
    }
}

/// The substrings extracted from position `i` on: each round takes what
/// stands between the first start match and the first end match at or
/// after it, then resumes one start-marker length past the end match.
pub open spec fn extract_from(s: Seq<char>, start: Seq<char>, end: Seq<char>, i: int) -> Seq<
    Seq<char>,
>
    decreases scan_measure(s, i),
{
    if i >= s.len() || start.len() == 0 || end.len() == 0 {
        Seq::<Seq<char>>::empty()
    } else {
        match find_from(s, start, i) {
            None => Seq::<Seq<char>>::empty(),
            Some(a) => match find_from(s, end, a) {
                None => Seq::<Seq<char>>::empty(),
                Some(b) => {
                    proof {
                        lemma_find_from_position(s, start, i);
                        lemma_find_from_position(s, end, a);
                    }
                    if a + start.len() <= b {
                        seq![s.subrange(a + start.len(), b)] + extract_from(
                            s,
                            start,
                            end,
                            b + start.len(),
                        )
                    } else {
                        Seq::<Seq<char>>::empty()
                    }
                },
            },
        }
    }
}

/// What `substrings_between` returns, read over character sequences.
pub open spec fn substrings_between_spec(s: Seq<char>, start: Seq<char>, end: Seq<char>) -> Seq<
    Seq<char>,
> {
    extract_from(s, start, end, 0)
}

/// Whether the whole extraction of `s` is well-formed (see
/// `extract_ok_from`); trivially so when any of the three is empty.
pub open spec fn extraction_ok(s: Seq<char>, start: Seq<char>, end: Seq<char>) -> bool {
    extract_ok_from(s, start, end, 0)
}

/// Whether `pat` occurs in `s` at position `i`, checked character by
/// character.
fn matches_at(s: &str, pat: &str, i: usize) -> (matched: bool)
    requires
        i + pat@.len() <= s@.len(),
        s@.len() <= usize::MAX,
    ensures
        matched == is_match_at(s@, pat@, i as int),
{
    let m = pat.unicode_len();
    let mut j: usize = 0;
    while j < m
        invariant
            0 <= j <= m,
            m == pat@.len(),
            i + m <= s@.len(),
            s@.len() <= usize::MAX,
            forall|l: int| 0 <= l < j ==> s@[i + l] == pat@[l],
        decreases m - j,
    {
        if s.get_char(i + j) != pat.get_char(j) {
            proof {
                assert(s@.subrange(i as int, i + m)[j as int] != pat@[j as int]);
            }
            return false;
        }
        j = j + 1;
    }
    proof {
        assert(s@.subrange(i as int, i + m) =~= pat@);
    }
    true
}

/// Finds the first occurrence of `pat` at or after `from`.
fn find_str_from(s: &str, pat: &str, from: usize) -> (position: Option<usize>)
    requires
        pat@.len() >= 1,
        from <= s@.len(),
    ensures
        match position {
            Some(p) => Some(p as int) == find_from(s@, pat@, from as int) && from <= p && p
                + pat@.len() <= s@.len(),
            None => find_from(s@, pat@, from as int) is None,
        },
{
    let n = s.unicode_len();
    let m = pat.unicode_len();
    if m > n {
        return None;
    }
    let mut i: usize = from;
    while i <= n - m
        invariant
            from <= i,
            n == s@.len(),
            m == pat@.len(),
            1 <= m <= n,
            find_from(s@, pat@, from as int) == find_from(s@, pat@, i as int),
        decreases n - i,
    {
        if matches_at(s, pat, i) {
            return Some(i);
        }
        i = i + 1;
    }
    None
}

/// Extracts every substring standing between a start and an end marker.
/// Empty text or markers yield nothing; otherwise the rounds run as
/// `substrings_between_spec` lays them out, left to right.
pub fn substrings_between(s: &str, start: &str, end: &str) -> (found: Vec<String>)
    requires
        extraction_ok(s@, start@, end@),
    ensures
        found.deep_view() == substrings_between_spec(s@, start@, end@),
{
    let mut found: Vec<String> = Vec::new();
    if s.is_empty() || start.is_empty() || end.is_empty() {
        proof {
            assert(found.deep_view() =~= substrings_between_spec(s@, start@, end@));
        }
        return found;
    }
    let n = s.unicode_len();
    let st_len = start.unicode_len();
    let mut i: usize = 0;
    while i < n
        invariant
            0 <= i,
            n == s@.len(),
            st_len == start@.len(),
            st_len >= 1,
            end@.len() >= 1,
            extract_ok_from(s@, start@, end@, i as int),
            found.deep_view() + extract_from(s@, start@, end@, i as int)
                == substrings_between_spec(s@, start@, end@),
        decreases n - i,
    {
        let found_start = find_str_from(s, start, i);
        match found_start {
            None => {
                proof {
                    assert(found.deep_view() + extract_from(s@, start@, end@, i as int)
                        =~= found.deep_view());
                }
                return found;
            },
            Some(a) => {
                let found_end = find_str_from(s, end, a);
                match found_end {
                    None => {
                        proof {
                            assert(found.deep_view() + extract_from(s@, start@, end@, i as int)
                                =~= found.deep_view());
                        }
                        return found;
                    },
                    Some(b) => {
                        proof {
                            // The well-formedness of the whole scan gives
                            // this round's markers their order.
                            assert(a + st_len <= b);
                        }
                        let ghost previous = found.deep_view();
                        let piece = s.substring_char(a + st_len, b).to_owned();
                        found.push(piece);
                        proof {
                            assert(found.deep_view() =~= previous + seq![
                                s@.subrange(a + st_len, b as int),
                            ]);
                            assert(extract_from(s@, start@, end@, i as int) == seq![
                                s@.subrange(a + st_len, b as int),
                            ] + extract_from(s@, start@, end@, b + st_len));
                            assert(found.deep_view() + extract_from(s@, start@, end@, b + st_len)
                                =~= substrings_between_spec(s@, start@, end@));
                        }
                        if st_len >= n - b {
                            proof {
                                assert(extract_from(s@, start@, end@, b + st_len)
                                    =~= Seq::<Seq<char>>::empty());
                                assert(found.deep_view() + extract_from(
                                    s@,
                                    start@,
                                    end@,
                                    b + st_len,
                                ) =~= found.deep_view());
                            }
                            return found;
                        }
                        i = b + st_len;
                    },
                }
            },
        }
    }
    proof {
        assert(found.deep_view() + extract_from(s@, start@, end@, i as int) =~= found.deep_view());
    }
    found
}

} // verus!
