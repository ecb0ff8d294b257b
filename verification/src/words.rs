//! Counting the words of a sentence that end in 's' or 'r'.  A word is a
//! maximal run of letters: it ends where a non-letter, or the end of the
//! sentence, follows.

use vstd::prelude::*;

verus! {

/// What `char::is_alphabetic` answers for a character: a fixed property
/// of the character alone.
pub uninterp spec fn alphabetic(c: char) -> bool;

/// Relies on char::is_alphabetic: whether the character is a letter, a
/// function of the character alone.
pub assume_specification[ char::is_alphabetic ](c: char) -> (letter: bool)
    ensures
        letter == alphabetic(c),
;

/// Whether a counted word ends at position `i`: the character there is an
/// 's' or 'r' letter, and no letter follows it directly.
pub open spec fn sr_word_ends_at(s: Seq<char>, i: int) -> bool {
    &&& 0 <= i < s.len()
    &&& (s[i] == 's' || s[i] == 'r')
    &&& alphabetic(s[i])
    &&& (i + 1 == s.len() || !alphabetic(s[i + 1]))
}

/// How many counted words end before position `i`.
pub open spec fn count_sr_upto(s: Seq<char>, i: int) -> int
    decreases i,
{
    if i <= 0 {
        0
    } else {
        count_sr_upto(s, i - 1) + if sr_word_ends_at(s, i - 1) {
            1int
        } else {
            0int
        }
    }
}

/// How many words of the sentence end in 's' or 'r'.
pub open spec fn count_sr_words(s: Seq<char>) -> int {
    count_sr_upto(s, s.len() as int)
}

/// Counts the words of the sentence that end with an 's' or an 'r',
/// where a word ends when a non-letter, or the end, appears.
pub fn count_words(s: &str) -> (count: usize)
    ensures
        count == count_sr_words(s@),
{
    let len = s.unicode_len();
    let mut count: usize = 0;
    let mut i: usize = 0;
    while i < len
        invariant
            0 <= i <= len,
            len == s@.len(),
            count == count_sr_upto(s@, i as int),
            count <= i,
        decreases len - i,
    {
        let character = s.get_char(i);
        if (character == 's' || character == 'r') && character.is_alphabetic() {
            if i + 1 == len {
                count = count + 1;
            } else {
                let next = s.get_char(i + 1);
                if !next.is_alphabetic() {
                    count = count + 1;
                }
            }
        }
        i = i + 1;
    }
    count
}

} // verus!
