//! Left-padding a string: whole copies of the padding are laid before the
//! string while the result, with one more copy, would still fit the
//! desired size.  Sizes are measured in bytes, as `str::len` gives them.

use vstd::arithmetic::div_mod::lemma_fundamental_div_mod_converse;
use vstd::prelude::*;

verus! {

/// The padding repeated `k` times, one copy after another.
pub open spec fn repeat_chars(padding: Seq<char>, k: nat) -> Seq<char>
    decreases k,
{
    if k == 0 {
        Seq::<char>::empty()
    } else {
        repeat_chars(padding, (k - 1) as nat) + padding
    }
}

/// How many whole copies of the padding fit to the left of the string:
/// the most `k` with `k * p_len + s_len <= desired`, and none when the
/// string alone is already too long.  The lengths are byte counts.
pub open spec fn pad_count(s_len: nat, desired: nat, p_len: nat) -> nat
    recommends
        p_len > 0,
{
    if desired >= s_len {
        (((desired - s_len) as int) / (p_len as int)) as nat
    } else {
        0
    }
}

pub proof fn lemma_repeat_chars_len(padding: Seq<char>, k: nat)
    ensures
        repeat_chars(padding, k).len() == k * padding.len(),
    decreases k,
{
    if k > 0 {
        lemma_repeat_chars_len(padding, (k - 1) as nat);
        assert(repeat_chars(padding, k) == repeat_chars(padding, (k - 1) as nat) + padding);
        assert(repeat_chars(padding, k).len() == (k - 1) * padding.len() + padding.len());
        assert((k - 1) * padding.len() + padding.len() == k * padding.len()) by (nonlinear_arith);
    } else {
        assert(k * padding.len() == 0) by (nonlinear_arith)
            requires
                k == 0,
        ;
    }
}

/// Pads the string on the left with whole copies of `padding` while the
/// next copy still keeps the total byte length within
/// `desired_string_size`.  An empty padding leaves the string as it is;
/// so does a size the string alone already fills.
pub fn left_pad(s: &str, desired_string_size: usize, padding: &str) -> (padded: String)
    ensures
        padding.len() == 0 ==> padded@ == s@,
        padding.len() > 0 ==> padded@ == repeat_chars(
            padding@,
            pad_count(s.len() as nat, desired_string_size as nat, padding.len() as nat),
        ) + s@,
{
    if padding.len() == 0 {
        return s.to_owned();
    }
    let s_len = s.len();
    let p_len = padding.len();
    if desired_string_size < s_len || desired_string_size - s_len < p_len {
        proof {
            assert(pad_count(s.len() as nat, desired_string_size as nat, padding.len() as nat)
                == 0) by {
                if desired_string_size >= s_len {
                    lemma_fundamental_div_mod_converse(
                        desired_string_size - s_len,
                        p_len as int,
                        0,
                        desired_string_size - s_len,
                    );
                }
            }
            assert(repeat_chars(padding@, 0) + s@ =~= s@);
        }
        return s.to_owned();
    }
    let budget = desired_string_size - s_len;
    let mut buffer = String::new();
    let mut buffer_bytes: usize = 0;
    let ghost mut k: nat = 0;
    proof {
        assert(buffer@ =~= repeat_chars(padding@, 0));
    }
    while buffer_bytes <= budget - p_len
        invariant
            p_len == padding.len(),
            p_len >= 1,
            p_len <= budget,
            budget <= usize::MAX,
            buffer_bytes <= budget,
            buffer_bytes == k * p_len,
            buffer@ == repeat_chars(padding@, k),
        decreases budget - buffer_bytes,
    {
        buffer.append(padding);
        buffer_bytes = buffer_bytes + p_len;
        proof {
            k = k + 1;
            assert((k - 1) * p_len + p_len == k * p_len) by (nonlinear_arith);
        }
    }
    proof {
        // The loop stopped at the first k whose next copy would overflow
        // the budget, which is exactly the quotient.
        assert(k * p_len <= budget < k * p_len + p_len);
        lemma_fundamental_div_mod_converse(
            budget as int,
            p_len as int,
            k as int,
            budget - k * p_len,
        );
        assert(k == pad_count(s.len() as nat, desired_string_size as nat, padding.len() as nat));
    }
    let mut padded = buffer;
    padded.append(s);
    padded
}

} // verus!
