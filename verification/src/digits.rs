//! School addition of two numbers given as big-endian decimal digit
//! lists: digits are added column by column with a carry, and the result
//! is the digit list of the exact sum.

use vstd::prelude::*;

verus! {

/// All entries are decimal digits.
pub open spec fn all_digits(s: Seq<i32>) -> bool {
    forall|i: int| 0 <= i < s.len() ==> 0 <= #[trigger] s[i] <= 9
}

/// The number a big-endian sequence of decimal digits stands for.
pub open spec fn digits_value(s: Seq<i32>) -> int
    decreases s.len(),
{
    if s.len() == 0 {
        0
    } else {
        digits_value(s.drop_last()) * 10 + s.last()
    }
}

/// The number a little-endian sequence of decimal digits stands for.
pub open spec fn digits_value_le(s: Seq<i32>) -> int
    decreases s.len(),
{
    if s.len() == 0 {
        0
    } else {
        digits_value_le(s.drop_last()) + s.last() * pow10((s.len() - 1) as nat)
    }
}

pub open spec fn pow10(n: nat) -> int
    decreases n,
{
    if n == 0 {
        1
    } else {
        10 * pow10((n - 1) as nat)
    }
}

/// The `k`-th least significant digit of a big-endian digit list, zero
/// past its length.
pub open spec fn digit_at(s: Seq<i32>, k: int) -> int {
    if 0 <= k < s.len() {
        s[s.len() - 1 - k] as int
    } else {
        0
    }
}

/// The number formed by the lowest `k` digits of a big-endian list.
pub open spec fn low_value(s: Seq<i32>, k: int) -> int {
    if k < s.len() {
        digits_value(s.skip(s.len() - k))
    } else {
        digits_value(s)
    }
}

pub proof fn lemma_pow10_pos(n: nat)
    ensures
        pow10(n) >= 1,
    decreases n,
{
    if n > 0 {
        lemma_pow10_pos((n - 1) as nat);
    }
}

/// A big-endian number splits into its leading digit and the rest.
pub proof fn lemma_leading_digit(s: Seq<i32>)
    requires
        s.len() >= 1,
    ensures
        digits_value(s) == s[0] * pow10((s.len() - 1) as nat) + digits_value(s.skip(1)),
    decreases s.len(),
{
    if s.len() == 1 {
        assert(s.drop_last() =~= Seq::<i32>::empty());
        assert(s.skip(1) =~= Seq::<i32>::empty());
        assert(s[0] * 1 == s[0]) by (nonlinear_arith);
    } else {
        let t = s.drop_last();
        lemma_leading_digit(t);
        assert(t.skip(1) =~= s.skip(1).drop_last());
        assert(t[0] == s[0]);
        assert(s.skip(1).last() == s.last());
        let p = pow10((s.len() - 2) as nat);
        assert(digits_value(s) == (t[0] * p + digits_value(t.skip(1))) * 10 + s.last());
        assert((s[0] * p + digits_value(s.skip(1).drop_last())) * 10 == s[0] * (10 * p)
            + digits_value(s.skip(1).drop_last()) * 10) by (nonlinear_arith);
    }
}

/// Taking one more low digit adds that digit at its place value.
pub proof fn lemma_low_value_step(s: Seq<i32>, k: int)
    requires
        k >= 0,
    ensures
        low_value(s, k + 1) == low_value(s, k) + digit_at(s, k) * pow10(k as nat),
{
    if k < s.len() {
        let u = s.skip(s.len() - k - 1);
        assert(u.len() == k + 1);
        assert(u[0] == s[s.len() - 1 - k]);
        lemma_leading_digit(u);
        assert(u.skip(1) =~= s.skip(s.len() - k));
        if k + 1 == s.len() {
            assert(u =~= s);
        }
    } else {
        lemma_pow10_pos(k as nat);
        assert(0 * pow10(k as nat) == 0) by (nonlinear_arith);
    }
}

/// Every digit list stands for a number below the power of ten at its
/// length, and no digit list stands for a negative number.
pub proof fn lemma_digits_value_le_bounds(s: Seq<i32>)
    requires
        all_digits(s),
    ensures
        0 <= digits_value_le(s) < pow10(s.len()),
    decreases s.len(),
{
    if s.len() == 0 {
    } else {
        let t = s.drop_last();
        assert(all_digits(t));
        lemma_digits_value_le_bounds(t);
        let p = pow10((s.len() - 1) as nat);
        lemma_pow10_pos((s.len() - 1) as nat);
        assert(0 <= s.last() * p <= 9 * p) by (nonlinear_arith)
            requires
                0 <= s.last() <= 9,
                p >= 1,
        ;
        assert(pow10(t.len()) + 9 * p == 10 * p);
    }
}

/// The little-endian reading of a digit list is the big-endian reading of
/// its reverse.
pub proof fn lemma_digits_value_le_reverse(s: Seq<i32>)
    ensures
        digits_value(s.reverse()) == digits_value_le(s),
    decreases s.len(),
{
    if s.len() == 0 {
        assert(s.reverse() =~= Seq::<i32>::empty());
    } else {
        let r = s.reverse();
        assert(r.len() == s.len());
        assert(r[0] == s.last());
        lemma_leading_digit(r);
        assert(r.skip(1) =~= s.drop_last().reverse());
        lemma_digits_value_le_reverse(s.drop_last());
    }
}

/// The longer of the two digit lists.
pub open spec fn max_len(l: Seq<i32>, r: Seq<i32>) -> nat {
    if l.len() >= r.len() {
        l.len()
    } else {
        r.len()
    }
}

/// How many digits the sum takes: one more than the longer input exactly
/// when the sum reaches that input's power of ten.
pub open spec fn sum_len(l: Seq<i32>, r: Seq<i32>) -> nat {
    if digits_value(l) + digits_value(r) < pow10(max_len(l, r)) {
        max_len(l, r)
    } else {
        (max_len(l, r) + 1) as nat
    }
}

/// Adds two numbers given as big-endian decimal digit lists.  If either
/// list is empty there is nothing to add and the result is empty;
/// otherwise the result is the exact sum's digit list, with no leading
/// zero beyond the longer input's length.
pub fn add_two_numbers(left: Vec<i32>, right: Vec<i32>) -> (sum: Vec<i32>)
    requires
        all_digits(left@),
        all_digits(right@),
        left@.len() + right@.len() < usize::MAX,
    ensures
        left@.len() == 0 || right@.len() == 0 ==> sum@ == Seq::<i32>::empty(),
        left@.len() > 0 && right@.len() > 0 ==> all_digits(sum@) && digits_value(sum@)
            == digits_value(left@) + digits_value(right@) && sum@.len() == sum_len(left@, right@),
{
    if left.is_empty() || right.is_empty() {
        let sum: Vec<i32> = Vec::new();
        return sum;
    }
    let llen = left.len();
    let rlen = right.len();
    let m = if llen >= rlen {
        llen
    } else {
        rlen
    };
    let mut low: Vec<i32> = Vec::new();
    let mut carry: i32 = 0;
    let mut k: usize = 0;
    proof {
        assert(left@.skip(llen as int) =~= Seq::<i32>::empty());
        assert(right@.skip(rlen as int) =~= Seq::<i32>::empty());
    }
    while k < m
        invariant
            0 <= k <= m,
            m == max_len(left@, right@),
            llen == left@.len(),
            rlen == right@.len(),
            all_digits(left@),
            all_digits(right@),
            0 <= carry <= 1,
            low@.len() == k,
            all_digits(low@),
            digits_value_le(low@) + carry * pow10(k as nat) == low_value(left@, k as int)
                + low_value(right@, k as int),
        decreases m - k,
    {
        let left_digit: i32 = if llen > k {
            left[llen - 1 - k]
        } else {
            0
        };
        let right_digit: i32 = if rlen > k {
            right[rlen - 1 - k]
        } else {
            0
        };
        let column = left_digit + right_digit + carry;
        let digit = column % 10;
        let next_carry = column / 10;
        proof {
            let p = pow10(k as nat);
            lemma_pow10_pos(k as nat);
            lemma_low_value_step(left@, k as int);
            lemma_low_value_step(right@, k as int);
            assert(left_digit == digit_at(left@, k as int));
            assert(right_digit == digit_at(right@, k as int));
            assert(low@.push(digit).drop_last() =~= low@);
            assert(digits_value_le(low@.push(digit)) == digits_value_le(low@) + digit * p);
            assert(digit + 10 * next_carry == column);
            assert((digit + 10 * next_carry) * p == digit * p + next_carry * (10 * p))
                by (nonlinear_arith);
            assert((left_digit + right_digit + carry) * p == left_digit * p + right_digit * p
                + carry * p) by (nonlinear_arith);
        }
        low.push(digit);
        carry = next_carry;
        k = k + 1;
    }
    proof {
        lemma_digits_value_le_bounds(low@);
        if carry == 0 {
            assert(carry * pow10(m as nat) == 0) by (nonlinear_arith)
                requires
                    carry == 0,
            ;
        } else {
            assert(carry * pow10(m as nat) == pow10(m as nat)) by (nonlinear_arith)
                requires
                    carry == 1,
            ;
        }
    }
    if carry > 0 {
        proof {
            let p = pow10((m + 1) as nat);
            assert(low@.push(carry).drop_last() =~= low@);
            assert(digits_value_le(low@.push(carry)) == digits_value_le(low@) + carry * pow10(
                m as nat,
            ));
        }
        low.push(carry);
    }
    let n = low.len();
    let mut sum: Vec<i32> = Vec::new();
    let mut j: usize = 0;
    while j < n
        invariant
            0 <= j <= n,
            n == low@.len(),
            sum@.len() == j,
            forall|idx: int| 0 <= idx < j ==> sum@[idx] == low@[n - 1 - idx],
        decreases n - j,
    {
        let digit = low[n - 1 - j];
        sum.push(digit);
        j = j + 1;
    }
    proof {
        assert(sum@ =~= low@.reverse());
        lemma_digits_value_le_reverse(low@);
        assert(forall|idx: int| 0 <= idx < sum@.len() ==> 0 <= #[trigger] sum@[idx] <= 9);
    }
    sum
}

} // verus!
