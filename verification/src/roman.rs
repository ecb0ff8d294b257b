//! Parsing Roman numerals: each symbol adds its value, except that a
//! symbol standing left of a strictly greater one is subtracted instead.

use vstd::prelude::*;

verus! {

/// Whether the character is one of the seven Roman symbols.
pub open spec fn is_roman_digit(c: char) -> bool {
    c == 'I' || c == 'V' || c == 'X' || c == 'L' || c == 'C' || c == 'D' || c == 'M'
}

/// The value of a single Roman symbol.
pub open spec fn roman_digit_value(c: char) -> int {
    if c == 'I' {
        1
    } else if c == 'V' {
        5
    } else if c == 'X' {
        10
    } else if c == 'L' {
        50
    } else if c == 'C' {
        100
    } else if c == 'D' {
        500
    } else if c == 'M' {
        1000
    } else {
        0
    }
}

/// The number a sequence of Roman symbols stands for: each symbol adds
/// its value, except one standing directly left of a strictly greater
/// symbol, which subtracts it.
pub open spec fn roman_value(s: Seq<char>) -> int
    decreases s.len(),
{
    if s.len() == 0 {
        0
    } else if s.len() >= 2 && roman_digit_value(s[0]) < roman_digit_value(s[1]) {
        -roman_digit_value(s[0]) + roman_value(s.skip(1))
    } else {
        roman_digit_value(s[0]) + roman_value(s.skip(1))
    }
}

/// Parses a Roman numeral into the number it stands for.
pub fn roman_to_i64(number: &str) -> (value: i64)
    requires
        forall|i: int| 0 <= i < number@.len() ==> is_roman_digit(number@[i]),
        number@.len() <= 0x10000000,
    ensures
        value == roman_value(number@),
{
    let len = number.unicode_len();
    let mut sum: i64 = 0;
    let mut previous: i64 = 0;
    let mut i: usize = len;
    while i > 0
        invariant
            0 <= i <= len,
            len == number@.len(),
            forall|k: int| 0 <= k < number@.len() ==> is_roman_digit(number@[k]),
            len <= 0x10000000,
            sum == roman_value(number@.skip(i as int)),
            previous == if i < len {
                roman_digit_value(number@[i as int])
            } else {
                0
            },
            -1000 * (len - i) <= sum <= 1000 * (len - i),
        decreases i,
    {
        i = i - 1;
        let character = number.get_char(i);
        let n: i64 = match character {
            'I' => 1,
            'V' => 5,
            'X' => 10,
            'L' => 50,
            'C' => 100,
            'D' => 500,
            _ => 1000,
        };
        proof {
            assert(n == roman_digit_value(number@[i as int]));
            assert(number@.skip(i as int).len() >= 2 <==> i + 1 < len);
            assert(number@.skip(i as int)[0] == number@[i as int]);
            if i + 1 < len {
                assert(number@.skip(i as int)[1] == number@[i + 1]);
            }
            assert(number@.skip(i as int).skip(1) =~= number@.skip(i + 1));
        }
        if n < previous {
            sum = sum - n;
        } else {
            sum = sum + n;
        }
        previous = n;
    }
    proof {
        assert(number@.skip(0) =~= number@);
    }
    sum
}

} // verus!
