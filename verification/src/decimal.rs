//! Decimal ASCII numbers: the grammar that is read, and the digits that are written.

use crate::text::{DIGIT_NINE, DIGIT_ZERO, MINUS, PLUS};
use vstd::prelude::*;

verus! {

/// Whether `b` is one of the ASCII bytes `0`-`9`.
pub open spec fn is_digit(b: u8) -> bool {
    DIGIT_ZERO <= b && b <= DIGIT_NINE
}

/// Whether every byte of `s` is a decimal digit.
pub open spec fn all_digits(s: Seq<u8>) -> bool {
    forall|i: int| 0 <= i < s.len() ==> is_digit(#[trigger] s[i])
}

/// The number that the decimal digits `s` denote, most significant digit first.
pub open spec fn digits_value(s: Seq<u8>) -> nat
    decreases s.len(),
{
    if s.len() == 0 {
        0
    } else {
        (digits_value(s.drop_last()) * 10 + (s.last() - DIGIT_ZERO)) as nat
    }
}

/// Whether `token` starts with a sign, `+` or `-`.
pub open spec fn has_sign(token: Seq<u8>) -> bool {
    token.len() > 0 && (token[0] == PLUS || token[0] == MINUS)
}

/// The integer that `token` denotes: an optional sign followed by at least one
/// decimal digit and nothing else. `None` for any other token.
pub open spec fn integer_value(token: Seq<u8>) -> Option<int> {
    let digits = if has_sign(token) {
        token.skip(1)
    } else {
        token
    };
    if digits.len() > 0 && all_digits(digits) {
        if token[0] == MINUS {
            Some(-(digits_value(digits) as int))
        } else {
            Some(digits_value(digits) as int)
        }
    } else {
        None
    }
}

/// The decimal digits of `n`, without leading zeros.
pub open spec fn decimal_digits(n: nat) -> Seq<u8>
    decreases n,
{
    if n < 10 {
        seq![(DIGIT_ZERO + n) as u8]
    } else {
        decimal_digits(n / 10).push((DIGIT_ZERO + n % 10) as u8)
    }
}

/// The decimal digits of `n`, with zeros in front up to `width` digits.
pub open spec fn zero_padded(n: nat, width: nat) -> Seq<u8> {
    let digits = decimal_digits(n);
    if digits.len() >= width {
        digits
    } else {
        Seq::new((width - digits.len()) as nat, |i: int| DIGIT_ZERO) + digits
    }
}

/// The digits written for a number are digits, at least one of them, and denote that number.
pub proof fn lemma_decimal_digits(n: nat)
    ensures
        decimal_digits(n).len() >= 1,
        all_digits(decimal_digits(n)),
        digits_value(decimal_digits(n)) == n,
        integer_value(decimal_digits(n)) == Some(n as int),
    decreases n,
{
    let d = decimal_digits(n);
    if n < 10 {
        assert(d.drop_last() =~= Seq::<u8>::empty());
        assert(digits_value(d.drop_last()) == 0);
    } else {
        lemma_decimal_digits(n / 10);
        assert(d.drop_last() =~= decimal_digits(n / 10));
    }
    assert(d[0] != PLUS && d[0] != MINUS);
}

/// Ten to the power of `k`.
pub open spec fn power_of_ten(k: nat) -> nat
    decreases k,
{
    if k == 0 {
        1
    } else {
        10 * power_of_ten((k - 1) as nat)
    }
}

/// A number below ten to the power of `k` has at most `k` digits.
pub proof fn lemma_decimal_digits_len(n: nat, k: nat)
    requires
        k >= 1,
        n < power_of_ten(k),
    ensures
        decimal_digits(n).len() <= k,
    decreases k,
{
    reveal_with_fuel(power_of_ten, 2);
    if n >= 10 {
        assert(k >= 2);
        lemma_decimal_digits_len(n / 10, (k - 1) as nat);
    }
}

/// Zeros in front of digits leave the number unchanged.
pub proof fn lemma_leading_zeros(zeros: nat, digits: Seq<u8>)
    ensures
        digits_value(Seq::new(zeros, |i: int| DIGIT_ZERO) + digits) == digits_value(digits),
    decreases digits.len(),
{
    let z = Seq::new(zeros, |i: int| DIGIT_ZERO);
    if digits.len() == 0 {
        assert(z + digits =~= z);
        lemma_zeros_value(zeros);
    } else {
        assert((z + digits).drop_last() =~= z + digits.drop_last());
        lemma_leading_zeros(zeros, digits.drop_last());
    }
}

proof fn lemma_zeros_value(zeros: nat)
    ensures
        digits_value(Seq::new(zeros, |i: int| DIGIT_ZERO)) == 0,
    decreases zeros,
{
    if zeros > 0 {
        let z = Seq::new(zeros, |i: int| DIGIT_ZERO);
        assert(z.drop_last() =~= Seq::new((zeros - 1) as nat, |i: int| DIGIT_ZERO));
        lemma_zeros_value((zeros - 1) as nat);
    }
}

/// A number padded with zeros reads back as the same number, and has at least
/// `width` digits.
pub proof fn lemma_zero_padded(n: nat, width: nat)
    ensures
        zero_padded(n, width).len() >= width,
        zero_padded(n, width).len() >= 1,
        all_digits(zero_padded(n, width)),
        digits_value(zero_padded(n, width)) == n,
        integer_value(zero_padded(n, width)) == Some(n as int),
{
    lemma_decimal_digits(n);
    let digits = decimal_digits(n);
    if digits.len() < width {
        lemma_leading_zeros((width - digits.len()) as nat, digits);
    }
    let p = zero_padded(n, width);
    assert(p[0] != PLUS && p[0] != MINUS);
}

/// Reads `token` as a non-negative integer.
///
/// Returns the value when `token` denotes an integer from 0 to `u64::MAX`, and
/// `None` when it denotes none, a negative one or a larger one.
pub fn parse_unsigned(token: &[u8]) -> (r: Option<u64>)
    ensures
        r == match integer_value(token@) {
            Some(v) => if 0 <= v <= u64::MAX {
                Some(v as u64)
            } else {
                None
            },
            None => None,
        },
{
    let n: usize = token.len();
    if n == 0 {
        return None;
    }
    let negative: bool = token[0] == MINUS;
    let start: usize = if token[0] == PLUS || token[0] == MINUS {
        1
    } else {
        0
    };
    let ghost digits = if has_sign(token@) {
        token@.skip(1)
    } else {
        token@
    };
    if start == n {
        return None;
    }
    let mut value: u64 = 0;
    let mut too_large: bool = false;
    let mut i: usize = start;
    while i < n
        invariant
            n == token@.len(),
            start <= i <= n,
            negative == (token@[0] == MINUS),
            digits == if has_sign(token@) {
                token@.skip(1)
            } else {
                token@
            },
            digits.len() == n - start,
            forall|k: int| 0 <= k < digits.len() ==> digits[k] == token@[k + start],
            all_digits(digits.take(i - start)),
            !too_large ==> value == digits_value(digits.take(i - start)),
            too_large ==> digits_value(digits.take(i - start)) > u64::MAX,
        decreases n - i,
    {
        let b: u8 = token[i];
        if b < DIGIT_ZERO || b > DIGIT_NINE {
            assert(!is_digit(digits[i - start]));
            return None;
        }
        let d: u64 = (b - DIGIT_ZERO) as u64;
        proof {
            let next = digits.take(i + 1 - start);
            assert(next.drop_last() =~= digits.take(i - start));
            assert(next.last() == b);
        }
        if !too_large {
            match value.checked_mul(10) {
                Some(tens) => match tens.checked_add(d) {
                    Some(sum) => {
                        value = sum;
                    },
                    None => {
                        too_large = true;
                    },
                },
                None => {
                    too_large = true;
                },
            }
        }
        i += 1;
    }
    assert(digits.take(n - start) =~= digits);
    if too_large {
        None
    } else if negative {
        if value == 0 {
            Some(0)
        } else {
            None
        }
    } else {
        Some(value)
    }
}

fn push_decimal(out: &mut Vec<u8>, n: u64)
    ensures
        final(out)@ == old(out)@ + decimal_digits(n as nat),
    decreases n,
{
    if n >= 10 {
        push_decimal(out, n / 10);
    }
    out.push(DIGIT_ZERO + (n % 10) as u8);
    assert(final(out)@ =~= old(out)@ + decimal_digits(n as nat));
}

/// Writes `n` in decimal, without leading zeros.
pub fn to_decimal(n: u64) -> (out: Vec<u8>)
    ensures
        out@ == decimal_digits(n as nat),
{
    let mut out: Vec<u8> = Vec::new();
    push_decimal(&mut out, n);
    assert(out@ =~= decimal_digits(n as nat));
    out
}

/// Writes `n` in decimal, with zeros in front up to `width` digits.
pub fn to_decimal_padded(n: u64, width: usize) -> (out: Vec<u8>)
    ensures
        out@ == zero_padded(n as nat, width as nat),
{
    let mut digits: Vec<u8> = to_decimal(n);
    let mut out: Vec<u8> = Vec::new();
    let mut i: usize = digits.len();
    while i < width
        invariant
            digits@.len() <= i,
            digits@.len() < width ==> i <= width,
            digits@.len() >= width ==> i == digits@.len(),
            out@ == Seq::new((i - digits@.len()) as nat, |k: int| DIGIT_ZERO),
        decreases width - i,
    {
        out.push(DIGIT_ZERO);
        i += 1;
        assert(out@ =~= Seq::new((i - digits@.len()) as nat, |k: int| DIGIT_ZERO));
    }
    out.append(&mut digits);
    assert(out@ =~= zero_padded(n as nat, width as nat));
    out
}

} // verus!
