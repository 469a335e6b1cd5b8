//! Decimal integers in text: an optional sign followed by ASCII digits.

use vstd::prelude::*;

verus! {

/// Whether `c` is one of the ten ASCII digits.
pub open spec fn is_digit(c: char) -> bool {
    0x30 <= c as u32 <= 0x39
}

/// The value of the ASCII digit `c`.
pub open spec fn digit_value(c: char) -> int {
    c as u32 - 0x30
}

/// Whether `s` holds ASCII digits only.
pub open spec fn all_digits(s: Seq<char>) -> bool {
    forall|i: int| 0 <= i < s.len() ==> is_digit(#[trigger] s[i])
}

/// The number that the digits of `s` write in base ten; zero for no digits.
pub open spec fn decimal(s: Seq<char>) -> int
    decreases s.len(),
{
    if s.len() == 0 {
        0
    } else {
        10 * decimal(s.drop_last()) + digit_value(s.last())
    }
}

/// Whether `s` starts with a minus sign.
pub open spec fn has_minus(s: Seq<char>) -> bool {
    s.len() > 0 && s[0] == '-'
}

/// What follows the sign of `s`, or all of `s` where it starts with none.
pub open spec fn after_sign(s: Seq<char>) -> Seq<char> {
    if s.len() > 0 && (s[0] == '-' || s[0] == '+') {
        s.skip(1)
    } else {
        s
    }
}

/// The integer that `s` writes: an optional `+` or `-`, and after it one
/// digit or more and nothing else. Any other text writes no integer.
pub open spec fn signed_decimal(s: Seq<char>) -> Option<int> {
    let digits = after_sign(s);
    if digits.len() > 0 && all_digits(digits) {
        if has_minus(s) {
            Some(-decimal(digits))
        } else {
            Some(decimal(digits))
        }
    } else {
        None
    }
}

/// The integer that `s` writes, where it fits in 64 bits with a sign.
pub open spec fn decimal_i64(s: Seq<char>) -> Option<i64> {
    match signed_decimal(s) {
        Some(v) if i64::MIN <= v <= i64::MAX => Some(v as i64),
        _ => None,
    }
}

/// A run of digits writes no less than any of its prefixes does.
pub proof fn lemma_decimal_prefix(s: Seq<char>, k: int)
    requires
        all_digits(s),
        0 <= k <= s.len(),
    ensures
        0 <= decimal(s.take(k)) <= decimal(s),
    decreases s.len() - k,
{
    if k == s.len() {
        assert(s.take(k) =~= s);
        lemma_decimal_nonnegative(s);
    } else {
        let t = s.drop_last();
        assert(t.take(k) =~= s.take(k));
        lemma_decimal_prefix(t, k);
    }
}

/// A run of digits writes a number that is not negative.
pub proof fn lemma_decimal_nonnegative(s: Seq<char>)
    requires
        all_digits(s),
    ensures
        0 <= decimal(s),
    decreases s.len(),
{
    if s.len() > 0 {
        lemma_decimal_nonnegative(s.drop_last());
    }
}

/// Reads the integer that `s` writes; `None` where `s` writes none or one
/// that does not fit.
pub fn parse_i64(s: &[char]) -> (r: Option<i64>)
    ensures
        r == decimal_i64(s@),
{
    if s.len() == 0 {
        return None;
    }
    let negative: bool = s[0] == '-';
    let signed: bool = negative || s[0] == '+';
    let digits: &[char] = if signed {
        &s[1..s.len()]
    } else {
        s
    };
    if digits.len() == 0 {
        return None;
    }
    let limit: u64 = if negative {
        0x8000_0000_0000_0000
    } else {
        0x7fff_ffff_ffff_ffff
    };
    let mut acc: u64 = 0;
    let mut k: usize = 0;
    while k < digits.len()
        invariant
            k <= digits.len(),
            acc == decimal(digits@.take(k as int)),
            acc <= limit,
            limit == if negative {
                0x8000_0000_0000_0000u64
            } else {
                0x7fff_ffff_ffff_ffffu64
            },
            negative == has_minus(s@),
            digits@ == after_sign(s@),
            digits@.len() > 0,
            forall|j: int| 0 <= j < k ==> is_digit(#[trigger] digits@[j]),
        decreases digits.len() - k,
    {
        let n: u32 = digits[k] as u32;
        if n < 0x30 || n > 0x39 {
            return None;
        }
        let d: u64 = (n - 0x30) as u64;
        assert(digits@.take(k + 1).drop_last() =~= digits@.take(k as int));
        if acc > (limit - d) / 10 {
            proof {
                if all_digits(digits@) {
                    lemma_decimal_prefix(digits@, k + 1);
                }
            }
            return None;
        }
        acc = acc * 10 + d;
        k += 1;
    }
    assert(digits@.take(k as int) =~= digits@);
    if negative {
        if acc == 0x8000_0000_0000_0000 {
            Some(i64::MIN)
        } else {
            Some(-(acc as i64))
        }
    } else {
        Some(acc as i64)
    }
}

} // verus!
