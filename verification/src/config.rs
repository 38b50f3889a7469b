//! Reading the service's numeric settings.

use vstd::prelude::*;

verus! {

/// Whether `c` is an ASCII decimal digit.
pub open spec fn is_digit(c: char) -> bool {
    '0' <= c <= '9'
}

/// The value of a digit character.
pub open spec fn digit_value(c: char) -> int {
    (c as u32) - ('0' as u32)
}

/// The number written by a string of decimal digits.
pub open spec fn decimal_value(s: Seq<char>) -> int
    decreases s.len(),
{
    if s.len() == 0 {
        0
    } else {
        decimal_value(s.drop_last()) * 10 + digit_value(s.last())
    }
}

/// `s` without one leading `+`.
pub open spec fn unsigned_digits(s: Seq<char>) -> Seq<char> {
    if s.len() > 0 && s[0] == '+' { s.drop_first() } else { s }
}

/// Whether every character of `s` is a decimal digit.
pub open spec fn all_digits(s: Seq<char>) -> bool {
    forall|i: int| 0 <= i < s.len() ==> is_digit(#[trigger] s[i])
}

/// What reading an unsigned 64-bit number from `s` gives: an optional `+`,
/// then one or more decimal digits whose value fits in 64 bits.
pub open spec fn u64_from_text(s: Seq<char>) -> Option<u64> {
    let digits = unsigned_digits(s);
    if digits.len() > 0 && all_digits(digits) && decimal_value(digits) <= u64::MAX {
        Some(decimal_value(digits) as u64)
    } else {
        None
    }
}

proof fn lemma_decimal_value_monotone(s: Seq<char>, k: int)
    requires
        0 <= k <= s.len(),
        forall|i: int| 0 <= i < s.len() ==> is_digit(#[trigger] s[i]),
    ensures
        0 <= decimal_value(s.take(k)) <= decimal_value(s),
    decreases s.len() - k,
{
    if k < s.len() {
        lemma_decimal_value_monotone(s, k + 1);
        assert(s.take(k + 1).drop_last() == s.take(k));
    } else {
        assert(s.take(k) == s);
    }
    lemma_decimal_value_nonneg(s.take(k));
}

proof fn lemma_decimal_value_nonneg(s: Seq<char>)
    requires
        forall|i: int| 0 <= i < s.len() ==> is_digit(#[trigger] s[i]),
    ensures
        decimal_value(s) >= 0,
    decreases s.len(),
{
    if s.len() > 0 {
        lemma_decimal_value_nonneg(s.drop_last());
    }
}

/// Reads an unsigned 64-bit number: an optional `+` and one or more decimal
/// digits, with no other characters; `None` when the text is not such a
/// number or the number does not fit.
pub fn parse_u64(s: &str) -> (r: Option<u64>)
    ensures
        r == u64_from_text(s@),
{
    let n = s.unicode_len();
    let start: usize = if n > 0 && s.get_char(0) == '+' { 1 } else { 0 };
    let ghost digits = unsigned_digits(s@);
    if start == n {
        return None;
    }
    let mut value: u64 = 0;
    let mut i: usize = start;
    while i < n
        invariant
            n == s@.len(),
            start <= i <= n,
            start == 0 || start == 1,
            digits == s@.subrange(start as int, n as int),
            digits == unsigned_digits(s@),
            forall|j: int| 0 <= j < i - start ==> is_digit(#[trigger] digits[j]),
            value == decimal_value(digits.take(i - start)),
        decreases n - i,
    {
        let c = s.get_char(i);
        proof {
            assert(digits[i - start] == c);
        }
        if c < '0' || c > '9' {
            proof {
                assert(!is_digit(digits[i - start]));
                assert(!all_digits(digits));
            }
            return None;
        }
        let d = (c as u32 - '0' as u32) as u64;
        proof {
            assert(digits.take(i - start + 1).drop_last() == digits.take(i - start));
        }
        let next = match value.checked_mul(10) {
            Some(v) => v.checked_add(d),
            None => None,
        };
        match next {
            Some(v) => {
                value = v;
            },
            None => {
                proof {
                    let k = i - start;
                    assert(digits.take(k + 1).last() == c);
                    assert(decimal_value(digits.take(k + 1)) == value * 10 + d);
                    if all_digits(digits) {
                        lemma_decimal_value_monotone(digits, k + 1);
                    }
                }
                return None;
            },
        }
        i += 1;
    }
    proof {
        assert(digits.take(n - start) == digits);
    }
    Some(value)
}

/// The message for a self-check interval that is not a positive integer.
pub open spec fn interval_message() -> Seq<char> {
    "SELF_CHECK_INTERVAL_MINUTES 必须是大于 0 的整数"@
}

/// Reads the self-check interval in minutes: a positive whole number.
pub fn parse_interval(raw: &str) -> (r: Result<u64, String>)
    ensures
        match u64_from_text(raw@) {
            Some(v) if v > 0 => r == Ok::<u64, String>(v),
            _ => r matches Err(m) && m@ == interval_message(),
        },
{
    match parse_u64(raw) {
        Some(v) => {
            if v == 0 {
                Err(String::from_str("SELF_CHECK_INTERVAL_MINUTES 必须是大于 0 的整数"))
            } else {
                Ok(v)
            }
        },
        None => Err(String::from_str("SELF_CHECK_INTERVAL_MINUTES 必须是大于 0 的整数")),
    }
}

} // verus!
