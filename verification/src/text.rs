//! Small string utilities shared by the rest of the library.

use vstd::prelude::*;

verus! {

/// Whether two string slices hold the same characters.
pub fn str_eq(a: &str, b: &str) -> (r: bool)
    ensures
        r == (a@ == b@),
{
    let sa = String::from_str(a);
    let sb = String::from_str(b);
    sa == sb
}


/// The character of a decimal digit.
pub open spec fn digit_char(d: int) -> char {
    ('0' as u32 + d) as char
}

/// The decimal digits of `n`, most significant first, without leading zeros.
pub open spec fn decimal_digits(n: nat) -> Seq<char>
    decreases n,
{
    if n < 10 {
        seq![digit_char(n as int)]
    } else {
        decimal_digits(n / 10).push(digit_char((n % 10) as int))
    }
}

/// `n` written in decimal, with a leading `-` when negative.
pub open spec fn decimal_text(n: int) -> Seq<char> {
    if n < 0 {
        seq!['-'] + decimal_digits((-n) as nat)
    } else {
        decimal_digits(n as nat)
    }
}

fn digit_str(d: u64) -> (r: &'static str)
    requires
        d < 10,
    ensures
        r@ == seq![digit_char(d as int)],
{
    proof {
        reveal_strlit("0");
        reveal_strlit("1");
        reveal_strlit("2");
        reveal_strlit("3");
        reveal_strlit("4");
        reveal_strlit("5");
        reveal_strlit("6");
        reveal_strlit("7");
        reveal_strlit("8");
        reveal_strlit("9");
    }
    if d == 0 { "0" }
    else if d == 1 { "1" }
    else if d == 2 { "2" }
    else if d == 3 { "3" }
    else if d == 4 { "4" }
    else if d == 5 { "5" }
    else if d == 6 { "6" }
    else if d == 7 { "7" }
    else if d == 8 { "8" }
    else { "9" }
}

fn append_digits(s: &mut String, n: u64)
    ensures
        final(s)@ == old(s)@ + decimal_digits(n as nat),
    decreases n,
{
    if n >= 10 {
        append_digits(s, n / 10);
    }
    s.append(digit_str(n % 10));
}

/// The decimal digits of `n`, padded with leading zeros to at least `width`
/// characters.
pub open spec fn zero_padded(n: nat, width: nat) -> Seq<char> {
    let digits = decimal_digits(n);
    if digits.len() >= width {
        digits
    } else {
        Seq::new((width - digits.len()) as nat, |i: int| '0') + digits
    }
}

fn digit_count(n: u64) -> (r: u64)
    ensures
        r == decimal_digits(n as nat).len(),
        1 <= r <= n + 1,
    decreases n,
{
    if n < 10 {
        1
    } else {
        let c = digit_count(n / 10);
        c + 1
    }
}

/// Appends `n` in decimal, padded with leading zeros to `width` characters.
pub fn append_zero_padded(s: &mut String, n: u64, width: usize)
    ensures
        final(s)@ == old(s)@ + zero_padded(n as nat, width as nat),
{
    let count = digit_count(n);
    let w = width as u64;
    let ghost start = s@;
    if count < w {
        let mut i: u64 = 0;
        proof {
            reveal_strlit("0");
        }
        while i < w - count
            invariant
                i <= w - count,
                count < w,
                s@ == start + Seq::new(i as nat, |j: int| '0'),
            decreases w - count - i,
        {
            s.append("0");
            proof {
                reveal_strlit("0");
                assert("0"@ =~= seq!['0']);
                assert(start + Seq::new((i + 1) as nat, |j: int| '0') =~= start + Seq::new(
                    i as nat,
                    |j: int| '0',
                ) + seq!['0']);
            }
            i += 1;
        }
    }
    let ghost mid = s@;
    append_digits(s, n);
    proof {
        assert(s@ =~= old(s)@ + zero_padded(n as nat, width as nat));
    }
}

/// `n` written in decimal, with a leading `-` when negative.
pub fn i64_to_text(n: i64) -> (r: String)
    ensures
        r@ == decimal_text(n as int),
{
    let mut s = String::new();
    if n < 0 {
        s.append("-");
        proof {
            reveal_strlit("-");
        }
        let magnitude: u64 = if n == i64::MIN { 9_223_372_036_854_775_808 } else { (-n) as u64 };
        append_digits(&mut s, magnitude);
    } else {
        append_digits(&mut s, n as u64);
    }
    s
}

} // verus!
