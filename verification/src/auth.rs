//! The service token: its strength check at start-up and the comparison of a
//! presented token with it.

use vstd::prelude::*;

use subtle::ConstantTimeEq;
use vstd::slice::slice_subrange;
use vstd::utf8::encode_utf8_decode_utf8;

verus! {

/// The fewest characters a service token may have.
pub const MIN_TOKEN_LENGTH: usize = 16;

/// Example values that a token may not be, in any ASCII letter case.
pub open spec fn placeholder_tokens() -> Seq<Seq<char>> {
    seq![
        "your-secret-token-here"@,
        "your-token-here"@,
        "changeme"@,
        "change-me"@,
        "token"@,
        "secret"@,
    ]
}

/// `c` with an ASCII capital letter made small.
pub open spec fn ascii_lower(c: char) -> char {
    if 'A' <= c <= 'Z' {
        ((c as u32) + 32) as char
    } else {
        c
    }
}

/// `s` with its ASCII capital letters made small; other characters stay.
pub open spec fn ascii_lowercase(s: Seq<char>) -> Seq<char> {
    s.map_values(|c: char| ascii_lower(c))
}

/// The message for a token that is not set.
pub open spec fn missing_token_message() -> Seq<char> {
    "API_TOKEN 环境变量未配置，请设置一个强随机 Token 后重启"@
}

/// The message for a token shorter than `MIN_TOKEN_LENGTH` characters.
pub open spec fn short_token_message() -> Seq<char> {
    "API_TOKEN 长度必须至少 16 位"@
}

/// The message for a token that is a placeholder value.
pub open spec fn placeholder_token_message() -> Seq<char> {
    "API_TOKEN 不能使用占位符，请改为强随机值"@
}

/// The verdict on a token: no message when it may be used.
pub open spec fn token_verdict(token: Seq<char>) -> Option<Seq<char>> {
    if token.len() == 0 {
        Some(missing_token_message())
    } else if token.len() < MIN_TOKEN_LENGTH {
        Some(short_token_message())
    } else if placeholder_tokens().contains(ascii_lowercase(token)) {
        Some(placeholder_token_message())
    } else {
        None
    }
}

/// Making a character lowercase twice is making it lowercase once.
pub proof fn lemma_ascii_lower_idempotent(c: char)
    ensures
        ascii_lower(ascii_lower(c)) == ascii_lower(c),
{
    if 'A' <= c <= 'Z' {
        let l = ((c as u32) + 32) as char;
        assert(97 <= (c as u32) + 32 <= 122);
        assert(l as u32 == (c as u32) + 32);
        assert(!('A' <= l <= 'Z'));
    }
}

/// Making a string lowercase keeps its length and is idempotent.
pub proof fn lemma_ascii_lowercase_idempotent(s: Seq<char>)
    ensures
        ascii_lowercase(s).len() == s.len(),
        ascii_lowercase(ascii_lowercase(s)) == ascii_lowercase(s),
{
    assert forall|i: int| 0 <= i < s.len() implies #[trigger] ascii_lowercase(ascii_lowercase(s))[i]
        == ascii_lowercase(s)[i] by {
        lemma_ascii_lower_idempotent(s[i]);
    }
    assert(ascii_lowercase(ascii_lowercase(s)) =~= ascii_lowercase(s));
}

/// The verdict on a token depends only on its length and its lowercase
/// form: ASCII letter case never decides whether a token is accepted.
pub proof fn lemma_token_verdict_ignores_case(token: Seq<char>)
    ensures
        token_verdict(token) == token_verdict(ascii_lowercase(token)),
{
    lemma_ascii_lowercase_idempotent(token);
}

/// A token of at least `MIN_TOKEN_LENGTH` characters whose lowercase form
/// is no placeholder is accepted; a shorter or placeholder token is refused.
pub proof fn lemma_strong_token_accepted(token: Seq<char>)
    ensures
        token_verdict(token) is None <==> (token.len() >= MIN_TOKEN_LENGTH
            && !placeholder_tokens().contains(ascii_lowercase(token))),
{
}

fn lower_code(c: char) -> (r: u32)
    ensures
        r == ascii_lower(c) as u32,
{
    if 'A' <= c && c <= 'Z' {
        c as u32 + 32
    } else {
        c as u32
    }
}

/// Whether `token` made lowercase (ASCII letters only) is `lower`.
fn lowercase_equals(token: &str, lower: &str) -> (r: bool)
    ensures
        r == (ascii_lowercase(token@) == lower@),
{
    let n = token.unicode_len();
    if n != lower.unicode_len() {
        return false;
    }
    let mut i: usize = 0;
    while i < n
        invariant
            n == token@.len(),
            n == lower@.len(),
            i <= n,
            forall|j: int| 0 <= j < i ==> ascii_lower(#[trigger] token@[j]) == lower@[j],
        decreases n - i,
    {
        let a = token.get_char(i);
        let b = lower.get_char(i);
        if lower_code(a) != b as u32 {
            proof {
                assert(ascii_lowercase(token@)[i as int] != lower@[i as int]);
            }
            return false;
        }
        i += 1;
    }
    proof {
        assert(ascii_lowercase(token@) =~= lower@);
    }
    true
}

/// Checks the strength of the service token at start-up: it must be set,
/// have at least `MIN_TOKEN_LENGTH` characters, and not be one of the
/// placeholder values in any ASCII letter case. The error names the first
/// rule broken.
pub fn validate_token(token: &str) -> (r: Result<(), String>)
    ensures
        match token_verdict(token@) {
            None => r is Ok,
            Some(msg) => r matches Err(m) && m@ == msg,
        },
{
    let n = token.unicode_len();
    if n == 0 {
        return Err(String::from_str("API_TOKEN 环境变量未配置，请设置一个强随机 Token 后重启"));
    }
    if n < MIN_TOKEN_LENGTH {
        return Err(String::from_str("API_TOKEN 长度必须至少 16 位"));
    }
    let found = lowercase_equals(token, "your-secret-token-here")
        || lowercase_equals(token, "your-token-here")
        || lowercase_equals(token, "changeme")
        || lowercase_equals(token, "change-me")
        || lowercase_equals(token, "token")
        || lowercase_equals(token, "secret");
    proof {
        let low = ascii_lowercase(token@);
        let p = placeholder_tokens();
        if p.contains(low) {
            let k = choose|k: int| 0 <= k < p.len() && p[k] == low;
            assert(0 <= k < 6);
        }
        if found {
            if low == "your-secret-token-here"@ { assert(p[0] == low); }
            else if low == "your-token-here"@ { assert(p[1] == low); }
            else if low == "changeme"@ { assert(p[2] == low); }
            else if low == "change-me"@ { assert(p[3] == low); }
            else if low == "token"@ { assert(p[4] == low); }
            else { assert(p[5] == low); }
        }
    }
    if found {
        return Err(String::from_str("API_TOKEN 不能使用占位符，请改为强随机值"));
    }
    Ok(())
}

/// `subtle`'s `ConstantTimeEq::ct_eq` on byte slices, turned into a `bool`:
/// true exactly when the slices are equal (it returns at once on a length
/// difference, and otherwise looks at every byte).
#[verifier::external_body]
fn bytes_ct_eq(a: &[u8], b: &[u8]) -> (r: bool)
    ensures
        r == (a@ == b@),
{
    a.ct_eq(b).into()
}

/// `subtle`'s `ConstantTimeEq::ct_eq` on `usize`, turned into a `bool`: true
/// exactly when the numbers are equal.
#[verifier::external_body]
fn usize_ct_eq(a: usize, b: usize) -> (r: bool)
    ensures
        r == (a == b),
{
    a.ct_eq(&b).into()
}

/// Whether a presented token equals the expected one. The comparison takes
/// time independent of where the tokens differ: on tokens of different
/// lengths it still compares the common prefix.
pub fn token_matches(provided: &str, expected: &str) -> (r: bool)
    ensures
        r == (provided@ == expected@),
{
    let a = provided.as_bytes();
    let b = expected.as_bytes();
    proof {
        encode_utf8_decode_utf8(provided@);
        encode_utf8_decode_utf8(expected@);
    }
    if a.len() == b.len() {
        bytes_ct_eq(a, b)
    } else {
        let len = if a.len() < b.len() { a.len() } else { b.len() };
        let lengths_equal = usize_ct_eq(a.len(), b.len());
        let prefixes_equal = bytes_ct_eq(slice_subrange(a, 0, len), slice_subrange(b, 0, len));
        let x = lengths_equal as u8;
        let y = prefixes_equal as u8;
        proof {
            assert(x <= 1 && y <= 1 ==> ((x & y) == 1u8 <==> (x == 1u8 && y == 1u8))) by (bit_vector);
        }
        (x & y) == 1
    }
}

} // verus!
