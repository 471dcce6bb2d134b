//! Strings at the edge of the ledger: byte lengths, decimal amounts and
//! decimal renderings. The three conversions that the standard library
//! performs are the only unverified code in this module.

use std::str::FromStr;
use vstd::prelude::*;
use vstd::utf8::encode_utf8;

verus! {

/// Number of bytes that `s` occupies in UTF-8.
pub open spec fn byte_len(s: Seq<char>) -> nat {
    encode_utf8(s).len()
}

/// Whether `c` is one of the ASCII digits `0` to `9`.
pub open spec fn is_digit(c: char) -> bool {
    48 <= c as u32 <= 57
}

/// The number that the ASCII digit `c` stands for.
pub open spec fn digit_value(c: char) -> nat {
    (c as u32 - 48) as nat
}

/// The ASCII digit that stands for `d`, for `d` below ten.
pub open spec fn digit_char(d: nat) -> char {
    seq!['0', '1', '2', '3', '4', '5', '6', '7', '8', '9'][d as int]
}

/// The number written by a sequence of decimal digits, most significant
/// first. The empty sequence writes zero.
pub open spec fn digits_value(s: Seq<char>) -> nat
    decreases s.len(),
{
    if s.len() == 0 {
        0
    } else {
        digits_value(s.drop_last()) * 10 + digit_value(s.last())
    }
}

/// Whether every character of `s` is a decimal digit.
pub open spec fn all_digits(s: Seq<char>) -> bool {
    forall|i: int| 0 <= i < s.len() ==> is_digit(#[trigger] s[i])
}

/// `s` without one leading plus sign, if it has one.
pub open spec fn unsigned_body(s: Seq<char>) -> Seq<char> {
    if s.len() > 0 && s[0] == '+' {
        s.subrange(1, s.len() as int)
    } else {
        s
    }
}

/// The amount that a decimal string denotes: an optional plus sign followed
/// by at least one digit and nothing else, with a value that fits in 128
/// bits. Any other string denotes no amount.
pub open spec fn parsed_amount(s: Seq<char>) -> Option<u128> {
    let body = unsigned_body(s);
    if body.len() > 0 && all_digits(body) && digits_value(body) <= u128::MAX {
        Some(digits_value(body) as u128)
    } else {
        None
    }
}

/// The decimal rendering of `n`, without sign or leading zeros.
pub open spec fn decimal_digits(n: nat) -> Seq<char>
    decreases n,
{
    if n < 10 {
        seq![digit_char(n)]
    } else {
        decimal_digits(n / 10).push(digit_char(n % 10))
    }
}

/// Length of a string in bytes.
///
/// Trusted: calls `String::len` of the standard library, which is documented
/// to return the length of the string in bytes, that is the length of its
/// UTF-8 encoding.
#[verifier::external_body]
pub(crate) fn byte_length(s: &String) -> (n: usize)
    ensures
        n == byte_len(s@),
{
    s.len()
}

/// Reads a decimal amount.
///
/// Trusted: calls `u128::from_str` of the standard library, which is
/// documented to accept an optional `+` sign followed by decimal digits only,
/// and to fail on an empty string, on any other character and on a value
/// that does not fit the type.
#[verifier::external_body]
pub(crate) fn parse_amount(s: &String) -> (r: Option<u128>)
    ensures
        r == parsed_amount(s@),
{
    match u128::from_str(s.as_str()) {
        Ok(amount) => Some(amount),
        Err(_) => None,
    }
}

/// Renders a number in decimal.
///
/// Trusted: calls `u64::to_string` of the standard library, which formats an
/// unsigned integer as its decimal digits, most significant first, without
/// sign, padding or leading zeros.
#[verifier::external_body]
pub(crate) fn decimal_string(n: u64) -> (s: String)
    ensures
        s@ == decimal_digits(n as nat),
{
    n.to_string()
}

} // verus!
