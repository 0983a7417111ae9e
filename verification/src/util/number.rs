//! Decimal parsing and formatting of unsigned integers, and saturating
//! addition, as the byte-level statistics aggregation needs them

use vstd::prelude::*;

verus! {

/// Whether the byte is an ASCII decimal digit
pub open spec fn is_digit(c: u8) -> bool {
    48 <= c <= 57
}

/// Number of consecutive decimal digits of `s` starting at `i`
pub open spec fn digits_from(s: Seq<u8>, i: int) -> int
    decreases s.len() - i,
{
    if i < 0 || i >= s.len() || !is_digit(s[i]) {
        0
    } else {
        1 + digits_from(s, i + 1)
    }
}

/// The value of a sequence of decimal digits
pub open spec fn dec_value(s: Seq<u8>) -> nat
    decreases s.len(),
{
    if s.len() == 0 {
        0
    } else {
        dec_value(s.drop_last()) * 10 + (s.last() - 48) as nat
    }
}

/// The leading decimal digits of `s`
pub open spec fn leading_digits(s: Seq<u8>) -> Seq<u8> {
    s.subrange(0, digits_from(s, 0))
}

/// Unsigned parse of the leading decimal digits of `s`: their value when it
/// fits in a `u64` (zero when there are none), else `None`
pub open spec fn parse_prefix_u64(s: Seq<u8>) -> Option<u64> {
    if dec_value(leading_digits(s)) <= u64::MAX {
        Some(dec_value(leading_digits(s)) as u64)
    } else {
        None
    }
}

/// Signed-style parse into a `u64`: an optional leading `+` or `-`, then the
/// leading decimal digits. Without a sign, no digits gives `None`. With `+`,
/// the value when it fits. With `-`, zero when the digits are all zeros (or
/// absent), else `None`.
pub open spec fn parse_signed_u64(s: Seq<u8>) -> Option<u64> {
    if s.len() > 0 && s[0] == 43u8 {
        parse_prefix_u64(s.drop_first())
    } else if s.len() > 0 && s[0] == 45u8 {
        if dec_value(leading_digits(s.drop_first())) == 0 {
            Some(0)
        } else {
            None
        }
    } else if digits_from(s, 0) == 0 {
        None
    } else {
        parse_prefix_u64(s)
    }
}

/// The decimal representation of `n`, without leading zeros
pub open spec fn dec_repr(n: nat) -> Seq<u8>
    decreases n,
{
    if n < 10 {
        seq![(48 + n) as u8]
    } else {
        dec_repr(n / 10).push((48 + n % 10) as u8)
    }
}

/// Saturating addition of `u64` values
pub open spec fn sat_add(a: u64, b: u64) -> u64 {
    if a + b > u64::MAX {
        u64::MAX
    } else {
        (a + b) as u64
    }
}

/// Calls `<u64 as atoi::FromRadix10Checked>::from_radix_10_checked` and keeps
/// the parsed value. Its source: it consumes the leading ASCII digits, with
/// checked multiplication and addition, giving `None` once the value
/// overflows (and zero when there are no digits).
#[verifier::external_body]
pub(crate) fn parse_decimal_prefix(text: &[u8]) -> (r: Option<u64>)
    ensures
        r == parse_prefix_u64(text@),
{
    <u64 as atoi::FromRadix10Checked>::from_radix_10_checked(text).0
}

/// Calls `atoi::atoi::<u64>`. Its source: an optional sign byte, then the
/// leading digits, with checked arithmetic (subtraction for `-`); `None` when
/// no sign and no digit came first, or on overflow.
#[verifier::external_body]
pub(crate) fn parse_signed_decimal(text: &[u8]) -> (r: Option<u64>)
    ensures
        r == parse_signed_u64(text@),
{
    atoi::atoi::<u64>(text)
}

/// Calls `itoa::Buffer::format` on a `u64` and copies out the bytes. Its
/// documentation: it prints the integer in decimal.
#[verifier::external_body]
pub(crate) fn format_u64(n: u64) -> (r: Vec<u8>)
    ensures
        r@ == dec_repr(n as nat),
{
    itoa::Buffer::new().format(n).as_bytes().to_vec()
}

/// Calls `itoa::Buffer::format` on a `u128` and copies out the bytes. Its
/// documentation: it prints the integer in decimal.
#[verifier::external_body]
pub(crate) fn format_u128(n: u128) -> (r: Vec<u8>)
    ensures
        r@ == dec_repr(n as nat),
{
    itoa::Buffer::new().format(n).as_bytes().to_vec()
}

/// Calls `num_traits::ops::saturating::SaturatingAdd::saturating_add` on
/// `u64`. Its source forwards to `u64::saturating_add`: the sum, or `u64::MAX`
/// when it overflows.
#[verifier::external_body]
pub(crate) fn saturating_add(a: u64, b: u64) -> (r: u64)
    ensures
        r == sat_add(a, b),
{
    num_traits::ops::saturating::SaturatingAdd::saturating_add(&a, &b)
}

} // verus!
