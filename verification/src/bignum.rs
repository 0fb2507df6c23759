//! Trusted interface to the arbitrary-precision integers of `num_bigint`.
//!
//! Discriminant values must cover the full width of any primitive
//! representation up to 128 bits, so the analysis computes with `BigInt`.
//! The type is opaque to the verifier; `big_value` names the mathematical
//! integer a `BigInt` holds, and each wrapper below states, over that name,
//! what the one `num_bigint` operation it calls does.

use vstd::prelude::*;

use crate::numeric::{decimal_text, digits_value, is_digit_seq, nat_and, nat_or};

verus! {

#[verifier::external_type_specification]
#[verifier::external_body]
pub struct ExBigInt(num_bigint::BigInt);

/// The mathematical integer a `BigInt` holds.
pub uninterp spec fn big_value(b: num_bigint::BigInt) -> int;

/// Relies on `BigInt::default`, which is the zero value.
#[verifier::external_body]
pub fn big_zero() -> (r: num_bigint::BigInt)
    ensures
        big_value(r) == 0,
{
    num_bigint::BigInt::default()
}

/// Relies on `From<usize> for BigInt`: the conversion keeps the value.
#[verifier::external_body]
pub fn big_from_usize(n: usize) -> (r: num_bigint::BigInt)
    ensures
        big_value(r) == n as int,
{
    num_bigint::BigInt::from(n)
}

/// Relies on `Clone for BigInt`: the clone holds the same value.
#[verifier::external_body]
pub fn big_clone(a: &num_bigint::BigInt) -> (r: num_bigint::BigInt)
    ensures
        big_value(r) == big_value(*a),
{
    a.clone()
}

/// Relies on `FromStr for BigInt`: a non-empty string of decimal digits
/// parses to the integer those digits denote.
#[verifier::external_body]
pub fn big_from_digits(s: &str) -> (r: num_bigint::BigInt)
    requires
        is_digit_seq(s@),
    ensures
        big_value(r) == digits_value(s@),
{
    s.parse().unwrap()
}

/// Relies on `Add<u32> for BigInt`: arithmetic addition.
#[verifier::external_body]
pub fn big_succ(a: &num_bigint::BigInt) -> (r: num_bigint::BigInt)
    ensures
        big_value(r) == big_value(*a) + 1,
{
    a.clone() + 1u32
}

/// Relies on `BitOr for &BigInt`: for non-negative operands, the bitwise or
/// of the binary magnitudes.
#[verifier::external_body]
pub fn big_or(a: &num_bigint::BigInt, b: &num_bigint::BigInt) -> (r: num_bigint::BigInt)
    requires
        big_value(*a) >= 0,
        big_value(*b) >= 0,
    ensures
        big_value(r) == nat_or(big_value(*a) as nat, big_value(*b) as nat) as int,
{
    a | b
}

/// Relies on `BitAnd for &BigInt`: for non-negative operands, the bitwise
/// and of the binary magnitudes.
#[verifier::external_body]
pub fn big_and(a: &num_bigint::BigInt, b: &num_bigint::BigInt) -> (r: num_bigint::BigInt)
    requires
        big_value(*a) >= 0,
        big_value(*b) >= 0,
    ensures
        big_value(r) == nat_and(big_value(*a) as nat, big_value(*b) as nat) as int,
{
    a & b
}

/// Relies on `Ord for BigInt`: comparison follows the numeric order.
#[verifier::external_body]
pub fn big_lt(a: &num_bigint::BigInt, b: &num_bigint::BigInt) -> (r: bool)
    ensures
        r == (big_value(*a) < big_value(*b)),
{
    a < b
}

/// Relies on `PartialEq for BigInt`: equality is numeric equality (the
/// representation is normalized, so equal values compare equal).
#[verifier::external_body]
pub fn big_eq(a: &num_bigint::BigInt, b: &num_bigint::BigInt) -> (r: bool)
    ensures
        r == (big_value(*a) == big_value(*b)),
{
    a == b
}

/// Relies on `Display for BigInt`: decimal rendering, `-`-signed when
/// negative, without leading zeros.
#[verifier::external_body]
pub fn big_to_decimal(a: &num_bigint::BigInt) -> (r: String)
    ensures
        r@ == decimal_text(big_value(*a)),
{
    a.to_string()
}

/// The values a sequence of `BigInt`s holds, in order.
pub open spec fn big_values(s: Seq<num_bigint::BigInt>) -> Seq<int> {
    s.map_values(|b: num_bigint::BigInt| big_value(b))
}

} // verus!
