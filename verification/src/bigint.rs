//! The integer carrier of all coordinates: `num_bigint::BigInt`.
//!
//! Every arithmetic fact the crate knows about these integers comes from
//! the contracts of the small wrappers below; everything built on top of
//! them is verified. The spec-level value of a `BigInt` is given by the
//! uninterpreted function `big_int_of`.

use vstd::prelude::*;

verus! {

#[verifier::external_type_specification]
#[verifier::external_body]
pub struct ExBigInt(num_bigint::BigInt);

/// The mathematical integer that a `num_bigint::BigInt` holds.
pub uninterp spec fn big_int_of(x: num_bigint::BigInt) -> int;

/// Relies on `num_bigint`'s `From<i64> for BigInt`: the conversion is exact.
#[verifier::external_body]
pub(crate) fn big_from_i64(x: i64) -> (r: num_bigint::BigInt)
    ensures
        big_int_of(r) == x as int,
{
    num_bigint::BigInt::from(x)
}

/// Relies on `num_bigint`'s `Add for &BigInt`: exact integer addition.
#[verifier::external_body]
pub(crate) fn big_add(a: &num_bigint::BigInt, b: &num_bigint::BigInt) -> (r: num_bigint::BigInt)
    ensures
        big_int_of(r) == big_int_of(*a) + big_int_of(*b),
{
    a + b
}

/// Relies on `num_bigint`'s `Sub for &BigInt`: exact integer subtraction.
#[verifier::external_body]
pub(crate) fn big_sub(a: &num_bigint::BigInt, b: &num_bigint::BigInt) -> (r: num_bigint::BigInt)
    ensures
        big_int_of(r) == big_int_of(*a) - big_int_of(*b),
{
    a - b
}

/// Relies on `num_bigint`'s `Mul for &BigInt`: exact integer multiplication.
#[verifier::external_body]
pub(crate) fn big_mul(a: &num_bigint::BigInt, b: &num_bigint::BigInt) -> (r: num_bigint::BigInt)
    ensures
        big_int_of(r) == big_int_of(*a) * big_int_of(*b),
{
    a * b
}

/// Relies on `num_bigint`'s `Neg for &BigInt`: exact negation.
#[verifier::external_body]
pub(crate) fn big_neg(a: &num_bigint::BigInt) -> (r: num_bigint::BigInt)
    ensures
        big_int_of(r) == -big_int_of(*a),
{
    -a
}

/// Relies on `num_bigint`'s `Clone for BigInt`: the copy holds the same integer.
#[verifier::external_body]
pub(crate) fn big_clone(a: &num_bigint::BigInt) -> (r: num_bigint::BigInt)
    ensures
        big_int_of(r) == big_int_of(*a),
{
    a.clone()
}

/// Relies on `num_bigint`'s `Ord for BigInt`: comparison by integer value.
#[verifier::external_body]
pub(crate) fn big_lt(a: &num_bigint::BigInt, b: &num_bigint::BigInt) -> (r: bool)
    ensures
        r == (big_int_of(*a) < big_int_of(*b)),
{
    a < b
}

/// Relies on `num_bigint`'s `PartialEq for BigInt`: equality of the integers held.
#[verifier::external_body]
pub(crate) fn big_eq(a: &num_bigint::BigInt, b: &num_bigint::BigInt) -> (r: bool)
    ensures
        r == (big_int_of(*a) == big_int_of(*b)),
{
    a == b
}

} // verus!
