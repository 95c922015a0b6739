//! Arbitrary-precision rational numbers as an exact field.
//!
//! The numbers are `rug::Rational`. Their inside is closed to proof: what each
//! operation returns is stated here and taken on trust, and everything else in
//! the crate is proved from these statements.

use crate::algebra::{power, Element, One, ParamsTrait, SquaredNorm, Zero};
use vstd::prelude::*;

verus! {

/// `rug::Rational`, an arbitrary-precision rational number. Nothing of its
/// inside is known here.
#[verifier::external_type_specification]
#[verifier::external_body]
pub struct ExRational(rug::Rational);

/// The real number that a `rug::Rational` holds: its numerator divided by its
/// denominator. A `rug::Rational` is kept in lowest terms with a positive
/// denominator, so two of them hold the same number exactly when they are equal.
pub uninterp spec fn rational_value(q: rug::Rational) -> real;

/// `From<i32>` of `rug::Rational`: the rational number equal to that integer.
#[verifier::external_body]
fn rational_from_i32(n: i32) -> (q: rug::Rational)
    ensures
        rational_value(q) == n as real,
{
    rug::Rational::from(n)
}

/// `From<u32>` of `rug::Rational`: the rational number equal to that integer.
#[verifier::external_body]
pub(crate) fn rational_from_u32(n: u32) -> (q: rug::Rational)
    ensures
        rational_value(q) == n as real,
{
    rug::Rational::from(n)
}

/// `Shl::shl` on a `&rug::Rational` and a `u32` (GMP's `mpq_mul_2exp`),
/// completed by `rug::Rational::from`: the number times two to the `n`.
#[verifier::external_body]
pub(crate) fn rational_shl(a: &rug::Rational, n: u32) -> (q: rug::Rational)
    ensures
        rational_value(q) == rational_value(*a) * power(2real, n as nat),
{
    rug::Rational::from(a << n)
}

/// `Clone::clone` of `rug::Rational`: a new number with the same numerator and
/// denominator, and so the same value.
#[verifier::external_body]
fn rational_clone(a: &rug::Rational) -> (q: rug::Rational)
    ensures
        rational_value(q) == rational_value(*a),
{
    a.clone()
}

/// `PartialEq::eq` of `rug::Rational` (GMP's `mpq_equal`): whether the two
/// numbers are equal.
#[verifier::external_body]
fn rational_eq(a: &rug::Rational, b: &rug::Rational) -> (same: bool)
    ensures
        same == (rational_value(*a) == rational_value(*b)),
{
    a == b
}

/// `<` of `rug::Rational`, which goes by its `PartialOrd::partial_cmp` (GMP's
/// `mpq_cmp`): whether the first number is strictly below the second.
#[verifier::external_body]
fn rational_lt(a: &rug::Rational, b: &rug::Rational) -> (less: bool)
    ensures
        less == (rational_value(*a) < rational_value(*b)),
{
    a < b
}

/// `Add::add` on two `&rug::Rational` (GMP's `mpq_add`), completed by
/// `rug::Rational::from`: the exact sum.
#[verifier::external_body]
fn rational_add(a: &rug::Rational, b: &rug::Rational) -> (q: rug::Rational)
    ensures
        rational_value(q) == rational_value(*a) + rational_value(*b),
{
    rug::Rational::from(a + b)
}

/// `Neg::neg` on a `&rug::Rational` (GMP's `mpq_neg`), completed by
/// `rug::Rational::from`: the exact opposite.
#[verifier::external_body]
fn rational_neg(a: &rug::Rational) -> (q: rug::Rational)
    ensures
        rational_value(q) == -rational_value(*a),
{
    rug::Rational::from(-a)
}

/// `Mul::mul` on two `&rug::Rational` (GMP's `mpq_mul`), completed by
/// `rug::Rational::from`: the exact product.
#[verifier::external_body]
fn rational_mul(a: &rug::Rational, b: &rug::Rational) -> (q: rug::Rational)
    ensures
        rational_value(q) == rational_value(*a) * rational_value(*b),
{
    rug::Rational::from(a * b)
}

/// `Div::div` on two `&rug::Rational` (GMP's `mpq_div`), completed by
/// `rug::Rational::from`: the exact quotient. GMP stops the process on a zero
/// divisor, which the precondition leaves out.
#[verifier::external_body]
fn rational_div(a: &rug::Rational, b: &rug::Rational) -> (q: rug::Rational)
    requires
        rational_value(*b) != 0real,
    ensures
        rational_value(q) == rational_value(*a) / rational_value(*b),
{
    rug::Rational::from(a / b)
}

impl Element for rug::Rational {
    type Model = real;

    open spec fn model(&self) -> real {
        rational_value(*self)
    }

    fn duplicate(&self) -> (copy: Self) {
        rational_clone(self)
    }

    fn equals(&self, other: &Self) -> (same: bool) {
        rational_eq(self, other)
    }

    fn add(&self, rhs: &Self) -> (sum: Self) {
        rational_add(self, rhs)
    }

    fn neg(&self) -> (opposite: Self) {
        rational_neg(self)
    }

    fn mul(&self, rhs: &Self) -> (product: Self) {
        rational_mul(self, rhs)
    }
}

impl Zero for rug::Rational {
    fn zero() -> (z: Self) {
        rational_from_i32(0)
    }
}

impl One for rug::Rational {
    fn one() -> (o: Self) {
        rational_from_i32(1)
    }
}

impl SquaredNorm for rug::Rational {
    type Output = rug::Rational;

    fn squared_norm(&self) -> (norm: rug::Rational) {
        rational_mul(self, self)
    }
}

impl ParamsTrait for rug::Rational {
    fn div(&self, rhs: &Self) -> (quotient: Self) {
        rational_div(self, rhs)
    }

    fn less_than(&self, other: &Self) -> (less: bool) {
        rational_lt(self, other)
    }
}

} // verus!
