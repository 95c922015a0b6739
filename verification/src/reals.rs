//! Facts of real arithmetic that the proofs about the plane are built from.
//!
//! Each one is small enough for the solver's nonlinear reasoning; the larger
//! identities elsewhere are put together from these by linear steps.

use vstd::prelude::*;

verus! {

/// A sign can be taken out of a product, and two signs cancel.
pub proof fn lemma_mul_signs(a: real, b: real)
    by (nonlinear_arith)
    ensures
        (-a) * b == -(a * b),
        a * (-b) == -(a * b),
        (-a) * (-b) == a * b,
{
}

/// Zero absorbs every factor.
pub proof fn lemma_mul_zero(a: real)
    by (nonlinear_arith)
    ensures
        a * 0real == 0real,
        0real * a == 0real,
{
}

/// One is neutral in a product.
pub proof fn lemma_mul_one(a: real)
    by (nonlinear_arith)
    ensures
        a * 1real == a,
        1real * a == a,
{
}

/// A product does not depend on the order of its factors.
pub proof fn lemma_mul_commutative(a: real, b: real)
    by (nonlinear_arith)
    ensures
        a * b == b * a,
{
}

/// A product does not depend on how its factors are grouped.
pub proof fn lemma_mul_associative(a: real, b: real, c: real)
    by (nonlinear_arith)
    ensures
        (a * b) * c == a * (b * c),
{
}

/// Multiplication distributes over sums and differences, from either side.
pub proof fn lemma_mul_distributes(a: real, b: real, c: real)
    by (nonlinear_arith)
    ensures
        a * (b + c) == a * b + a * c,
        a * (b - c) == a * b - a * c,
        (b + c) * a == b * a + c * a,
        (b - c) * a == b * a - c * a,
{
}

/// The binomial formulas.
pub proof fn lemma_square_of_sum(x: real, y: real)
    by (nonlinear_arith)
    ensures
        (x + y) * (x + y) == x * x + 2real * (x * y) + y * y,
        (x - y) * (x - y) == x * x - 2real * (x * y) + y * y,
{
}

/// The square of a product is the product of the squares.
pub proof fn lemma_square_of_product(x: real, y: real)
    by (nonlinear_arith)
    ensures
        (x * y) * (x * y) == (x * x) * (y * y),
{
}

/// Four factors pair up either way.
pub proof fn lemma_cross_products(a: real, b: real, c: real, d: real)
    by (nonlinear_arith)
    ensures
        (a * c) * (b * d) == (a * d) * (b * c),
{
}

/// The product of two sums, written out.
pub proof fn lemma_product_of_sums(a: real, b: real, c: real, d: real)
    by (nonlinear_arith)
    ensures
        (a + b) * (c + d) == a * c + a * d + b * c + b * d,
{
}

/// A square is never negative, and is zero only for zero.
pub proof fn lemma_square_sign(a: real)
    by (nonlinear_arith)
    ensures
        a * a >= 0real,
        a * a == 0real <==> a == 0real,
{
}

/// A factor other than zero can be cancelled.
pub proof fn lemma_cancel(a: real, n: real)
    by (nonlinear_arith)
    requires
        n != 0real,
        a * n == n,
    ensures
        a == 1real,
{
}

/// A product is zero only where a factor is.
pub proof fn lemma_zero_product(a: real, n: real)
    by (nonlinear_arith)
    requires
        a * n == 0real,
        n != 0real,
    ensures
        a == 0real,
{
}

/// The sign of a product is the product of the signs.
pub proof fn lemma_product_sign(a: real, b: real)
    by (nonlinear_arith)
    ensures
        a > 0real && b > 0real ==> a * b > 0real,
        a < 0real && b > 0real ==> a * b < 0real,
        a > 0real && b < 0real ==> a * b < 0real,
        a < 0real && b < 0real ==> a * b > 0real,
{
}

/// Division undoes multiplication by a number other than zero.
pub proof fn lemma_div_mul(x: real, n: real)
    by (nonlinear_arith)
    requires
        n != 0real,
    ensures
        (x / n) * n == x,
        0real / n == 0real,
        n / n == 1real,
{
}

} // verus!
