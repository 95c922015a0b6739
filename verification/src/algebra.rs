//! The algebraic tower.
//!
//! Contracts are stated over mathematical models: a [`Ring`] is such a model,
//! and an [`Element`] is an executable value that stands for a point of one.

use vstd::prelude::*;

verus! {

/// A mathematical structure with the operations of a ring and a real-valued
/// squared norm. It exists in specifications only.
///
/// An implementation proves that zero is an additive identity, that each value
/// has an additive inverse, and that one is a multiplicative identity.
pub trait Ring: Sized {
    spec fn zero() -> Self;

    spec fn one() -> Self;

    spec fn plus(self, rhs: Self) -> Self;

    spec fn negated(self) -> Self;

    spec fn times(self, rhs: Self) -> Self;

    spec fn squared_norm(self) -> real;

    proof fn law_zero_identity(a: Self)
        ensures
            Self::zero().plus(a) == a,
    ;

    proof fn law_additive_inverse(a: Self)
        ensures
            a.plus(a.negated()) == Self::zero(),
    ;

    proof fn law_one_identity(a: Self)
        ensures
            Self::one().times(a) == a,
    ;
}

impl Ring for real {
    open spec fn zero() -> real {
        0real
    }

    open spec fn one() -> real {
        1real
    }

    open spec fn plus(self, rhs: real) -> real {
        self + rhs
    }

    open spec fn negated(self) -> real {
        -self
    }

    open spec fn times(self, rhs: real) -> real {
        self * rhs
    }

    open spec fn squared_norm(self) -> real {
        self * self
    }

    proof fn law_zero_identity(a: real) {
    }

    proof fn law_additive_inverse(a: real) {
    }

    proof fn law_one_identity(a: real) {
    }
}

/// On the real line the operations of the ring are the arithmetic operators.
pub proof fn lemma_real_ring()
    ensures
        <real as Ring>::zero() == 0real,
        <real as Ring>::one() == 1real,
        forall|a: real, b: real| #[trigger] a.plus(b) == a + b,
        forall|a: real| #[trigger] a.negated() == -a,
        forall|a: real, b: real| #[trigger] a.times(b) == a * b,
        forall|a: real| #[trigger] a.squared_norm() == a * a,
{
}

/// `base` raised to the `n`-th power: the empty product is one, and each
/// further factor is multiplied on from the right.
pub open spec fn power<M: Ring>(base: M, n: nat) -> M
    decreases n,
{
    if n == 0 {
        M::one()
    } else {
        power(base, (n - 1) as nat).times(base)
    }
}

/// Powers are built by repeated multiplication from the right: the power of
/// degree zero is one, and each next power is the one before it times the base.
pub proof fn lemma_power_unfold<M: Ring>(base: M, n: nat)
    ensures
        power(base, 0) == M::one(),
        power(base, n + 1) == power(base, n).times(base),
{
    reveal_with_fuel(power, 2);
}

/// The first power is the base itself.
pub proof fn lemma_power_one<M: Ring>(base: M)
    ensures
        power(base, 1) == base,
{
    reveal_with_fuel(power, 2);
    M::law_one_identity(base);
}

/// An executable value that stands for a point of a [`Ring`], with the ring's
/// operations computed exactly. Values are never changed in place: each
/// operation hands out a new one.
pub trait Element: Sized {
    type Model: Ring;

    /// The mathematical value that this one stands for.
    spec fn model(&self) -> Self::Model;

    fn duplicate(&self) -> (copy: Self)
        ensures
            copy.model() == self.model(),
    ;

    fn equals(&self, other: &Self) -> (same: bool)
        ensures
            same == (self.model() == other.model()),
    ;

    fn add(&self, rhs: &Self) -> (sum: Self)
        ensures
            sum.model() == self.model().plus(rhs.model()),
    ;

    fn neg(&self) -> (opposite: Self)
        ensures
            opposite.model() == self.model().negated(),
    ;

    fn mul(&self, rhs: &Self) -> (product: Self)
        ensures
            product.model() == self.model().times(rhs.model()),
    ;
}

/// An additive identity: `zero() + a == a`, and `a + (-a) == zero()`, as the
/// laws of the model have it.
pub trait Zero: Element {
    fn zero() -> (z: Self)
        ensures
            z.model() == <Self::Model as Ring>::zero(),
    ;
}

/// A multiplicative identity: `one() * a == a`, so in particular
/// `one() * one() == one()`, as the laws of the model have it.
pub trait One: Element {
    fn one() -> (o: Self)
        ensures
            o.model() == <Self::Model as Ring>::one(),
    ;
}

/// The square of the distance from zero, in an exact field.
pub trait SquaredNorm: Element {
    type Output: Element<Model = real>;

    fn squared_norm(&self) -> (norm: Self::Output)
        ensures
            norm.model() == self.model().squared_norm(),
    ;
}

/// An exact ordered field: what the rotation parameters of a triangle are
/// computed in. Its model is the real line, so that sums, products, quotients
/// and comparisons are those of real numbers, with no rounding.
pub trait ParamsTrait: Zero + One + SquaredNorm<Output = Self> + Element<Model = real> {
    fn div(&self, rhs: &Self) -> (quotient: Self)
        requires
            rhs.model() != 0real,
        ensures
            quotient.model() == self.model() / rhs.model(),
    ;

    fn less_than(&self, other: &Self) -> (less: bool)
        ensures
            less == (self.model() < other.model()),
    ;
}

} // verus!
