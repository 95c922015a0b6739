//! Points of the plane, read as complex numbers.

use crate::algebra::{lemma_real_ring, Element, One, ParamsTrait, Ring, SquaredNorm, Zero};
use crate::reals::{
    lemma_cancel, lemma_cross_products, lemma_div_mul, lemma_mul_associative,
    lemma_mul_commutative, lemma_mul_distributes, lemma_mul_one, lemma_mul_signs, lemma_mul_zero,
    lemma_product_of_sums, lemma_square_of_product, lemma_square_of_sum, lemma_square_sign,
    lemma_zero_product,
};
use vstd::prelude::*;
use vstd::std_specs::convert::FromSpecImpl;

verus! {

/// A complex number with real components: the model of a [`V2`]. It stands for
/// a point of the plane or, under multiplication, for a rotation and scaling.
pub struct Complex {
    pub re: real,
    pub im: real,
}

impl Ring for Complex {
    open spec fn zero() -> Complex {
        Complex { re: 0real, im: 0real }
    }

    open spec fn one() -> Complex {
        Complex { re: 1real, im: 0real }
    }

    open spec fn plus(self, rhs: Complex) -> Complex {
        Complex { re: self.re + rhs.re, im: self.im + rhs.im }
    }

    open spec fn negated(self) -> Complex {
        Complex { re: -self.re, im: -self.im }
    }

    open spec fn times(self, rhs: Complex) -> Complex {
        Complex {
            re: self.re * rhs.re - self.im * rhs.im,
            im: self.re * rhs.im + self.im * rhs.re,
        }
    }

    open spec fn squared_norm(self) -> real {
        self.re * self.re + self.im * self.im
    }

    proof fn law_zero_identity(a: Complex) {
    }

    proof fn law_additive_inverse(a: Complex) {
    }

    proof fn law_one_identity(a: Complex) {
        lemma_mul_one(a.re);
        lemma_mul_one(a.im);
        lemma_mul_zero(a.re);
        lemma_mul_zero(a.im);
    }
}

impl Complex {
    /// A real number on the real axis.
    pub open spec fn from_real(r: real) -> Complex {
        Complex { re: r, im: 0real }
    }

    /// The mirror image across the real axis.
    pub open spec fn conjugate(self) -> Complex {
        Complex { re: self.re, im: -self.im }
    }

    pub open spec fn minus(self, rhs: Complex) -> Complex {
        self.plus(rhs.negated())
    }

    /// The real inner product of the two as vectors of the plane.
    pub open spec fn dot(self, rhs: Complex) -> real {
        self.re * rhs.re + self.im * rhs.im
    }

    /// The reciprocal: the conjugate divided by the squared norm.
    pub open spec fn reciprocal(self) -> Complex {
        Complex {
            re: self.re / self.squared_norm(),
            im: (-self.im) / self.squared_norm(),
        }
    }

    /// Division as multiplication by the reciprocal. It means what its name
    /// says only for a divisor other than zero.
    pub open spec fn over(self, rhs: Complex) -> Complex {
        self.times(rhs.reciprocal())
    }
}

/// A squared norm is never negative, and only zero has squared norm zero.
pub proof fn lemma_squared_norm_zero(z: Complex)
    ensures
        z.squared_norm() >= 0real,
        z.squared_norm() == 0real <==> z == <Complex as Ring>::zero(),
{
    lemma_square_sign(z.re);
    lemma_square_sign(z.im);
}

/// The squared norm is multiplicative: `|z * w|^2 == |z|^2 * |w|^2`.
pub proof fn lemma_squared_norm_times(z: Complex, w: Complex)
    ensures
        z.times(w).squared_norm() == z.squared_norm() * w.squared_norm(),
{
    let (a, b, c, d) = (z.re, z.im, w.re, w.im);
    lemma_square_of_sum(a * c, b * d);
    lemma_square_of_sum(a * d, b * c);
    lemma_cross_products(a, b, c, d);
    lemma_square_of_product(a, c);
    lemma_square_of_product(b, d);
    lemma_square_of_product(a, d);
    lemma_square_of_product(b, c);
    lemma_product_of_sums(a * a, b * b, c * c, d * d);
}

/// Conjugation keeps the squared norm.
pub proof fn lemma_squared_norm_conjugate(z: Complex)
    ensures
        z.conjugate().squared_norm() == z.squared_norm(),
{
    lemma_mul_signs(z.im, z.im);
}

/// Conjugation commutes with multiplication.
pub proof fn lemma_conjugate_times(z: Complex, w: Complex)
    ensures
        z.times(w).conjugate() == z.conjugate().times(w.conjugate()),
{
    lemma_mul_signs(z.im, w.im);
    lemma_mul_signs(z.re, w.im);
    lemma_mul_signs(z.im, w.re);
}

/// The reciprocal is what its name says: for `v` other than zero,
/// `v * (1 / v) == 1`.
pub proof fn lemma_reciprocal(v: Complex)
    requires
        v != <Complex as Ring>::zero(),
    ensures
        v.times(v.reciprocal()) == <Complex as Ring>::one(),
{
    lemma_squared_norm_zero(v);
    let n = v.squared_norm();
    let (a, b) = (v.re, v.im);
    let (c, d) = (v.reciprocal().re, v.reciprocal().im);
    let product = v.times(v.reciprocal());
    lemma_div_mul(a, n);
    lemma_div_mul(-b, n);
    assert(c * n == a && d * n == -b);
    lemma_mul_associative(a, c, n);
    lemma_mul_associative(b, d, n);
    lemma_mul_associative(a, d, n);
    lemma_mul_associative(b, c, n);
    lemma_mul_signs(b, b);
    lemma_mul_signs(a, b);
    lemma_mul_commutative(a, b);
    lemma_mul_distributes(n, a * c, b * d);
    lemma_mul_distributes(n, a * d, b * c);
    assert(product.re * n == n) by {
        assert((a * c) * n == a * a);
        assert((b * d) * n == -(b * b));
        lemma_mul_commutative(product.re, n);
        lemma_mul_commutative(a * c, n);
        lemma_mul_commutative(b * d, n);
    }
    assert(product.im * n == 0real) by {
        assert((a * d) * n == -(a * b));
        assert((b * c) * n == b * a);
        lemma_mul_commutative(product.im, n);
        lemma_mul_commutative(a * d, n);
        lemma_mul_commutative(b * c, n);
    }
    lemma_cancel(product.re, n);
    lemma_zero_product(product.im, n);
}

/// The complex product does not depend on the order of its factors.
pub proof fn lemma_times_commutative(z: Complex, w: Complex)
    ensures
        z.times(w) == w.times(z),
{
    lemma_mul_commutative(z.re, w.re);
    lemma_mul_commutative(z.im, w.im);
    lemma_mul_commutative(z.re, w.im);
    lemma_mul_commutative(z.im, w.re);
}

/// The complex product does not depend on how its factors are grouped.
pub proof fn lemma_times_associative(x: Complex, y: Complex, z: Complex)
    ensures
        x.times(y).times(z) == x.times(y.times(z)),
{
    let (a, b) = (x.re, x.im);
    let (c, d) = (y.re, y.im);
    let (e, f) = (z.re, z.im);
    lemma_mul_distributes(e, a * c, b * d);
    lemma_mul_distributes(f, a * d, b * c);
    lemma_mul_distributes(f, a * c, b * d);
    lemma_mul_distributes(e, a * d, b * c);
    lemma_mul_distributes(a, c * e, d * f);
    lemma_mul_distributes(b, c * f, d * e);
    lemma_mul_distributes(a, c * f, d * e);
    lemma_mul_distributes(b, c * e, d * f);
    lemma_mul_associative(a, c, e);
    lemma_mul_associative(b, d, e);
    lemma_mul_associative(a, d, f);
    lemma_mul_associative(b, c, f);
    lemma_mul_associative(a, c, f);
    lemma_mul_associative(b, d, f);
    lemma_mul_associative(a, d, e);
    lemma_mul_associative(b, c, e);
}

/// Division undoes multiplication: for `v` other than zero, `(w / v) * v == w`.
pub proof fn lemma_over_times(w: Complex, v: Complex)
    requires
        v != <Complex as Ring>::zero(),
    ensures
        w.over(v).times(v) == w,
{
    lemma_times_associative(w, v.reciprocal(), v);
    lemma_times_commutative(v.reciprocal(), v);
    lemma_reciprocal(v);
    lemma_mul_one(w.re);
    lemma_mul_one(w.im);
    lemma_mul_zero(w.re);
    lemma_mul_zero(w.im);
}

/// An ordered pair `(re, im)` over an exact field: a point of the plane, or,
/// with the complex product, a rotation and scaling of it.
#[derive(Clone, PartialEq, Debug)]
pub struct V2<R>(pub R, pub R);

impl<R: ParamsTrait> V2<R> {
    /// The embedding of the field: `r` on the real axis.
    pub fn from_real(r: R) -> (v: V2<R>)
        ensures
            v.model() == Complex::from_real(r.model()),
    {
        proof {
            lemma_real_ring();
        }
        V2(r, R::zero())
    }

    /// The real inner product `re1 * re2 + im1 * im2`.
    pub fn dot(&self, v: &V2<R>) -> (d: R)
        ensures
            d.model() == self.model().dot(v.model()),
    {
        proof {
            lemma_real_ring();
        }
        self.0.mul(&v.0).add(&self.1.mul(&v.1))
    }

    /// Negates the second component.
    pub fn complex_conjugate(self) -> (c: V2<R>)
        ensures
            c.model() == self.model().conjugate(),
    {
        proof {
            lemma_real_ring();
        }
        let im = self.1.neg();
        V2(self.0, im)
    }

    /// The difference, as the sum with the opposite.
    pub fn sub(&self, v: &V2<R>) -> (d: V2<R>)
        ensures
            d.model() == self.model().minus(v.model()),
    {
        proof {
            lemma_real_ring();
        }
        V2(self.0.add(&v.0.neg()), self.1.add(&v.1.neg()))
    }

    /// The complex quotient: the product with the conjugate of `v`, divided by
    /// the squared norm of `v`.
    pub fn div(&self, v: &V2<R>) -> (q: V2<R>)
        requires
            v.model() != <Complex as Ring>::zero(),
        ensures
            q.model() == self.model().over(v.model()),
    {
        proof {
            lemma_real_ring();
            lemma_squared_norm_zero(v.model());
        }
        let conj = v.duplicate().complex_conjugate();
        let norm = v.squared_norm();
        let v_inv = V2(conj.0.div(&norm), conj.1.div(&norm));
        self.mul(&v_inv)
    }
}

impl<R: ParamsTrait> V2<R> {
    /// Adds `v` to this value in place.
    pub fn add_assign(&mut self, v: &V2<R>)
        ensures
            final(self).model() == old(self).model().plus(v.model()),
    {
        proof {
            lemma_real_ring();
        }
        self.0 = self.0.add(&v.0);
        self.1 = self.1.add(&v.1);
    }
}

impl<R> From<(R, R)> for V2<R> {
    fn from(v: (R, R)) -> (pair: V2<R>) {
        V2(v.0, v.1)
    }
}

impl<R> FromSpecImpl<(R, R)> for V2<R> {
    open spec fn obeys_from_spec() -> bool {
        true
    }

    open spec fn from_spec(v: (R, R)) -> V2<R> {
        V2(v.0, v.1)
    }
}

impl<R: ParamsTrait> Element for V2<R> {
    type Model = Complex;

    open spec fn model(&self) -> Complex {
        Complex { re: self.0.model(), im: self.1.model() }
    }

    fn duplicate(&self) -> (copy: Self) {
        V2(self.0.duplicate(), self.1.duplicate())
    }

    fn equals(&self, other: &Self) -> (same: bool) {
        self.0.equals(&other.0) && self.1.equals(&other.1)
    }

    fn add(&self, rhs: &Self) -> (sum: Self) {
        proof {
            lemma_real_ring();
        }
        V2(self.0.add(&rhs.0), self.1.add(&rhs.1))
    }

    fn neg(&self) -> (opposite: Self) {
        proof {
            lemma_real_ring();
        }
        V2(self.0.neg(), self.1.neg())
    }

    /// The complex product `(a, b) * (c, d) = (ac - bd, ad + bc)`.
    fn mul(&self, rhs: &Self) -> (product: Self) {
        proof {
            lemma_real_ring();
            lemma_mul_signs(self.1.model(), rhs.1.model());
        }
        let re = self.0.mul(&rhs.0).add(&self.1.neg().mul(&rhs.1));
        let im = self.0.mul(&rhs.1).add(&self.1.mul(&rhs.0));
        V2(re, im)
    }
}

impl<R: ParamsTrait> Zero for V2<R> {
    fn zero() -> (z: Self) {
        proof {
            lemma_real_ring();
        }
        V2(R::zero(), R::zero())
    }
}

impl<R: ParamsTrait> One for V2<R> {
    fn one() -> (o: Self) {
        proof {
            lemma_real_ring();
        }
        V2(R::one(), R::zero())
    }
}

impl<R: ParamsTrait> SquaredNorm for V2<R> {
    type Output = R;

    /// `re * re + im * im`.
    fn squared_norm(&self) -> (norm: R) {
        proof {
            lemma_real_ring();
        }
        self.0.squared_norm().add(&self.1.squared_norm())
    }
}

} // verus!
