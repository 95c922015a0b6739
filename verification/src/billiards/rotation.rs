//! The rotations that turn the base edge.
//!
//! The triangle has its base on the unit interval, from `B0` at the origin to
//! `B1` at the real unit. Each base vertex has a rotation generator, a complex
//! number of modulus one that stands for one turn around that vertex; so many
//! turns are a power of it, and turns the other way are the conjugate.

use crate::algebra::{lemma_power_one, lemma_real_ring, power, Ring};
use crate::billiards::singularity::BaseSingularity;
use crate::reals::{
    lemma_cancel, lemma_div_mul, lemma_mul_associative, lemma_mul_commutative,
    lemma_mul_distributes, lemma_mul_one, lemma_mul_signs, lemma_mul_zero, lemma_product_sign,
    lemma_square_of_product, lemma_square_sign,
};
use crate::vector::{
    lemma_conjugate_times, lemma_over_times, lemma_squared_norm_conjugate,
    lemma_squared_norm_times, lemma_squared_norm_zero, Complex,
};
use vstd::prelude::*;

verus! {


/// Whether the apex lies on a base vertex, so that one of the two edges that
/// meet in it has no direction.
pub open spec fn is_degenerate(apex: Complex) -> bool {
    apex == <Complex as Ring>::zero() || apex == <Complex as Ring>::one()
}

/// The edge from `B0` to the apex.
pub open spec fn left_edge(apex: Complex) -> Complex {
    apex
}

/// The edge from the apex to `B1`.
pub open spec fn right_edge(apex: Complex) -> Complex {
    <Complex as Ring>::one().minus(apex)
}

/// The square of an edge divided by its squared norm: the rotation by twice
/// the angle between the edge and the base.
pub open spec fn edge_rotation(edge: Complex) -> Complex {
    edge.times(edge).over(Complex::from_real(edge.squared_norm()))
}

/// The rotation generator of a base vertex. Around `B1` the turn goes the
/// other way round, hence the conjugate.
pub open spec fn generator(apex: Complex, s: BaseSingularity) -> Complex {
    match s {
        BaseSingularity::B0 => edge_rotation(left_edge(apex)),
        BaseSingularity::B1 => edge_rotation(right_edge(apex)).conjugate(),
    }
}

/// The number of turns in a signed count.
pub open spec fn degree(by: int) -> nat {
    if by < 0 {
        (-by) as nat
    } else {
        by as nat
    }
}

/// The number of turns in a signed count. Every count has one that fits.
pub fn turn_degree(by: i32) -> (turns: u32)
    ensures
        turns == degree(by as int),
{
    if by == i32::MIN {
        2147483648u32
    } else if by < 0 {
        (-by) as u32
    } else {
        by as u32
    }
}

/// The rotation of `by` turns: the power of the generator of that degree, and
/// for a negative count the conjugate of the power of the opposite degree.
pub open spec fn turn(generator: Complex, by: int) -> Complex {
    if by < 0 {
        power(generator, degree(by)).conjugate()
    } else {
        power(generator, degree(by))
    }
}

/// Whether `bound` is what the search for the turn bound of `generator` ends
/// on. The search starts at one and goes on while the next power lies strictly
/// above the real axis: a power on the axis itself ends it. It also ends where
/// the count would no longer fit.
pub open spec fn is_turn_bound(generator: Complex, bound: nat) -> bool {
    &&& 1 <= bound <= u32::MAX
    &&& forall|k: nat| 2 <= k <= bound ==> (#[trigger] power(generator, k)).im > 0real
    &&& bound < u32::MAX ==> power(generator, bound + 1).im <= 0real
}

/// The turn bound of a generator.
pub open spec fn turn_bound(generator: Complex) -> nat {
    choose|bound: nat| is_turn_bound(generator, bound)
}

/// A generator has at most one turn bound.
pub proof fn lemma_turn_bound_unique(generator: Complex, a: nat, b: nat)
    requires
        is_turn_bound(generator, a),
        is_turn_bound(generator, b),
    ensures
        a == b,
        a == turn_bound(generator),
{
    if a < b {
        assert(power(generator, a + 1).im > 0real);
    }
    if b < a {
        assert(power(generator, b + 1).im > 0real);
    }
    let c = turn_bound(generator);
    if a < c {
        assert(power(generator, a + 1).im > 0real);
    }
    if c < a {
        assert(power(generator, c + 1).im > 0real);
    }
}

/// Turning back is the mirror image of turning forward, and no turn at all is
/// the identity.
pub proof fn lemma_turn_opposite(generator: Complex, n: nat)
    ensures
        turn(generator, -(n as int)) == turn(generator, n as int).conjugate(),
        turn(generator, 0) == <Complex as Ring>::one(),
{
}

/// The squared norm of a power is the power of the squared norm.
pub proof fn lemma_squared_norm_power(z: Complex, n: nat)
    ensures
        power(z, n).squared_norm() == power(z.squared_norm(), n),
    decreases n,
{
    lemma_real_ring();
    if n == 0 {
        assert(power(z, 0) == <Complex as Ring>::one());
        assert(power(z.squared_norm(), 0) == <real as Ring>::one());
    } else {
        let before = (n - 1) as nat;
        lemma_squared_norm_power(z, before);
        lemma_squared_norm_times(power(z, before), z);
        assert(power(z, n) == power(z, before).times(z));
        assert(power(z.squared_norm(), n) == power(z.squared_norm(), before).times(
            z.squared_norm(),
        ));
    }
}

/// The squared norm of the rotation of any number of turns, forward or back,
/// is the squared norm of a single turn raised to that number.
pub proof fn lemma_squared_norm_turn(generator: Complex, by: int)
    ensures
        turn(generator, by).squared_norm() == power(turn(generator, 1).squared_norm(), degree(by)),
{
    lemma_power_one(generator);
    lemma_squared_norm_conjugate(power(generator, degree(by)));
    lemma_squared_norm_power(generator, degree(by));
}

/// The conjugate of a power is the power of the conjugate.
pub proof fn lemma_power_conjugate(z: Complex, n: nat)
    ensures
        power(z, n).conjugate() == power(z.conjugate(), n),
    decreases n,
{
    if n > 0 {
        let before = (n - 1) as nat;
        lemma_power_conjugate(z, before);
        lemma_conjugate_times(power(z, before), z);
        assert(power(z, n) == power(z, before).times(z));
        assert(power(z.conjugate(), n) == power(z.conjugate(), before).times(z.conjugate()));
    } else {
        assert(power(z, 0) == <Complex as Ring>::one());
        assert(power(z.conjugate(), 0) == <Complex as Ring>::one());
    }
}

/// Turning back is turning forward with the conjugate generator.
pub proof fn lemma_turn_back_by_conjugate(generator: Complex, by: int)
    ensures
        turn(generator, -by) == turn(generator.conjugate(), by),
{
    lemma_power_conjugate(generator, degree(by));
    lemma_power_conjugate(generator.conjugate(), degree(by));
}

/// Every power of one is one.
pub proof fn lemma_power_of_one(n: nat)
    ensures
        power(1real, n) == 1real,
    decreases n,
{
    lemma_real_ring();
    if n > 0 {
        lemma_power_of_one((n - 1) as nat);
        assert(power(1real, n) == power(1real, (n - 1) as nat).times(1real));
    }
}

/// The rotation of an edge is a quotient in earnest: multiplied by the squared
/// norm of the edge it gives the square of the edge back.
pub proof fn lemma_edge_rotation_is_quotient(edge: Complex)
    requires
        edge != <Complex as Ring>::zero(),
    ensures
        edge_rotation(edge).times(Complex::from_real(edge.squared_norm())) == edge.times(edge),
{
    lemma_squared_norm_zero(edge);
    lemma_over_times(edge.times(edge), Complex::from_real(edge.squared_norm()));
}

/// The factor by which the square of an edge is scaled to give its rotation:
/// the reciprocal of the squared norm, as the division computes it.
pub open spec fn edge_scale(edge: Complex) -> real {
    edge.squared_norm() / Complex::from_real(edge.squared_norm()).squared_norm()
}

/// The rotation of an edge that has a direction is the square of the edge
/// scaled by a positive real number, the reciprocal of its squared norm.
pub proof fn lemma_edge_rotation_scales(edge: Complex)
    requires
        edge != <Complex as Ring>::zero(),
    ensures
        edge_rotation(edge) == (Complex {
            re: edge.times(edge).re * edge_scale(edge),
            im: edge.times(edge).im * edge_scale(edge),
        }),
        edge_scale(edge) * edge.squared_norm() == 1real,
        edge_scale(edge) > 0real,
{
    lemma_real_ring();
    lemma_squared_norm_zero(edge);
    let n = edge.squared_norm();
    let w = edge.times(edge);
    let divisor = Complex::from_real(n);
    let m = divisor.squared_norm();
    let r = edge_scale(edge);
    lemma_mul_zero(0real);
    lemma_square_sign(n);
    assert(m == n * n);
    lemma_div_mul(n, m);
    assert(divisor.reciprocal() == (Complex { re: r, im: 0real }));
    lemma_mul_zero(w.re);
    lemma_mul_zero(w.im);
    lemma_mul_associative(r, n, n);
    lemma_cancel(r * n, n);
    lemma_product_sign(r, n);
    lemma_mul_zero(n);
}

/// The rotation of an edge that has a direction has modulus one.
pub proof fn lemma_edge_rotation_unit(edge: Complex)
    requires
        edge != <Complex as Ring>::zero(),
    ensures
        edge_rotation(edge).squared_norm() == 1real,
{
    lemma_edge_rotation_scales(edge);
    let n = edge.squared_norm();
    let w = edge.times(edge);
    let r = edge_scale(edge);
    lemma_square_of_product(w.re, r);
    lemma_square_of_product(w.im, r);
    lemma_mul_distributes(r * r, w.re * w.re, w.im * w.im);
    lemma_squared_norm_times(edge, edge);
    assert(w.squared_norm() == n * n);
    assert(edge_rotation(edge).squared_norm() == (n * n) * (r * r));
    lemma_square_of_product(n, r);
    assert(n * r == 1real) by {
        lemma_mul_commutative(n, r);
    }
    assert((n * r) * (n * r) == 1real) by {
        lemma_mul_one(1real);
    }
}

/// Both rotation generators of a triangle have modulus one, and so has the
/// rotation of any number of turns.
pub proof fn lemma_turn_unit(apex: Complex, s: BaseSingularity, by: int)
    requires
        !is_degenerate(apex),
    ensures
        generator(apex, s).squared_norm() == 1real,
        turn(generator(apex, s), by).squared_norm() == 1real,
{
    lemma_edge_rotation_unit(left_edge(apex));
    lemma_edge_rotation_unit(right_edge(apex));
    lemma_squared_norm_conjugate(edge_rotation(right_edge(apex)));
    let g = generator(apex, s);
    lemma_squared_norm_turn(g, by);
    lemma_power_one(g);
    lemma_power_of_one(degree(by));
}

/// As rotations, turning back undoes turning: the two rotations multiply to
/// the identity.
pub proof fn lemma_turn_back_undoes(apex: Complex, s: BaseSingularity, by: int)
    requires
        !is_degenerate(apex),
    ensures
        turn(generator(apex, s), by).times(turn(generator(apex, s), -by))
            == <Complex as Ring>::one(),
{
    let g = generator(apex, s);
    let rotation = turn(g, by);
    lemma_turn_unit(apex, s, by);
    assert(turn(g, -by) == rotation.conjugate());
    lemma_mul_signs(rotation.im, rotation.im);
    lemma_mul_signs(rotation.re, rotation.im);
    lemma_mul_commutative(rotation.re, rotation.im);
}

/// Whether the apex lies strictly above the open base segment.
pub open spec fn is_above_base(apex: Complex) -> bool {
    0real < apex.re < 1real && apex.im > 0real
}

/// For an apex above the base, a single turn around either base vertex lies
/// strictly above the real axis.
pub proof fn lemma_first_turn_rises(apex: Complex, s: BaseSingularity)
    requires
        is_above_base(apex),
    ensures
        generator(apex, s).im > 0real,
{
    lemma_real_ring();
    match s {
        BaseSingularity::B0 => {
            let edge = left_edge(apex);
            lemma_edge_rotation_scales(edge);
            lemma_product_sign(edge.re, edge.im);
            lemma_product_sign(edge.times(edge).im, edge_scale(edge));
        },
        BaseSingularity::B1 => {
            let edge = right_edge(apex);
            assert(edge.re == 1real - apex.re && edge.im == -apex.im);
            lemma_edge_rotation_scales(edge);
            lemma_product_sign(edge.re, edge.im);
            lemma_product_sign(edge.times(edge).im, edge_scale(edge));
        },
    }
}

/// For an apex above the base, the turn bound of a base vertex is the last
/// count up to which every rotation lies strictly above the real axis: one
/// turn more does not, unless the bound is the largest count there is.
pub proof fn lemma_turn_bound_is_last_rise(apex: Complex, s: BaseSingularity, bound: nat)
    requires
        is_above_base(apex),
        is_turn_bound(generator(apex, s), bound),
    ensures
        forall|k: int| 1 <= k <= bound ==> (#[trigger] turn(generator(apex, s), k)).im > 0real,
        bound < u32::MAX ==> turn(generator(apex, s), bound as int + 1).im <= 0real,
{
    let g = generator(apex, s);
    lemma_first_turn_rises(apex, s);
    lemma_power_one(g);
    assert forall|k: int| 1 <= k <= bound implies (#[trigger] turn(g, k)).im > 0real by {
        if k >= 2 {
            assert(power(g, k as nat).im > 0real);
        }
    }
}

} // verus!
