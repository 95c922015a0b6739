use billiards::algebra::{Element, One, ParamsTrait, SquaredNorm, Zero};
use rug::Rational;

fn q(n: i32, d: i32) -> Rational {
    Rational::from((n, d))
}

#[test]
fn rational_zero_is_the_integer_zero() {
    assert_eq!(<Rational as Zero>::zero(), Rational::from(0));
}

#[test]
fn rational_one_is_the_integer_one() {
    assert_eq!(<Rational as One>::one(), Rational::from(1));
}

#[test]
fn rational_zero_is_an_additive_identity() {
    let zero = <Rational as Zero>::zero();
    assert_eq!(zero.add(&zero), zero);
    assert_eq!(zero.add(&q(3, 7)), q(3, 7));
}

#[test]
fn rational_opposite_is_an_additive_inverse() {
    let a = q(-5, 9);
    assert_eq!(a.add(&a.neg()), <Rational as Zero>::zero());
}

#[test]
fn rational_one_is_a_multiplicative_identity() {
    let one = <Rational as One>::one();
    assert_eq!(one.mul(&one), one);
    assert_eq!(one.mul(&q(3, 7)), q(3, 7));
}

#[test]
fn rational_duplicate_is_equal_and_independent() {
    let a = q(22, 7);
    let b = a.duplicate();
    assert_eq!(a, b);
    let c = b.add(&<Rational as One>::one());
    assert_eq!(a, q(22, 7));
    assert_eq!(c, q(29, 7));
}

#[test]
fn rational_equals_compares_values() {
    assert!(q(1, 2).equals(&q(2, 4)));
    assert!(!q(1, 2).equals(&q(1, 3)));
    assert!(!q(1, 2).equals(&q(-1, 2)));
}

#[test]
fn rational_less_than_is_strict() {
    assert!(q(1, 3).less_than(&q(1, 2)));
    assert!(!q(1, 2).less_than(&q(1, 3)));
    assert!(!q(1, 2).less_than(&q(2, 4)));
    assert!(q(-1, 2).less_than(&q(0, 1)));
}

#[test]
fn rational_add_is_exact() {
    assert_eq!(q(1, 2).add(&q(1, 3)), q(5, 6));
    assert_eq!(q(1, 3).add(&q(-1, 3)), q(0, 1));
}

#[test]
fn rational_neg_is_exact() {
    assert_eq!(q(1, 2).neg(), q(-1, 2));
    assert_eq!(q(-7, 3).neg(), q(7, 3));
    assert_eq!(q(0, 1).neg(), q(0, 1));
}

#[test]
fn rational_mul_is_exact() {
    assert_eq!(q(2, 3).mul(&q(3, 4)), q(1, 2));
    assert_eq!(q(-2, 3).mul(&q(3, 4)), q(-1, 2));
}

#[test]
fn rational_div_is_exact() {
    assert_eq!(q(1, 2).div(&q(1, 4)), q(2, 1));
    assert_eq!(q(1, 3).div(&q(-2, 1)), q(-1, 6));
}

#[test]
fn rational_squared_norm_is_the_square() {
    assert_eq!(q(-3, 2).squared_norm(), q(9, 4));
    assert_eq!(q(0, 1).squared_norm(), q(0, 1));
}

#[test]
fn rational_arithmetic_does_not_round() {
    // 1/3 added three times is one, with no error left over
    let third = q(1, 3);
    let sum = third.add(&third).add(&third);
    assert!(sum.equals(&<Rational as One>::one()));
    let mut tiny = q(1, 1);
    for _ in 0..200 {
        tiny = tiny.div(&q(2, 1));
    }
    assert!(<Rational as Zero>::zero().less_than(&tiny));
}
