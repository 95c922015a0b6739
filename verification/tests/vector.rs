use billiards::algebra::{Element, One, SquaredNorm, Zero};
use billiards::vector::V2;
use rug::Rational;

fn q(n: i32, d: i32) -> Rational {
    Rational::from((n, d))
}

fn v(re: (i32, i32), im: (i32, i32)) -> V2<Rational> {
    V2(q(re.0, re.1), q(im.0, im.1))
}

#[test]
fn from_real_lies_on_the_real_axis() {
    assert_eq!(V2::from_real(q(3, 4)), v((3, 4), (0, 1)));
}

#[test]
fn zero_and_one_of_the_plane() {
    assert_eq!(<V2<Rational> as Zero>::zero(), v((0, 1), (0, 1)));
    assert_eq!(<V2<Rational> as One>::one(), v((1, 1), (0, 1)));
}

#[test]
fn add_is_componentwise() {
    assert_eq!(v((1, 2), (1, 3)).add(&v((1, 4), (-1, 3))), v((3, 4), (0, 1)));
}

#[test]
fn sub_is_componentwise() {
    assert_eq!(v((1, 2), (1, 3)).sub(&v((1, 4), (-1, 3))), v((1, 4), (2, 3)));
}

#[test]
fn neg_negates_both_components() {
    assert_eq!(v((1, 2), (-1, 3)).neg(), v((-1, 2), (1, 3)));
}

#[test]
fn mul_is_the_complex_product() {
    // (1 + 2i)(3 + 4i) = 3 - 8 + (4 + 6)i
    assert_eq!(v((1, 1), (2, 1)).mul(&v((3, 1), (4, 1))), v((-5, 1), (10, 1)));
    // i * i = -1
    assert_eq!(v((0, 1), (1, 1)).mul(&v((0, 1), (1, 1))), v((-1, 1), (0, 1)));
}

#[test]
fn mul_by_one_changes_nothing() {
    let z = v((2, 3), (-5, 7));
    assert_eq!(<V2<Rational> as One>::one().mul(&z), z);
    assert_eq!(z.mul(&<V2<Rational> as One>::one()), z);
}

#[test]
fn div_is_the_complex_quotient() {
    // (-5 + 10i) / (3 + 4i) = 1 + 2i
    assert_eq!(v((-5, 1), (10, 1)).div(&v((3, 1), (4, 1))), v((1, 1), (2, 1)));
    // 1 / i = -i
    assert_eq!(v((1, 1), (0, 1)).div(&v((0, 1), (1, 1))), v((0, 1), (-1, 1)));
}

#[test]
fn div_undoes_mul() {
    let w = v((2, 3), (-5, 7));
    let z = v((1, 2), (1, 3));
    assert_eq!(w.div(&z).mul(&z), w);
    assert_eq!(w.mul(&z).div(&z), w);
}

#[test]
fn dot_is_the_real_inner_product() {
    // 1 * 3 + 2 * 4
    assert_eq!(v((1, 1), (2, 1)).dot(&v((3, 1), (4, 1))), q(11, 1));
    assert_eq!(v((1, 2), (1, 3)).dot(&v((-1, 3), (1, 2))), q(0, 1));
}

#[test]
fn squared_norm_is_the_dot_with_itself() {
    let z = v((3, 1), (-4, 1));
    assert_eq!(z.squared_norm(), q(25, 1));
    assert_eq!(z.squared_norm(), z.dot(&z));
}

#[test]
fn squared_norm_is_multiplicative() {
    let z = v((1, 2), (1, 3));
    let w = v((-2, 5), (3, 7));
    assert_eq!(
        z.mul(&w).squared_norm(),
        z.squared_norm().mul(&w.squared_norm())
    );
}

#[test]
fn complex_conjugate_negates_the_second_component() {
    assert_eq!(v((1, 2), (1, 3)).complex_conjugate(), v((1, 2), (-1, 3)));
    assert_eq!(
        v((1, 2), (1, 3)).complex_conjugate().complex_conjugate(),
        v((1, 2), (1, 3))
    );
}

#[test]
fn duplicate_and_equals_of_the_plane() {
    let z = v((1, 2), (1, 3));
    let copy = z.duplicate();
    assert_eq!(copy, z);
    assert!(copy.equals(&z));
    assert!(!z.equals(&v((1, 2), (-1, 3))));
    assert!(!z.equals(&v((1, 3), (1, 3))));
}

#[test]
fn from_a_pair() {
    assert_eq!(V2::from((q(1, 2), q(1, 3))), v((1, 2), (1, 3)));
}

#[test]
fn add_assign_adds_in_place() {
    let mut z = v((1, 2), (1, 3));
    z.add_assign(&v((1, 2), (2, 3)));
    assert_eq!(z, v((1, 1), (1, 1)));
}
