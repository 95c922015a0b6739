use billiards::billiards::turn_path::test_path_on_point;
use billiards::vector::V2;
use rug::Rational;

fn v(re: (i32, i32), im: (i32, i32)) -> V2<Rational> {
    V2(Rational::from(re), Rational::from(im))
}

#[test]
fn fixed_path_is_valid_for_a_point_in_the_region() {
    assert!(test_path_on_point(&v((1, 2), (3, 8)), &[-2, 2, 2, -2]));
}

#[test]
fn fixed_path_is_invalid_where_a_turn_exceeds_its_bound() {
    // both bounds are one for the right isosceles triangle
    assert!(!test_path_on_point(&v((1, 2), (1, 2)), &[-2, 2, 2, -2]));
}

#[test]
fn fixed_path_is_invalid_where_the_trails_are_not_parted() {
    // all four turns are within the bounds, which are three and three here
    assert!(!test_path_on_point(&v((1, 2), (1, 4)), &[-2, 2, 2, -2]));
    // and within the bounds two and five here
    assert!(!test_path_on_point(&v((1, 3), (1, 5)), &[-2, 2, 2, -2]));
}

#[test]
fn path_stops_at_the_first_turn_beyond_its_bound() {
    let point = v((1, 2), (3, 8));
    assert!(test_path_on_point(&point, &[-2, 2, 2, -2]));
    assert!(!test_path_on_point(&point, &[-3, 2, 2, -2]));
    assert!(!test_path_on_point(&point, &[-2, 2, 2, -3]));
    assert!(!test_path_on_point(&point, &[-2, 2, 2, -2, 3]));
}

#[test]
fn bound_is_that_of_the_vertex_turned_around() {
    // the bounds are two around B0 and five around B1; the first turn goes
    // around B1 and the second around B0
    let point = v((1, 3), (1, 5));
    assert!(test_path_on_point(&point, &[2, -2]));
    assert!(!test_path_on_point(&point, &[2, -3]));
    assert!(!test_path_on_point(&point, &[6, -2]));
}

#[test]
fn empty_path_is_invalid() {
    // with no turn the line through the left trail has no direction, so
    // nothing lies strictly to one side of it
    assert!(!test_path_on_point(&v((1, 2), (3, 8)), &[]));
    assert!(!test_path_on_point(&v((1, 2), (1, 2)), &[]));
}

#[test]
fn short_paths() {
    assert!(test_path_on_point(&v((1, 2), (1, 2)), &[1]));
    assert!(!test_path_on_point(&v((1, 2), (1, 2)), &[-1]));
    assert!(test_path_on_point(&v((1, 2), (1, 2)), &[1, -1]));
    assert!(!test_path_on_point(&v((1, 2), (1, 2)), &[-1, 1, 1, -1]));
    assert!(!test_path_on_point(&v((1, 2), (1, 4)), &[1]));
    assert!(test_path_on_point(&v((1, 2), (1, 4)), &[2, -2]));
    assert!(test_path_on_point(&v((1, 2), (1, 4)), &[-3, 3, 3, -3]));
    assert!(test_path_on_point(&v((1, 2), (3, 8)), &[2]));
    assert!(test_path_on_point(&v((1, 2), (3, 8)), &[-2]));
    assert!(!test_path_on_point(&v((1, 2), (3, 8)), &[0]));
}

#[test]
fn mirrored_path_is_not_the_same_path() {
    let point = v((1, 2), (3, 8));
    assert!(test_path_on_point(&point, &[-2, 2, 2, -2]));
    assert!(!test_path_on_point(&point, &[2, -2, -2, 2]));
}

#[test]
fn point_left_of_the_base_has_no_valid_path_among_these() {
    let point = v((-1, 2), (1, 2));
    for turns in [
        vec![1],
        vec![-1],
        vec![1, -1],
        vec![2, -2],
        vec![-2, 2, 2, -2],
    ] {
        assert!(!test_path_on_point(&point, &turns));
    }
}
