use billiards::billiards::base_edge::BaseEdge;
use billiards::billiards::singularity::BaseOrientation;
use billiards::billiards::singularity::BaseSingularity::{B0, B1};
use billiards::billiards::Params;
use billiards::vector::V2;
use rug::Rational;
use billiards::algebra::SquaredNorm;
use billiards::billiards::singularity::BaseValues;

#[test]
fn test_base_edge() {
    let mut params = Params::new(V2(Rational::from((1, 2)), Rational::from((1, 2))));
    let mut edge = BaseEdge::new_default(&mut params);

    assert_eq!(edge.orientation, BaseOrientation::Forward);
    assert_eq!(edge.from(), B0, "initial edge should point from B0");
    assert_eq!(edge.to(), B1, "initial edge should point to B1");
    assert_eq!(edge.offset(), V2(Rational::from(1), Rational::from(0)));

    assert_eq!(
        edge.params.turn_vec(B1, -1),
        V2(Rational::from(0), Rational::from(-1)),
        ""
    );

    edge.step(-1);

    assert_eq!(
        edge.offset(),
        V2(Rational::from(0), Rational::from(1)),
        "offset should be (0, 1)"
    );

    assert_eq!(
        edge.from_coords(),
        V2(Rational::from(1), Rational::from(0)),
        "from_coords should be (1, 0)"
    );

    assert_eq!(
        edge.to_coords(),
        V2(Rational::from(1), Rational::from(1)),
        "to_coords should be (1, 1)"
    );

    assert_eq!(
        edge.left_apex(),
        V2(Rational::from((1, 2)), Rational::from((1, 2))),
        "left apex should be (1/2, 1/2)"
    );

    assert_eq!(
        edge.right_apex(),
        V2(Rational::from((3, 2)), Rational::from((1, 2))),
        "right apex should be (3/2, 1/2)"
    );
}

fn v(re: (i32, i32), im: (i32, i32)) -> V2<Rational> {
    V2(Rational::from(re), Rational::from(im))
}

#[test]
fn default_edge_lies_on_the_unit_interval() {
    let mut params = Params::new(v((1, 3), (1, 5)));
    let edge = BaseEdge::new_default(&mut params);
    assert_eq!(edge.orientation, BaseOrientation::Forward);
    assert_eq!(edge.from(), B0);
    assert_eq!(edge.to(), B1);
    assert_eq!(edge.from_coords(), v((0, 1), (0, 1)));
    assert_eq!(edge.to_coords(), v((1, 1), (0, 1)));
    assert_eq!(edge.offset(), v((1, 1), (0, 1)));
    assert_eq!(edge.left_apex(), v((1, 3), (1, 5)));
    assert_eq!(edge.right_apex(), v((1, 3), (-1, 5)));
}

#[test]
fn new_edge_keeps_what_it_is_given() {
    let mut params = Params::new(v((1, 2), (1, 2)));
    let edge = BaseEdge::new(
        &mut params,
        BaseValues(v((1, 1), (1, 1)), v((1, 1), (0, 1))),
        BaseOrientation::Backward,
    );
    assert_eq!(edge.orientation, BaseOrientation::Backward);
    assert_eq!(edge.from(), B1);
    assert_eq!(edge.to(), B0);
    assert_eq!(edge.from_coords(), v((1, 1), (0, 1)));
    assert_eq!(edge.to_coords(), v((1, 1), (1, 1)));
    assert_eq!(edge.offset(), v((0, 1), (1, 1)));
    assert_eq!(edge.left_apex(), v((1, 2), (1, 2)));
    assert_eq!(edge.right_apex(), v((3, 2), (1, 2)));
}

#[test]
fn step_turns_the_anchor_round_the_free_end() {
    let mut params = Params::new(v((1, 2), (1, 4)));
    let mut edge = BaseEdge::new_default(&mut params);
    edge.step(2);
    assert_eq!(edge.orientation, BaseOrientation::Backward);
    assert_eq!(edge.from(), B1);
    assert_eq!(edge.to(), B0);
    assert_eq!(edge.from_coords(), v((1, 1), (0, 1)));
    assert_eq!(edge.to_coords(), v((32, 25), (-24, 25)));
    assert_eq!(edge.offset(), v((7, 25), (-24, 25)));
    assert_eq!(edge.left_apex(), v((69, 50), (-41, 100)));
    assert_eq!(edge.right_apex(), v((9, 10), (-11, 20)));
    edge.step(-2);
    assert_eq!(edge.orientation, BaseOrientation::Forward);
    assert_eq!(edge.from_coords(), v((32, 25), (-24, 25)));
    assert_eq!(edge.to_coords(), v((57, 25), (-24, 25)));
    assert_eq!(edge.offset(), v((1, 1), (0, 1)));
    assert_eq!(edge.left_apex(), v((89, 50), (-71, 100)));
    assert_eq!(edge.right_apex(), v((89, 50), (-121, 100)));
}

#[test]
fn step_of_no_turn_only_reverses_the_edge() {
    let mut params = Params::new(v((1, 2), (1, 2)));
    let mut edge = BaseEdge::new_default(&mut params);
    edge.step(0);
    assert_eq!(edge.orientation, BaseOrientation::Backward);
    assert_eq!(edge.from_coords(), v((1, 1), (0, 1)));
    assert_eq!(edge.to_coords(), v((0, 1), (0, 1)));
    assert_eq!(edge.offset(), v((-1, 1), (0, 1)));
    assert_eq!(edge.left_apex(), v((1, 2), (-1, 2)));
    assert_eq!(edge.right_apex(), v((1, 2), (1, 2)));
    edge.step(0);
    assert_eq!(edge.orientation, BaseOrientation::Forward);
    assert_eq!(edge.from_coords(), v((0, 1), (0, 1)));
    assert_eq!(edge.to_coords(), v((1, 1), (0, 1)));
}

#[test]
fn turning_back_does_not_lead_back() {
    let mut params = Params::new(v((1, 2), (1, 2)));
    let mut edge = BaseEdge::new_default(&mut params);
    let start_from = edge.from_coords();
    let start_to = edge.to_coords();
    edge.step(-1);
    edge.step(1);
    // the orientation is the same again, the place is not
    assert_eq!(edge.orientation, BaseOrientation::Forward);
    assert_eq!(edge.from_coords(), v((1, 1), (1, 1)));
    assert_eq!(edge.to_coords(), v((2, 1), (1, 1)));
    assert_ne!(edge.from_coords(), start_from);
    assert_ne!(edge.to_coords(), start_to);
}

#[test]
fn turning_back_the_other_way_does_not_lead_back_either() {
    let mut params = Params::new(v((1, 2), (1, 2)));
    let mut edge = BaseEdge::new_default(&mut params);
    edge.step(1);
    assert_eq!(edge.from_coords(), v((1, 1), (0, 1)));
    assert_eq!(edge.to_coords(), v((1, 1), (-1, 1)));
    edge.step(-1);
    assert_eq!(edge.orientation, BaseOrientation::Forward);
    assert_eq!(edge.from_coords(), v((1, 1), (-1, 1)));
    assert_eq!(edge.to_coords(), v((2, 1), (-1, 1)));
}

#[test]
fn step_keeps_the_length_of_the_edge() {
    let mut params = Params::new(v((3, 10), (1, 10)));
    let mut edge = BaseEdge::new_default(&mut params);
    for turn in [3, -2, 1, -4, 2, 7, -1] {
        edge.step(turn);
        assert_eq!(edge.offset().squared_norm(), Rational::from(1));
    }
}

#[test]
fn params_are_usable_through_the_edge_and_after_it() {
    let mut params = Params::new(v((1, 3), (1, 5)));
    {
        let mut edge = BaseEdge::new_default(&mut params);
        assert_eq!(edge.params.max_turn_around(edge.to()), 5);
        edge.step(5);
        assert_eq!(edge.params.max_turn_around(edge.to()), 2);
        assert_eq!(*edge.params.apex(), v((1, 3), (1, 5)));
    }
    assert_eq!(params.max_turn_around(B0), 2);
    assert_eq!(params.turn_vec(B1, 1), v((91, 109), (60, 109)));
}
