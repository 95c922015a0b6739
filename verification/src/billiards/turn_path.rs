//! Whether a path of turns stays inside the unfolding of a triangle.
//!
//! The walk of the base edge along the path leaves a trail of points to its
//! left and a trail to its right. The path is valid where no turn exceeds its
//! bound and a straight line parts the two trails.

use crate::algebra::{lemma_real_ring, Element, One, ParamsTrait, Zero};
use crate::billiards::base_edge::{BaseEdge, Edge};
use crate::billiards::singularity::{BaseOrientation, BaseValues};
use crate::billiards::rotation::{degree, generator, is_degenerate, turn_bound, turn_degree};
use crate::billiards::Params;
use crate::vector::{Complex, V2};
use vstd::prelude::*;

verus! {

/// What a walk has left behind: the edge where it stands, and the points it
/// has collected on either side, in the order of the walk.
pub struct Trace {
    pub edge: Edge,
    pub left: Seq<Complex>,
    pub right: Seq<Complex>,
}

/// The trace of the walk along `turns` in the triangle with the given apex,
/// or nothing where a turn exceeds the turn bound of the vertex it goes
/// around.
///
/// The walk starts on the unit interval with the two copies of the apex that
/// this edge sees. Each turn adds the two copies that the new edge sees, and
/// the anchor of the new edge: to the left for a positive number of turns,
/// and to the right otherwise.
pub open spec fn unfold(apex: Complex, turns: Seq<i32>) -> Option<Trace>
    decreases turns.len(),
{
    if turns.len() == 0 {
        Some(
            Trace {
                edge: Edge::start(),
                left: seq![Edge::start().left_apex(apex)],
                right: seq![Edge::start().right_apex(apex)],
            },
        )
    } else {
        match unfold(apex, turns.drop_last()) {
            None => None,
            Some(before) => {
                let by = turns.last() as int;
                if degree(by) > turn_bound(generator(apex, before.edge.orientation.to())) {
                    None
                } else {
                    let edge = before.edge.step(apex, by);
                    let left = before.left.push(edge.left_apex(apex));
                    let right = before.right.push(edge.right_apex(apex));
                    if by > 0 {
                        Some(Trace { edge, left: left.push(edge.from_coords()), right })
                    } else {
                        Some(Trace { edge, left, right: right.push(edge.from_coords()) })
                    }
                }
            },
        }
    }
}

/// The direction across the line from the first to the last point of the
/// left trail: that line's direction turned by a right angle.
pub open spec fn normal_of(left: Seq<Complex>) -> Complex {
    let offset = left.last().minus(left.first());
    Complex { re: -offset.im, im: offset.re }
}

/// Whether every point of the left trail lies strictly further along the
/// normal than every point of the right trail.
pub open spec fn is_separated(left: Seq<Complex>, right: Seq<Complex>) -> bool {
    forall|i: int, j: int|
        0 <= i < left.len() && 0 <= j < right.len() ==> (#[trigger] left[i]).dot(normal_of(left))
            > (#[trigger] right[j]).dot(normal_of(left))
}

/// Whether the path of turns is valid in the triangle with the given apex.
pub open spec fn is_valid_path(apex: Complex, turns: Seq<i32>) -> bool {
    match unfold(apex, turns) {
        None => false,
        Some(trace) => is_separated(trace.left, trace.right),
    }
}

/// A walk that has failed on a part of the path has failed on the whole.
pub proof fn lemma_unfold_fails_for_good(apex: Complex, turns: Seq<i32>, n: int)
    requires
        0 <= n <= turns.len(),
        unfold(apex, turns.take(n)) is None,
    ensures
        unfold(apex, turns) is None,
    decreases turns.len() - n,
{
    if n < turns.len() {
        assert(turns.take(n + 1).drop_last() == turns.take(n));
        lemma_unfold_fails_for_good(apex, turns, n + 1);
    } else {
        assert(turns.take(n) == turns);
    }
}

/// The points that the exact values stand for.
pub open spec fn models<K: ParamsTrait>(points: Seq<V2<K>>) -> Seq<Complex> {
    Seq::new(points.len(), |i: int| points[i].model())
}

/// The smallest of the inner products of the points with `normal`.
fn least_projection<K: ParamsTrait>(points: &Vec<V2<K>>, normal: &V2<K>) -> (least: K)
    requires
        points.len() > 0,
    ensures
        forall|i: int|
            0 <= i < points.len() ==> least.model() <= (#[trigger] points[i]).model().dot(
                normal.model(),
            ),
        exists|i: int|
            0 <= i < points.len() && least.model() == (#[trigger] points[i]).model().dot(
                normal.model(),
            ),
{
    let mut least = points[0].dot(normal);
    let mut n: usize = 1;
    while n < points.len()
        invariant
            1 <= n <= points.len(),
            forall|i: int|
                0 <= i < n ==> least.model() <= (#[trigger] points[i]).model().dot(normal.model()),
            exists|i: int|
                0 <= i < n && least.model() == (#[trigger] points[i]).model().dot(normal.model()),
        decreases points.len() - n,
    {
        let projection = points[n].dot(normal);
        if projection.less_than(&least) {
            least = projection;
        }
        n = n + 1;
    }
    least
}

/// The largest of the inner products of the points with `normal`.
fn greatest_projection<K: ParamsTrait>(points: &Vec<V2<K>>, normal: &V2<K>) -> (greatest: K)
    requires
        points.len() > 0,
    ensures
        forall|i: int|
            0 <= i < points.len() ==> greatest.model() >= (#[trigger] points[i]).model().dot(
                normal.model(),
            ),
        exists|i: int|
            0 <= i < points.len() && greatest.model() == (#[trigger] points[i]).model().dot(
                normal.model(),
            ),
{
    let mut greatest = points[0].dot(normal);
    let mut n: usize = 1;
    while n < points.len()
        invariant
            1 <= n <= points.len(),
            forall|i: int|
                0 <= i < n ==> greatest.model() >= (#[trigger] points[i]).model().dot(
                    normal.model(),
                ),
            exists|i: int|
                0 <= i < n && greatest.model() == (#[trigger] points[i]).model().dot(
                    normal.model(),
                ),
        decreases points.len() - n,
    {
        let projection = points[n].dot(normal);
        if greatest.less_than(&projection) {
            greatest = projection;
        }
        n = n + 1;
    }
    greatest
}

/// Whether a straight line parts the two trails: the smallest projection of
/// the left trail on the normal exceeds the largest of the right trail.
fn separates<K: ParamsTrait>(left_points: &Vec<V2<K>>, right_points: &Vec<V2<K>>) -> (parted: bool)
    requires
        left_points.len() > 0,
        right_points.len() > 0,
    ensures
        parted == is_separated(models(left_points@), models(right_points@)),
{
    let ghost left = models(left_points@);
    let ghost right = models(right_points@);
    let offset = left_points[left_points.len() - 1].sub(&left_points[0]);
    proof {
        lemma_real_ring();
    }
    let normal = V2(offset.1.neg(), offset.0);
    assert(normal.model() == normal_of(left));
    let least = least_projection(left_points, &normal);
    let greatest = greatest_projection(right_points, &normal);
    let parted = greatest.less_than(&least);
    proof {
        let across = normal_of(left);
        if parted {
            assert forall|i: int, j: int|
                0 <= i < left.len() && 0 <= j < right.len() implies (#[trigger] left[i]).dot(
                across,
            ) > (#[trigger] right[j]).dot(across) by {
                assert(left[i] == left_points[i].model());
                assert(right[j] == right_points[j].model());
            }
        } else {
            let i = choose|i: int|
                0 <= i < left_points.len() && least.model() == (
                #[trigger] left_points[i]).model().dot(across);
            let j = choose|j: int|
                0 <= j < right_points.len() && greatest.model() == (
                #[trigger] right_points[j]).model().dot(across);
            assert(left[i] == left_points[i].model());
            assert(right[j] == right_points[j].model());
            assert(!(left[i].dot(across) > right[j].dot(across)));
        }
    }
    parted
}

/// Whether the path of turns is valid for the triangle with its apex at
/// `point`: the walk of the base edge along the path exceeds no turn bound,
/// and a straight line parts the points collected to the left of the walk
/// from those collected to its right.
pub fn test_path_on_point<K: ParamsTrait>(point: &V2<K>, turns: &[i32]) -> (valid: bool)
    requires
        !is_degenerate(point.model()),
    ensures
        valid == is_valid_path(point.model(), turns@),
{
    let ghost apex = point.model();
    let mut params = Params::new(point.duplicate());
    let origin: V2<K> = V2::zero();
    let one: V2<K> = V2::one();
    let mut edge = BaseEdge::new(&mut params, BaseValues(origin, one), BaseOrientation::Forward);
    let mut left_points: Vec<V2<K>> = Vec::new();
    left_points.push(edge.left_apex());
    let mut right_points: Vec<V2<K>> = Vec::new();
    right_points.push(edge.right_apex());
    assert(turns@.take(0) =~= Seq::<i32>::empty());
    assert(models(left_points@) =~= seq![Edge::start().left_apex(apex)]);
    assert(models(right_points@) =~= seq![Edge::start().right_apex(apex)]);
    let mut n: usize = 0;
    while n < turns.len()
        invariant
            n <= turns.len(),
            apex == point.model(),
            edge.well_formed(),
            edge.apex_model() == apex,
            left_points.len() > 0,
            right_points.len() > 0,
            unfold(apex, turns@.take(n as int)) == Some(
                Trace {
                    edge: edge@,
                    left: models(left_points@),
                    right: models(right_points@),
                },
            ),
        decreases turns.len() - n,
    {
        let turn = turns[n];
        let ghost before = Trace {
            edge: edge@,
            left: models(left_points@),
            right: models(right_points@),
        };
        proof {
            assert(turns@.take(n + 1).drop_last() =~= turns@.take(n as int));
            assert(turns@.take(n + 1).last() == turn);
        }
        if turn_degree(turn) > edge.params.max_turn_around(edge.to()) {
            proof {
                assert(unfold(apex, turns@.take(n + 1)) is None);
                lemma_unfold_fails_for_good(apex, turns@, n + 1);
            }
            return false;
        }
        edge.step(turn);
        let left_apex = edge.left_apex();
        let right_apex = edge.right_apex();
        let anchor = edge.from_coords();
        let ghost left = models(left_points@);
        let ghost right = models(right_points@);
        left_points.push(left_apex);
        right_points.push(right_apex);
        proof {
            assert(models(left_points@) =~= left.push(left_apex.model()));
            assert(models(right_points@) =~= right.push(right_apex.model()));
        }
        if turn > 0 {
            left_points.push(anchor);
            proof {
                assert(models(left_points@) =~= left.push(left_apex.model()).push(anchor.model()));
            }
        } else {
            right_points.push(anchor);
            proof {
                assert(models(right_points@) =~= right.push(right_apex.model()).push(
                    anchor.model(),
                ));
            }
        }
        n = n + 1;
    }
    assert(turns@.take(n as int) =~= turns@);
    separates(&left_points, &right_points)
}

} // verus!
