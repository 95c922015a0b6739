//! The walk of the base edge through the unfolding.

use crate::algebra::{Element, One, ParamsTrait, Ring, Zero};
use crate::billiards::singularity::{BaseOrientation, BaseSingularity, BaseValues};
use crate::billiards::rotation::{
    degree, generator, is_above_base, is_turn_bound, lemma_turn_bound_is_last_rise, turn,
};
use crate::billiards::Params;
use crate::reals::{
    lemma_mul_associative, lemma_mul_commutative, lemma_mul_distributes, lemma_zero_product,
};
use crate::vector::{lemma_squared_norm_zero, Complex, V2};
use vstd::prelude::*;

verus! {

/// The state of a walk: where the two base vertices lie, and which of them is
/// the anchor of the edge.
pub struct Edge {
    pub coords: BaseValues<Complex>,
    pub orientation: BaseOrientation,
}

impl Edge {
    /// The edge on the unit interval, read from `B0` to `B1`.
    pub open spec fn start() -> Edge {
        Edge {
            coords: BaseValues(<Complex as Ring>::zero(), <Complex as Ring>::one()),
            orientation: BaseOrientation::Forward,
        }
    }

    pub open spec fn from_coords(self) -> Complex {
        self.coords.at(self.orientation.from())
    }

    pub open spec fn to_coords(self) -> Complex {
        self.coords.at(self.orientation.to())
    }

    /// The vector from the anchor to the free end.
    pub open spec fn offset(self) -> Complex {
        self.to_coords().minus(self.from_coords())
    }

    /// The edge after `by` turns around its free end, in the triangle with the
    /// given apex. The anchor is carried round the free end by the rotation of
    /// that many turns, and the two ends change roles: what was the free end
    /// is the anchor of the new edge.
    pub open spec fn step(self, apex: Complex, by: int) -> Edge {
        let rotation = turn(generator(apex, self.orientation.to()), by);
        let reversed = self.orientation.reversed();
        Edge {
            coords: self.coords.with(
                reversed.to(),
                self.to_coords().plus(rotation.times(self.offset().negated())),
            ),
            orientation: reversed,
        }
    }

    /// The image of `apex` under the map that takes the unit interval to the
    /// segment from the place of `B0` to the place of `B1`.
    pub open spec fn place(self, apex: Complex) -> Complex {
        self.coords.0.plus(apex.times(self.coords.1.minus(self.coords.0)))
    }

    /// The copy of the apex to the left of the edge: the apex itself placed on
    /// the edge, or its mirror image where the anchor is `B1`.
    pub open spec fn left_apex(self, apex: Complex) -> Complex {
        if self.orientation.from() == BaseSingularity::B1 {
            self.place(apex.conjugate())
        } else {
            self.place(apex)
        }
    }

    /// The copy of the apex to the right of the edge: the mirror image of the
    /// apex placed on the edge where the anchor is `B0`, or else the apex
    /// itself.
    pub open spec fn right_apex(self, apex: Complex) -> Complex {
        if self.orientation.from() == BaseSingularity::B0 {
            self.place(apex.conjugate())
        } else {
            self.place(apex)
        }
    }
}

/// Two steps give the orientation back, whatever the turns.
pub proof fn lemma_two_steps_keep_orientation(edge: Edge, apex: Complex, first: int, second: int)
    ensures
        edge.step(apex, first).step(apex, second).orientation == edge.orientation,
{
}

/// A step leaves the free end where it is and makes it the anchor.
pub proof fn lemma_step_keeps_pivot(edge: Edge, apex: Complex, by: int)
    ensures
        edge.step(apex, by).from_coords() == edge.to_coords(),
        edge.step(apex, by).orientation == edge.orientation.reversed(),
{
}

/// A rotation that does not lie on the real axis moves every point but the
/// pivot: `rotation * d == d` only for `d` zero.
pub proof fn lemma_rotation_moves(rotation: Complex, d: Complex)
    requires
        rotation.im != 0real,
        rotation.times(d) == d,
    ensures
        d == <Complex as Ring>::zero(),
{
    let (a, b) = (rotation.re, rotation.im);
    let (x, y) = (d.re, d.im);
    assert(a * x - b * y == x && a * y + b * x == y);
    lemma_mul_distributes(y, a * x, b * y);
    lemma_mul_distributes(x, a * y, b * x);
    lemma_mul_associative(a, x, y);
    lemma_mul_associative(a, y, x);
    lemma_mul_associative(b, y, y);
    lemma_mul_associative(b, x, x);
    lemma_mul_commutative(x, y);
    assert(a * (x * y) - b * (y * y) == x * y);
    assert(a * (x * y) + b * (x * x) == x * y);
    lemma_mul_distributes(b, x * x, y * y);
    lemma_mul_commutative(b, x * x + y * y);
    lemma_zero_product(x * x + y * y, b);
    lemma_squared_norm_zero(d);
}

/// Within the turn bound, a step of at least one turn moves the anchor of an
/// edge whose ends are apart, in a triangle with its apex above the base.
pub proof fn lemma_step_moves_anchor(edge: Edge, apex: Complex, by: int, bound: nat)
    requires
        is_above_base(apex),
        is_turn_bound(generator(apex, edge.orientation.to()), bound),
        1 <= degree(by) <= bound,
        edge.from_coords() != edge.to_coords(),
    ensures
        edge.step(apex, by).to_coords() != edge.from_coords(),
{
    let g = generator(apex, edge.orientation.to());
    lemma_turn_bound_is_last_rise(apex, edge.orientation.to(), bound);
    let rotation = turn(g, by);
    assert(turn(g, degree(by) as int).im > 0real);
    assert(rotation.im != 0real);
    let back = edge.offset().negated();
    assert(back != <Complex as Ring>::zero());
    let moved = edge.step(apex, by).to_coords();
    assert(moved == edge.to_coords().plus(rotation.times(back)));
    if moved == edge.from_coords() {
        assert(rotation.times(back) == back);
        lemma_rotation_moves(rotation, back);
    }
}

/// Turning back is no way back. Under the conditions of
/// [`lemma_step_moves_anchor`], a step followed by the step of as many turns
/// the other way leaves the edge elsewhere: the second step pivots on the
/// other end, and the end that the first step moved stays where that step
/// put it.
pub proof fn lemma_turning_back_is_no_return(edge: Edge, apex: Complex, by: int, bound: nat)
    requires
        is_above_base(apex),
        is_turn_bound(generator(apex, edge.orientation.to()), bound),
        1 <= degree(by) <= bound,
        edge.from_coords() != edge.to_coords(),
    ensures
        edge.step(apex, by).step(apex, -by) != edge,
        edge.step(apex, by).step(apex, -by).from_coords() == edge.step(apex, by).to_coords(),
        edge.step(apex, by).step(apex, -by).from_coords() != edge.from_coords(),
{
    lemma_step_moves_anchor(edge, apex, by, bound);
}

/// The two copies of the apex change sides when the edge is read the other
/// way.
pub proof fn lemma_apex_sides_swap(edge: Edge, apex: Complex)
    ensures
        (Edge { orientation: edge.orientation.reversed(), ..edge }).left_apex(apex)
            == edge.right_apex(apex),
        (Edge { orientation: edge.orientation.reversed(), ..edge }).right_apex(apex)
            == edge.left_apex(apex),
{
}

/// The base edge of the triangle as the walk moves it. It holds the
/// parameters of its triangle exclusively for as long as the walk lasts.
pub struct BaseEdge<'a, R: ParamsTrait> {
    pub params: &'a mut Params<R>,
    pub coords: BaseValues<V2<R>>,
    pub orientation: BaseOrientation,
}

impl<'a, R: ParamsTrait> View for BaseEdge<'a, R> {
    type V = Edge;

    open spec fn view(&self) -> Edge {
        Edge {
            coords: BaseValues(self.coords.0.model(), self.coords.1.model()),
            orientation: self.orientation,
        }
    }
}

impl<'a, R: ParamsTrait> BaseEdge<'a, R> {
    /// The apex of the triangle that the edge walks in.
    pub open spec fn apex_model(&self) -> Complex {
        self.params.apex_model()
    }

    /// Whether the parameters that the edge holds are well formed.
    pub open spec fn well_formed(&self) -> bool {
        self.params.well_formed()
    }

    /// An edge with the given ends and orientation, in the triangle of
    /// `params`. The edge holds the very parameters it is given: they are
    /// what the caller finds again when the walk is over.
    pub fn new(
        params: &'a mut Params<R>,
        coords: BaseValues<V2<R>>,
        orientation: BaseOrientation,
    ) -> (edge: BaseEdge<'a, R>)
        ensures
            *edge.params == *old(params),
            *final(edge.params) == *final(params),
            edge@ == (Edge {
                coords: BaseValues(coords.0.model(), coords.1.model()),
                orientation,
            }),
    {
        BaseEdge { params, coords, orientation }
    }

    /// The edge at the start of a walk: on the unit interval, from `B0` at the
    /// origin to `B1` at the real unit.
    pub fn new_default(params: &'a mut Params<R>) -> (edge: BaseEdge<'a, R>)
        ensures
            *edge.params == *old(params),
            *final(edge.params) == *final(params),
            edge@ == Edge::start(),
    {
        let origin: V2<R> = V2::zero();
        let one: V2<R> = V2::one();
        Self::new(params, BaseValues(origin, one), BaseOrientation::Forward)
    }

    /// The vector from the anchor to the free end.
    pub fn offset(&self) -> (offset: V2<R>)
        ensures
            offset.model() == self@.offset(),
    {
        self.to_coords().sub(&self.from_coords())
    }

    /// Turns the edge `turn` times around its free end. Whether that many
    /// turns are within the turn bound of the free end is not asked here: that
    /// is for the caller to see to. The parameters stay those of the same
    /// triangle; only their memo of powers may grow.
    pub fn step(&mut self, turn: i32)
        requires
            old(self).well_formed(),
        ensures
            final(self).well_formed(),
            final(self).apex_model() == old(self).apex_model(),
            *final(final(self).params) == *final(old(self).params),
            final(self)@ == old(self)@.step(old(self).apex_model(), turn as int),
    {
        let turn_vec = self.params.turn_vec(self.to(), turn);
        let new_offset = turn_vec.mul(&self.offset().neg());

        let new_to_coords = self.to_coords().add(&new_offset);
        self.orientation = self.orientation.reversed();
        let to = self.to();
        *self.coords.index_mut(to) = new_to_coords;
    }

    /// The copy of the apex that lies to the left of the edge.
    pub fn left_apex(&self) -> (apex: V2<R>)
        ensures
            apex.model() == self@.left_apex(self.apex_model()),
    {
        let mut apex = self.params.apex().duplicate();
        if self.orientation.from() == BaseSingularity::B1 {
            apex = apex.complex_conjugate();
        }
        let offset = self.coords.index(BaseSingularity::B1).sub(
            self.coords.index(BaseSingularity::B0),
        );
        self.coords.index(BaseSingularity::B0).add(&apex.mul(&offset))
    }

    /// The copy of the apex that lies to the right of the edge.
    pub fn right_apex(&self) -> (apex: V2<R>)
        ensures
            apex.model() == self@.right_apex(self.apex_model()),
    {
        let mut apex = self.params.apex().duplicate();
        if self.orientation.from() == BaseSingularity::B0 {
            apex = apex.complex_conjugate();
        }
        let offset = self.coords.index(BaseSingularity::B1).sub(
            self.coords.index(BaseSingularity::B0),
        );
        self.coords.index(BaseSingularity::B0).add(&apex.mul(&offset))
    }

    /// The anchor of the edge.
    pub fn from(&self) -> (s: BaseSingularity)
        ensures
            s == self@.orientation.from(),
    {
        self.orientation.from()
    }

    /// Where the anchor lies.
    pub fn from_coords(&self) -> (coords: V2<R>)
        ensures
            coords.model() == self@.from_coords(),
    {
        self.coords.index(self.orientation.from()).duplicate()
    }

    /// The free end of the edge.
    pub fn to(&self) -> (s: BaseSingularity)
        ensures
            s == self@.orientation.to(),
    {
        self.orientation.to()
    }

    /// Where the free end lies.
    pub fn to_coords(&self) -> (coords: V2<R>)
        ensures
            coords.model() == self@.to_coords(),
    {
        self.coords.index(self.orientation.to()).duplicate()
    }
}

} // verus!
