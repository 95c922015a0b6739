//! Rotation parameters of a triangle, and the walk of its base edge.

pub mod base_edge;
pub mod homotopy;
pub mod rotation;
pub mod singularity;
pub mod turn_path;

use crate::algebra::{power, Element, One, ParamsTrait, SquaredNorm, Zero};
use crate::billiards::rotation::{
    generator, is_degenerate, is_turn_bound, lemma_turn_bound_unique, turn, turn_bound,
    turn_degree,
};
use crate::billiards::singularity::{BaseSingularity, BaseValues};
use crate::util::power_cache::PowerCache;
use crate::vector::{lemma_squared_norm_zero, Complex, V2};
use vstd::prelude::*;

verus! {

/// Why a value could not be built.
#[derive(Clone, Copy, PartialEq, Eq, Structural, Debug)]
pub enum GeometryError {
    /// The apex lies on a base vertex.
    DegenerateGeometry,
}

/// What is computed once for an apex: the rotation generator of each base
/// vertex with its powers, and the turn bound of each.
pub struct Params<K: ParamsTrait> {
    _apex: V2<K>,
    _rotations: BaseValues<PowerCache<V2<K>>>,
    _max_turns: BaseValues<u32>,
}

impl<K: ParamsTrait> Params<K> {
    /// The apex that the parameters belong to.
    pub closed spec fn apex_model(&self) -> Complex {
        self._apex.model()
    }

    /// The apex is no base vertex, each cache holds the powers of its vertex's
    /// generator, and each stored bound is the turn bound of that generator.
    pub closed spec fn well_formed(&self) -> bool {
        &&& !is_degenerate(self.apex_model())
        &&& self._rotations.0.well_formed()
        &&& self._rotations.1.well_formed()
        &&& self._rotations.0.base() == generator(self.apex_model(), BaseSingularity::B0)
        &&& self._rotations.1.base() == generator(self.apex_model(), BaseSingularity::B1)
        &&& is_turn_bound(
            generator(self.apex_model(), BaseSingularity::B0),
            self._max_turns.0 as nat,
        )
        &&& is_turn_bound(
            generator(self.apex_model(), BaseSingularity::B1),
            self._max_turns.1 as nat,
        )
    }

    /// Well-formed parameters belong to an apex that is no base vertex.
    pub proof fn lemma_apex_is_no_vertex(&self)
        requires
            self.well_formed(),
        ensures
            !is_degenerate(self.apex_model()),
    {
    }

    /// The parameters of the triangle with the given apex, which must not lie
    /// on a base vertex: there an edge has squared norm zero and no rotation.
    pub fn new(apex: V2<K>) -> (params: Params<K>)
        requires
            !is_degenerate(apex.model()),
        ensures
            params.well_formed(),
            params.apex_model() == apex.model(),
    {
        let origin: V2<K> = V2::zero();
        let one: V2<K> = V2::one();
        let bases = BaseValues(origin, one);

        let left_edge = apex.duplicate();
        let right_edge = bases.index(BaseSingularity::B1).sub(&apex);
        let right_norm = right_edge.squared_norm();
        let left_norm = apex.squared_norm();
        proof {
            lemma_squared_norm_zero(left_edge.model());
            lemma_squared_norm_zero(right_edge.model());
        }
        let left_factor = left_edge.mul(&left_edge).div(&V2::from_real(left_norm));
        let right_factor = right_edge.mul(&right_edge).div(
            &V2::from_real(right_norm),
        ).complex_conjugate();

        let left_powers = PowerCache::new(left_factor);
        let right_powers = PowerCache::new(right_factor);
        let mut rotations = BaseValues(left_powers, right_powers);
        let left_max = Self::_max_turn(rotations.index_mut(BaseSingularity::B0));
        let right_max = Self::_max_turn(rotations.index_mut(BaseSingularity::B1));
        let max_turns = BaseValues(left_max, right_max);
        Params { _apex: apex, _rotations: rotations, _max_turns: max_turns }
    }

    /// The parameters of the triangle with the given apex, or the error where
    /// the apex lies on a base vertex.
    pub fn try_new(apex: V2<K>) -> (made: Result<Params<K>, GeometryError>)
        ensures
            is_degenerate(apex.model()) <==> made == Err::<Params<K>, GeometryError>(
                GeometryError::DegenerateGeometry,
            ),
            made matches Ok(params) ==> params.well_formed() && params.apex_model()
                == apex.model(),
    {
        let origin: V2<K> = V2::zero();
        let one: V2<K> = V2::one();
        if apex.equals(&origin) || apex.equals(&one) {
            Err(GeometryError::DegenerateGeometry)
        } else {
            Ok(Self::new(apex))
        }
    }

    /// Searches the turn bound of the cached base: starting at one, the count
    /// goes up while the power of the next degree has a strictly positive
    /// second component, and no further than the largest count that fits.
    fn _max_turn(z: &mut PowerCache<V2<K>>) -> (turn: u32)
        requires
            old(z).well_formed(),
        ensures
            final(z).well_formed(),
            final(z).base() == old(z).base(),
            is_turn_bound(old(z).base(), turn as nat),
    {
        let zero = K::zero();
        let mut turn: u32 = 1;
        while turn < u32::MAX
            invariant
                z.well_formed(),
                z.base() == old(z).base(),
                zero.model() == 0real,
                1 <= turn,
                forall|k: nat| 2 <= k <= turn ==> (#[trigger] power(z.base(), k)).im > 0real,
            ensures
                z.well_formed(),
                z.base() == old(z).base(),
                is_turn_bound(z.base(), turn as nat),
            decreases u32::MAX - turn,
        {
            let next_turn: u32 = turn + 1;
            let next = z.get(next_turn);
            if !zero.less_than(&next.1) {
                break ;
            }
            turn = next_turn;
        }
        turn
    }

    /// The turn bound of the generator of `s`.
    pub fn max_turn_around(&self, s: BaseSingularity) -> (bound: u32)
        requires
            self.well_formed(),
        ensures
            is_turn_bound(generator(self.apex_model(), s), bound as nat),
            bound == turn_bound(generator(self.apex_model(), s)),
    {
        let bound = *self._max_turns.index(s);
        proof {
            lemma_turn_bound_unique(
                generator(self.apex_model(), s),
                bound as nat,
                bound as nat,
            );
        }
        bound
    }

    /// The apex that the parameters were made for.
    pub fn apex(&self) -> (apex: &V2<K>)
        ensures
            apex.model() == self.apex_model(),
    {
        &self._apex
    }

    /// The rotation of `by` turns around `around`. Only the memo of powers
    /// grows: the parameters stand for the same triangle afterwards.
    pub fn turn_vec(&mut self, around: BaseSingularity, by: i32) -> (rotation: V2<K>)
        requires
            old(self).well_formed(),
        ensures
            final(self).well_formed(),
            final(self).apex_model() == old(self).apex_model(),
            rotation.model() == turn(generator(old(self).apex_model(), around), by as int),
    {
        let power = self._rotations.index_mut(around).get(turn_degree(by)).duplicate();
        if by < 0 {
            power.complex_conjugate()
        } else {
            power
        }
    }
}

} // verus!
