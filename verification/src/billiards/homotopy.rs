//! Turns, and paths made of them.

use crate::billiards::singularity::BaseSingularity;
use vstd::prelude::*;

verus! {

pub struct Turn {
    /// The base vertex this turn rotates around.
    pub s: BaseSingularity,
    /// The exponent of this turn relative to the rotation generator of the
    /// vertex in a given triangle.
    pub degree: i64,
}

impl Turn {
    pub fn new(degree: i64, around: BaseSingularity) -> (turn: Turn)
        ensures
            turn.s == around,
            turn.degree == degree,
    {
        Turn { s: around, degree }
    }
}

/// A path of turns. It records nothing of the turns yet.
pub struct TurnPath {}

impl TurnPath {
    #[allow(unused_variables)]
    pub fn from_turns(turns: &[Turn]) -> (path: TurnPath) {
        TurnPath {  }
    }
}

} // verus!
