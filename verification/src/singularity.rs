//! The two ends of an edge, and the direction in which the edge is read.

use vstd::prelude::*;

verus! {

#[derive(Clone, Copy, PartialEq, Eq, Structural, Debug)]
pub enum Singularity {
    S0,
    S1,
}

/// A value attached to one of the two singularities.
pub struct Value<T> {
    s: Singularity,
    v: T,
}

impl<T> Value<T> {
    pub fn new(s: Singularity, v: T) -> (value: Value<T>)
        ensures
            value.singularity() == s,
            value.value() == v,
    {
        Value { s, v }
    }

    pub closed spec fn singularity(self) -> Singularity {
        self.s
    }

    pub closed spec fn value(self) -> T {
        self.v
    }
}

/// One value for each singularity: the first for `S0`, the second for `S1`.
pub struct Pair<T>(pub T, pub T);

impl<T> Pair<T> {
    /// The value that the pair holds for `s`.
    pub open spec fn at(self, s: Singularity) -> T {
        match s {
            Singularity::S0 => self.0,
            Singularity::S1 => self.1,
        }
    }

    pub fn index(&self, s: Singularity) -> (value: &T)
        ensures
            *value == self.at(s),
    {
        match s {
            Singularity::S0 => &self.0,
            Singularity::S1 => &self.1,
        }
    }

    pub fn index_mut(&mut self, s: Singularity) -> (value: &mut T)
        ensures
            *value == old(self).at(s),
            final(self).at(s) == *final(value),
            s == Singularity::S0 ==> final(self).1 == old(self).1,
            s == Singularity::S1 ==> final(self).0 == old(self).0,
    {
        match s {
            Singularity::S0 => &mut self.0,
            Singularity::S1 => &mut self.1,
        }
    }
}

impl<T: Clone> Pair<T> {
    /// A pair that holds the given value at its singularity and a clone of
    /// what this pair holds at the other one.
    pub fn with_value(&self, value: Value<T>) -> (pair: Pair<T>)
        ensures
            pair.at(value.singularity()) == value.value(),
            value.singularity() == Singularity::S0 ==> cloned(self.1, pair.1),
            value.singularity() == Singularity::S1 ==> cloned(self.0, pair.0),
    {
        match value.s {
            Singularity::S0 => Pair(value.v, self.1.clone()),
            Singularity::S1 => Pair(self.0.clone(), value.v),
        }
    }
}

#[derive(Clone, Copy, PartialEq, Eq, Structural, Debug)]
pub enum Orientation {
    /// From `S0` to `S1`.
    Forward,
    /// From `S1` to `S0`.
    Backward,
}

impl Orientation {
    pub open spec fn spec_to(&self) -> Singularity {
        match self {
            Orientation::Forward => Singularity::S1,
            Orientation::Backward => Singularity::S0,
        }
    }

    pub open spec fn spec_from(&self) -> Singularity {
        match self {
            Orientation::Forward => Singularity::S0,
            Orientation::Backward => Singularity::S1,
        }
    }

    pub open spec fn spec_reversed(&self) -> Orientation {
        match self {
            Orientation::Forward => Orientation::Backward,
            Orientation::Backward => Orientation::Forward,
        }
    }

    /// The singularity that the edge points to.
    #[verifier::when_used_as_spec(spec_to)]
    pub fn to(&self) -> (s: Singularity)
        ensures
            s == self.spec_to(),
    {
        match self {
            Orientation::Forward => Singularity::S1,
            Orientation::Backward => Singularity::S0,
        }
    }

    /// The singularity that the edge starts from.
    #[verifier::when_used_as_spec(spec_from)]
    pub fn from(&self) -> (s: Singularity)
        ensures
            s == self.spec_from(),
    {
        match self {
            Orientation::Forward => Singularity::S0,
            Orientation::Backward => Singularity::S1,
        }
    }

    /// The same edge read the other way.
    #[verifier::when_used_as_spec(spec_reversed)]
    pub fn reversed(&self) -> (o: Orientation)
        ensures
            o == self.spec_reversed(),
    {
        match self {
            Orientation::Forward => Orientation::Backward,
            Orientation::Backward => Orientation::Forward,
        }
    }
}

/// Reversing swaps the two ends, and reversing twice gives the edge back.
pub proof fn lemma_orientation_reversed(o: Orientation)
    ensures
        o.reversed().to() == o.from(),
        o.reversed().from() == o.to(),
        o.reversed().reversed() == o,
        o.from() != o.to(),
{
}

} // verus!
