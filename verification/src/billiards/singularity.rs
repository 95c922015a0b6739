//! The vertices of the unfolded quadrilateral.
//!
//! The base vertices are `B0` and `B1`. The apex is `A0`, and its mirror image
//! across the base is `A1`, so that the quadrilateral, counterclockwise, is
//! `B0`, `A1`, `B1`, `A0`, and the triangle itself is `B0`, `B1`, `A0`.

use vstd::prelude::*;
use vstd::std_specs::convert::FromSpecImpl;

verus! {

#[derive(Clone, Copy, PartialEq, Eq, Structural, Debug)]
pub enum BaseSingularity {
    B0,
    B1,
}

/// One value for each base vertex: the first for `B0`, the second for `B1`.
#[derive(Debug)]
pub struct BaseValues<T>(pub T, pub T);

impl<T> BaseValues<T> {
    /// The value held for `s`.
    pub open spec fn at(self, s: BaseSingularity) -> T {
        match s {
            BaseSingularity::B0 => self.0,
            BaseSingularity::B1 => self.1,
        }
    }

    /// The same values, but for `value` at `s`.
    pub open spec fn with(self, s: BaseSingularity, value: T) -> BaseValues<T> {
        match s {
            BaseSingularity::B0 => BaseValues(value, self.1),
            BaseSingularity::B1 => BaseValues(self.0, value),
        }
    }

    pub fn index(&self, s: BaseSingularity) -> (value: &T)
        ensures
            *value == self.at(s),
    {
        match s {
            BaseSingularity::B0 => &self.0,
            BaseSingularity::B1 => &self.1,
        }
    }

    pub fn index_mut(&mut self, s: BaseSingularity) -> (value: &mut T)
        ensures
            *value == old(self).at(s),
            *final(self) == old(self).with(s, *final(value)),
    {
        match s {
            BaseSingularity::B0 => &mut self.0,
            BaseSingularity::B1 => &mut self.1,
        }
    }
}

#[derive(Clone, Copy, PartialEq, Eq, Structural, Debug)]
pub enum ApexSingularity {
    A0,
    A1,
}

#[derive(Clone, Copy, PartialEq, Eq, Structural, Debug)]
pub enum Singularity {
    B0,
    B1,
    A0,
    A1,
}

impl From<BaseSingularity> for Singularity {
    fn from(s: BaseSingularity) -> (vertex: Singularity) {
        match s {
            BaseSingularity::B0 => Singularity::B0,
            BaseSingularity::B1 => Singularity::B1,
        }
    }
}

impl FromSpecImpl<BaseSingularity> for Singularity {
    open spec fn obeys_from_spec() -> bool {
        true
    }

    open spec fn from_spec(s: BaseSingularity) -> Singularity {
        match s {
            BaseSingularity::B0 => Singularity::B0,
            BaseSingularity::B1 => Singularity::B1,
        }
    }
}

impl From<ApexSingularity> for Singularity {
    fn from(s: ApexSingularity) -> (vertex: Singularity) {
        match s {
            ApexSingularity::A0 => Singularity::A0,
            ApexSingularity::A1 => Singularity::A1,
        }
    }
}

impl FromSpecImpl<ApexSingularity> for Singularity {
    open spec fn obeys_from_spec() -> bool {
        true
    }

    open spec fn from_spec(s: ApexSingularity) -> Singularity {
        match s {
            ApexSingularity::A0 => Singularity::A0,
            ApexSingularity::A1 => Singularity::A1,
        }
    }
}

/// The direction in which the base edge is read: from its anchor to its free
/// end.
#[derive(Clone, Copy, PartialEq, Eq, Structural, Debug)]
pub enum BaseOrientation {
    /// From `B0` to `B1`.
    Forward,
    /// From `B1` to `B0`.
    Backward,
}

impl BaseOrientation {
    pub open spec fn spec_to(&self) -> BaseSingularity {
        match self {
            BaseOrientation::Forward => BaseSingularity::B1,
            BaseOrientation::Backward => BaseSingularity::B0,
        }
    }

    pub open spec fn spec_from(&self) -> BaseSingularity {
        match self {
            BaseOrientation::Forward => BaseSingularity::B0,
            BaseOrientation::Backward => BaseSingularity::B1,
        }
    }

    pub open spec fn spec_reversed(&self) -> BaseOrientation {
        match self {
            BaseOrientation::Forward => BaseOrientation::Backward,
            BaseOrientation::Backward => BaseOrientation::Forward,
        }
    }

    /// The free end of the edge.
    #[verifier::when_used_as_spec(spec_to)]
    pub fn to(&self) -> (s: BaseSingularity)
        ensures
            s == self.spec_to(),
    {
        match self {
            BaseOrientation::Forward => BaseSingularity::B1,
            BaseOrientation::Backward => BaseSingularity::B0,
        }
    }

    /// The anchor of the edge.
    #[verifier::when_used_as_spec(spec_from)]
    pub fn from(&self) -> (s: BaseSingularity)
        ensures
            s == self.spec_from(),
    {
        match self {
            BaseOrientation::Forward => BaseSingularity::B0,
            BaseOrientation::Backward => BaseSingularity::B1,
        }
    }

    /// The same edge read the other way: the only transition there is.
    #[verifier::when_used_as_spec(spec_reversed)]
    pub fn reversed(&self) -> (o: BaseOrientation)
        ensures
            o == self.spec_reversed(),
    {
        match self {
            BaseOrientation::Forward => BaseOrientation::Backward,
            BaseOrientation::Backward => BaseOrientation::Forward,
        }
    }
}

/// Reversing swaps anchor and free end, and reversing twice gives the
/// orientation back.
pub proof fn lemma_base_orientation_reversed(o: BaseOrientation)
    ensures
        o.reversed().to() == o.from(),
        o.reversed().from() == o.to(),
        o.reversed().reversed() == o,
        o.from() != o.to(),
{
}

} // verus!
