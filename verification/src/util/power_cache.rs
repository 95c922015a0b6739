//! Memoized powers of a fixed base.

use crate::algebra::{lemma_power_one, power, Element, One, Ring};
use vstd::prelude::*;

verus! {

/// The ascending powers of a base, computed on demand and kept: `powers[n]`
/// stands for the base raised to `n`. The sequence only ever grows at its end.
pub struct PowerCache<T: One> {
    base: T,
    powers: Vec<T>,
}

impl<T: One> PowerCache<T> {
    /// The value whose powers are cached.
    pub closed spec fn base(&self) -> T::Model {
        self.base.model()
    }

    /// The powers realized so far, by degree.
    pub closed spec fn realized(&self) -> Seq<T::Model> {
        Seq::new(self.powers@.len(), |n: int| self.powers@[n].model())
    }

    /// Degrees zero and one are realized from the start, and each realized
    /// entry is the power of the base that its index names.
    pub open spec fn well_formed(&self) -> bool {
        &&& self.realized().len() >= 2
        &&& forall|n: int|
            0 <= n < self.realized().len() ==> #[trigger] self.realized()[n] == power(
                self.base(),
                n as nat,
            )
    }

    /// A cache that holds `[one(), base]`.
    pub fn new(base: T) -> (cache: PowerCache<T>)
        ensures
            cache.well_formed(),
            cache.base() == base.model(),
            cache.realized() == seq![<T::Model as Ring>::one(), base.model()],
    {
        let mut powers: Vec<T> = Vec::new();
        powers.push(T::one());
        powers.push(base.duplicate());
        let cache = PowerCache { base, powers };
        proof {
            lemma_power_one(cache.base());
            assert(cache.realized() =~= seq![<T::Model as Ring>::one(), base.model()]);
        }
        cache
    }

    /// The base raised to `degree`. Powers that are not yet realized are
    /// computed one multiplication at a time, each from the one before it,
    /// and appended; those already realized are neither recomputed nor
    /// changed.
    pub fn get(&mut self, degree: u32) -> (value: &T)
        requires
            old(self).well_formed(),
        ensures
            final(self).well_formed(),
            final(self).base() == old(self).base(),
            value.model() == power(old(self).base(), degree as nat),
            final(self).realized().len() == if degree < old(self).realized().len() {
                old(self).realized().len() as int
            } else {
                degree + 1
            },
            final(self).realized().subrange(0, old(self).realized().len() as int) == old(
                self,
            ).realized(),
            final(self).realized()[degree as int] == value.model(),
    {
        let degree = degree as usize;
        while self.powers.len() <= degree
            invariant
                self.well_formed(),
                self.base() == old(self).base(),
                old(self).realized().len() <= self.realized().len(),
                self.realized().len() <= degree + 1 || self.realized().len() == old(
                    self,
                ).realized().len(),
                self.realized().subrange(0, old(self).realized().len() as int) == old(
                    self,
                ).realized(),
            decreases degree + 1 - self.powers.len(),
        {
            let ghost before = self.realized();
            let last = &self.powers[self.powers.len() - 1];
            let next = last.mul(&self.base);
            self.powers.push(next);
            proof {
                assert(self.realized() =~= before.push(next.model()));
                assert(before[before.len() - 1] == power(self.base(), (before.len() - 1) as nat));
                assert(self.realized().subrange(0, old(self).realized().len() as int) =~= old(
                    self,
                ).realized());
            }
        }
        proof {
            assert(self.realized()[degree as int] == self.powers@[degree as int].model());
        }
        &self.powers[degree]
    }
}

/// A power once realized stays what it was: a later state of the same cache
/// holds, at every degree that an earlier state had realized, the same value.
pub proof fn lemma_realized_is_stable<T: One>(
    earlier: PowerCache<T>,
    later: PowerCache<T>,
    degree: nat,
)
    requires
        earlier.well_formed(),
        later.well_formed(),
        later.base() == earlier.base(),
        degree < earlier.realized().len() <= later.realized().len(),
    ensures
        later.realized()[degree as int] == earlier.realized()[degree as int],
        later.realized()[degree as int] == power(earlier.base(), degree),
{
}

} // verus!
