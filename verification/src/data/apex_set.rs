//! Apex points drawn at random from a grid.
//!
//! The grid has two to the `grid_density` cells per unit length. A point is
//! the centre of a cell, which is why its coordinates have one more bit than
//! the cells have: the numerator is odd and the denominator is two to the
//! `grid_density + 1`.

use crate::algebra::{lemma_real_ring, power, Element, ParamsTrait, Ring};
use crate::geometry::Vec2;
use crate::rational::{rational_from_u32, rational_shl};
use rand::Rng;
use vstd::arithmetic::power2::{lemma2_to64, lemma_pow2_adds, lemma_pow2_unfold, pow2};
use vstd::bits::{lemma_u32_pow2_no_overflow, lemma_u32_shl_is_mul};
use vstd::prelude::*;

verus! {

/// `rand::rngs::ThreadRng`, the random number generator of a thread.
#[verifier::external_type_specification]
#[verifier::external_body]
pub struct ExThreadRng(rand::rngs::ThreadRng);

/// `rand::thread_rng`: a handle to the generator of the current thread. It
/// is seeded by the system, and nothing is stated of it.
#[verifier::external_body]
fn thread_rng() -> rand::rngs::ThreadRng {
    rand::thread_rng()
}

/// `Rng::gen::<u32>` on a `ThreadRng`: thirty-two random bits, of which
/// nothing is known beforehand.
#[verifier::external_body]
fn random_block(rng: &mut rand::rngs::ThreadRng) -> u32 {
    rng.gen::<u32>()
}

/// Two to the `n`, as a real number.
pub open spec fn two_to(n: nat) -> real {
    power(2real, n)
}

/// Two to the `n` is the same number among the reals as among the integers,
/// and it is positive.
pub proof fn lemma_two_to(n: nat)
    ensures
        two_to(n) == pow2(n) as real,
        two_to(n) > 0real,
    decreases n,
{
    lemma_real_ring();
    if n == 0 {
        lemma2_to64();
        assert(power(2real, 0) == 1real);
    } else {
        lemma_two_to((n - 1) as nat);
        lemma_pow2_unfold(n);
        assert(power(2real, n) == power(2real, (n - 1) as nat).times(2real));
    }
}

/// The number of a cell, as a real number.
pub open spec fn cell_number(cell: nat) -> real {
    cell as real
}

/// The coordinate of the centre of a cell in the grid of the given density:
/// an odd number of half cells.
pub open spec fn centre_of(cell: nat, grid_density: nat) -> real {
    ((2 * cell + 1) as real) / two_to(grid_density + 1)
}

/// Whether `x` is a whole number below two to the `bits`.
pub open spec fn is_cell(x: real, bits: nat) -> bool {
    exists|cell: nat| cell < pow2(bits) && x == #[trigger] cell_number(cell)
}

/// Whether `x` is the coordinate of the centre of one of the first two to
/// the `bits` cells, in a grid of the given density.
pub open spec fn is_cell_centre(x: real, bits: nat, grid_density: nat) -> bool {
    exists|cell: nat| cell < pow2(bits) && x == #[trigger] centre_of(cell, grid_density)
}

/// The radius that a circle around the centre of a cell needs to cover the
/// cell: 17/24 of the width of the cell, which is more than half its
/// diagonal.
pub open spec fn covering_radius(grid_density: nat) -> real {
    17real / (two_to(grid_density + 1) * 24real)
}

/// A point of the plane with the radius of the disk around it.
pub struct Point {
    pub coords: Vec2<rug::Rational>,
    pub radius: rug::Rational,
}

/// The low `bits` bits of `block`: what is left of it when two to the `bits`
/// is taken out as often as it goes.
pub fn low_bits(block: u32, bits: u32) -> (low: u32)
    requires
        0 < bits < 32,
    ensures
        low == block as nat % pow2(bits as nat),
        low < pow2(bits as nat),
{
    proof {
        lemma_u32_pow2_no_overflow(bits as nat);
        lemma_u32_shl_is_mul(1u32, bits);
    }
    block % (1u32 << bits)
}

/// The number with thirty-two more bits at its low end: `number` times two
/// to the thirty-two, plus `block`.
pub fn append_block(number: &rug::Rational, block: u32) -> (longer: rug::Rational)
    ensures
        longer.model() == number.model() * 4294967296real + block as real,
{
    proof {
        lemma_real_ring();
        lemma_two_to(32);
        lemma2_to64();
    }
    rational_shl(number, 32).add(&rational_from_u32(block))
}

/// The centre of a cell: the cell number doubled, plus one, over the
/// denominator of the grid.
pub fn cell_centre(cell: &rug::Rational, denominator: &rug::Rational) -> (centre: rug::Rational)
    requires
        denominator.model() != 0real,
    ensures
        centre.model() == (2real * cell.model() + 1real) / denominator.model(),
{
    proof {
        lemma_real_ring();
    }
    let one = rational_from_u32(1);
    cell.add(cell).add(&one).div(denominator)
}

/// The radius that covers a cell of the grid of the given density.
pub fn cell_radius(grid_density: u32) -> (radius: rug::Rational)
    requires
        grid_density < u32::MAX,
    ensures
        radius.model() == covering_radius(grid_density as nat),
{
    proof {
        lemma_real_ring();
        lemma_two_to((grid_density + 1) as nat);
    }
    let cell_size = rational_shl(&rational_from_u32(1), grid_density + 1);
    rational_from_u32(17).div(&cell_size.mul(&rational_from_u32(24)))
}

/// A source of random points on the grid.
pub struct RandomGridCoords {
    grid_density: u32,
    rng: rand::rngs::ThreadRng,
    denominator: rug::Rational,
}

impl RandomGridCoords {
    /// The density of the grid, in base-2 log.
    pub closed spec fn grid_density(&self) -> nat {
        self.grid_density as nat
    }

    /// The density leaves room for the extra bit, and the denominator is two
    /// to the density plus one.
    pub closed spec fn well_formed(&self) -> bool {
        &&& 1 <= self.grid_density < u32::MAX
        &&& self.denominator.model() == two_to((self.grid_density + 1) as nat)
    }

    /// A source of points of the grid of the given density, which is at
    /// least one, so that there is a cell upward, and leaves room for the
    /// extra bit.
    pub fn new(grid_density: u32) -> (source: RandomGridCoords)
        requires
            1 <= grid_density < u32::MAX,
        ensures
            source.well_formed(),
            source.grid_density() == grid_density,
    {
        proof {
            lemma_real_ring();
        }
        RandomGridCoords {
            grid_density,
            rng: thread_rng(),
            denominator: rational_shl(&rational_from_u32(1), grid_density + 1),
        }
    }

    /// A random whole number of `bits` bits, put together from random blocks
    /// of thirty-two bits and, where `bits` is no multiple of thirty-two, the
    /// low bits of one more block at the high end.
    pub fn rand_int(&mut self, bits: u32) -> (number: rug::Rational)
        ensures
            is_cell(number.model(), bits as nat),
            final(self).grid_density() == old(self).grid_density(),
            old(self).well_formed() ==> final(self).well_formed(),
    {
        let remainder: u32 = bits % 32;
        let initial: u32 = if remainder > 0 {
            low_bits(random_block(&mut self.rng), remainder)
        } else {
            0
        };
        let block_count: u32 = bits / 32;
        let mut result = rational_from_u32(initial);
        let ghost mut cell: nat = initial as nat;
        proof {
            lemma2_to64();
        }
        let mut n: u32 = 0;
        while n < block_count
            invariant
                n <= block_count,
                bits == 32 * block_count + remainder,
                remainder < 32,
                result.model() == cell_number(cell),
                cell < pow2((remainder + 32 * n) as nat),
                self.grid_density == old(self).grid_density,
                self.denominator == old(self).denominator,
            decreases block_count - n,
        {
            let block = random_block(&mut self.rng);
            result = append_block(&result, block);
            proof {
                let before = (remainder + 32 * n) as nat;
                lemma_pow2_adds(before, 32);
                lemma2_to64();
                assert(pow2(32) == 4294967296);
                assert(pow2(before + 32) == pow2(before) * 4294967296);
                cell = cell * 4294967296 + block as nat;
            }
            n = n + 1;
        }
        result
    }

    /// A random point of the grid: the centre of a cell in the unit interval
    /// across and in the lower half of it upward. There is always one more.
    pub fn next(&mut self) -> (point: Option<Vec2<rug::Rational>>)
        requires
            old(self).well_formed(),
        ensures
            final(self).well_formed(),
            final(self).grid_density() == old(self).grid_density(),
            point matches Some(p) && is_cell_centre(
                p.0.model(),
                old(self).grid_density(),
                old(self).grid_density(),
            ) && is_cell_centre(
                p.1.model(),
                (old(self).grid_density() - 1) as nat,
                old(self).grid_density(),
            ),
    {
        proof {
            lemma_two_to((self.grid_density + 1) as nat);
        }
        let x_cell = self.rand_int(self.grid_density);
        let y_cell = self.rand_int(self.grid_density - 1);
        let x = cell_centre(&x_cell, &self.denominator);
        let y = cell_centre(&y_cell, &self.denominator);
        proof {
            let g = self.grid_density as nat;
            let cx = choose|cell: nat|
                cell < pow2(g) && x_cell.model() == #[trigger] cell_number(cell);
            let cy = choose|cell: nat|
                cell < pow2((g - 1) as nat) && y_cell.model() == #[trigger] cell_number(cell);
            assert(x.model() == centre_of(cx, g));
            assert(y.model() == centre_of(cy, g));
        }
        Some(Vec2(x, y))
    }
}

/// Whether `point` is a point that [`random_points`] may give for the grid
/// of the given density.
pub open spec fn is_grid_point(point: Point, grid_density: nat) -> bool {
    &&& is_cell_centre(point.coords.0.model(), grid_density, grid_density)
    &&& is_cell_centre(point.coords.1.model(), (grid_density - 1) as nat, grid_density)
    &&& point.radius.model() == covering_radius(grid_density)
}

/// `count` random points of the grid of the given density, each with the
/// radius that covers its cell.
pub fn random_points(grid_density: u32, count: u32) -> (points: Vec<Point>)
    requires
        1 <= grid_density < u32::MAX,
    ensures
        points.len() == count,
        forall|i: int|
            0 <= i < points.len() ==> is_grid_point(#[trigger] points[i], grid_density as nat),
{
    let radius = cell_radius(grid_density);
    let mut source = RandomGridCoords::new(grid_density);
    let mut points: Vec<Point> = Vec::new();
    let mut n: u32 = 0;
    while n < count
        invariant
            n <= count,
            points.len() == n,
            source.well_formed(),
            source.grid_density() == grid_density,
            radius.model() == covering_radius(grid_density as nat),
            forall|i: int|
                0 <= i < points.len() ==> is_grid_point(#[trigger] points[i], grid_density as nat),
        decreases count - n,
    {
        match source.next() {
            Some(coords) => {
                points.push(Point { coords, radius: radius.duplicate() });
            },
            None => {},
        }
        n = n + 1;
    }
    points
}

} // verus!
