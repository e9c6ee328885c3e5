//! Fixed-point quantities: positions, times and scale factors are held as
//! integers so that every comparison on them is exact.

use vstd::prelude::*;

verus! {

/// Thousandths per layout unit: the position `(1.5, 2.0)` is held as
/// `Vec2 { x: 1500, y: 2000 }`.
pub const UNIT: i64 = 1000;

/// Microseconds per second: times are held in microseconds.
pub const SECOND: i64 = 1_000_000;

/// The scale factor 1.0; scale factors are held in thousandths.
pub const DPI_FACTOR_ONE: u32 = 1000;

/// A point of the plane, each coordinate in thousandths of a layout unit.
#[derive(Clone, Copy, Debug, PartialEq, Eq, Structural)]
pub struct Vec2 {
    pub x: i64,
    pub y: i64,
}

impl Vec2 {
    /// The origin.
    pub fn zero() -> (v: Vec2)
        ensures
            v == (Vec2 { x: 0, y: 0 }),
    {
        Vec2 { x: 0, y: 0 }
    }

    /// Whether the distance between the two points is less than `radius`
    /// thousandths of a unit.
    pub open spec fn closer_than(self, other: Vec2, radius: int) -> bool {
        let dx = self.x - other.x;
        let dy = self.y - other.y;
        dx * dx + dy * dy < radius * radius
    }

    /// Whether the distance between the two points is less than `radius`
    /// thousandths of a unit.
    pub fn is_closer_than(&self, other: &Vec2, radius: u32) -> (r: bool)
        ensures
            r == self.closer_than(*other, radius as int),
    {
        let dx: i128 = self.x as i128 - other.x as i128;
        let dy: i128 = self.y as i128 - other.y as i128;
        let limit: i128 = radius as i128;
        if dx >= limit || dx <= -limit || dy >= limit || dy <= -limit {
            proof {
                lemma_square_bound(dx as int, limit as int);
                lemma_square_bound(dy as int, limit as int);
            }
            return false;
        }
        proof {
            lemma_square_below(dx as int, limit as int);
            lemma_square_below(dy as int, limit as int);
            lemma_square_below(limit as int, 0x1_0000_0000);
        }
        dx * dx + dy * dy < limit * limit
    }
}

proof fn lemma_square_bound(d: int, limit: int)
    by (nonlinear_arith)
    requires
        0 <= limit,
    ensures
        d * d >= 0,
        d >= limit || d <= -limit ==> d * d >= limit * limit,
{
}

proof fn lemma_square_below(d: int, limit: int)
    by (nonlinear_arith)
    requires
        -limit <= d <= limit,
    ensures
        0 <= d * d <= limit * limit,
{
}

} // verus!
