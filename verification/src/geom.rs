//! Integer world geometry: positions, squared distances and the linear
//! interpolation used to animate entities between two anchor points.
//!
//! The simulation works in fixed-point world units. Every stored position
//! stays within `POS_LIMIT` of the origin, which keeps all of the distance
//! and interpolation arithmetic far away from overflow.

use vstd::prelude::*;

verus! {

use vstd::arithmetic::div_mod::{lemma_div_is_ordered, lemma_div_pos_is_pos, lemma_div_by_multiple};
use vstd::arithmetic::mul::lemma_mul_inequality;

/// Bound on every coordinate the simulation stores.
pub const POS_LIMIT: i64 = 2_000_000;

/// Bound on the pointer coordinates the embedding program may report.
pub const PTR_LIMIT: i64 = 1_000_000;

/// Bound on every timer duration and tick delta, in milliseconds.
pub const TIME_LIMIT: u64 = 1_000_000_000;

/// A position in world space, in fixed-point world units.
#[derive(Clone, Copy, PartialEq, Eq, Structural, Debug)]
pub struct Vec2i {
    pub x: i64,
    pub y: i64,
}

impl Vec2i {
    /// The coordinate bound every stored position satisfies.
    pub open spec fn in_bounds(self) -> bool {
        -POS_LIMIT <= self.x <= POS_LIMIT && -POS_LIMIT <= self.y <= POS_LIMIT
    }

    /// The tighter bound on pointer positions and zone anchors, which leaves
    /// room for spawn jitter without leaving `in_bounds`.
    pub open spec fn in_ptr_bounds(self) -> bool {
        -PTR_LIMIT <= self.x <= PTR_LIMIT && -PTR_LIMIT <= self.y <= PTR_LIMIT
    }

    /// Squared Euclidean distance between two positions.
    pub open spec fn spec_dist_sq(self, other: Vec2i) -> int {
        (self.x - other.x) * (self.x - other.x) + (self.y - other.y) * (self.y - other.y)
    }

    /// Computes the squared distance to `other`.
    pub fn dist_sq(&self, other: &Vec2i) -> (r: i64)
        requires
            self.in_bounds(),
            other.in_bounds(),
        ensures
            r == self.spec_dist_sq(*other),
    {
        let dx: i64 = self.x - other.x;
        let dy: i64 = self.y - other.y;
        assert(dx * dx + dy * dy <= 2 * 16_000_000_000_000) by (nonlinear_arith)
            requires
                -4_000_000 <= dx <= 4_000_000,
                -4_000_000 <= dy <= 4_000_000,
        ;
        assert(dx * dx >= 0 && dy * dy >= 0) by (nonlinear_arith);
        dx * dx + dy * dy
    }

    /// Translates by `(dx, dy)`.
    pub fn offset(&self, dx: i64, dy: i64) -> (r: Vec2i)
        requires
            -POS_LIMIT <= self.x + dx <= POS_LIMIT,
            -POS_LIMIT <= self.y + dy <= POS_LIMIT,
        ensures
            r.x == self.x + dx,
            r.y == self.y + dy,
            r.in_bounds(),
    {
        Vec2i { x: self.x + dx, y: self.y + dy }
    }
}

/// One coordinate of the linear interpolation from `f` toward `g` after
/// `e` of `d` elapsed time units, rounding the travelled distance toward
/// zero.
pub open spec fn lerp1(f: int, g: int, e: int, d: int) -> int
    recommends
        0 <= e <= d,
        0 < d,
{
    if g >= f {
        f + (g - f) * e / d
    } else {
        f - (f - g) * e / d
    }
}

/// The interpolated coordinate never leaves the interval spanned by its
/// endpoints, and reaches `g` exactly when the time is up.
pub proof fn lemma_lerp1_bounds(f: int, g: int, e: int, d: int)
    requires
        0 <= e <= d,
        0 < d,
    ensures
        f <= g ==> f <= lerp1(f, g, e, d) <= g,
        f > g ==> g <= lerp1(f, g, e, d) <= f,
        e == d ==> lerp1(f, g, e, d) == g,
        e == 0 ==> lerp1(f, g, e, d) == f,
{
    let a: int = if g >= f { g - f } else { f - g };
    lemma_div_pos_is_pos(a * e, d);
    lemma_mul_inequality(e, d, a);
    assert(a * e == e * a) by (nonlinear_arith);
    assert(a * d == d * a) by (nonlinear_arith);
    lemma_div_is_ordered(a * e, a * d, d);
    lemma_div_by_multiple(a, d);
    if e == 0 {
        assert(a * 0 == 0) by (nonlinear_arith);
    }
}

/// Interpolates one coordinate from `f` toward `g`, `e` of `d` time units in.
pub fn lerp_coord(f: i64, g: i64, e: u64, d: u64) -> (r: i64)
    requires
        -POS_LIMIT <= f <= POS_LIMIT,
        -POS_LIMIT <= g <= POS_LIMIT,
        0 < d <= TIME_LIMIT,
        e <= d,
    ensures
        r == lerp1(f as int, g as int, e as int, d as int),
        -POS_LIMIT <= r <= POS_LIMIT,
{
    proof {
        lemma_lerp1_bounds(f as int, g as int, e as int, d as int);
    }
    if g >= f {
        let diff: u64 = (g - f) as u64;
        assert(diff * e <= 4_000_000 * 1_000_000_000) by (nonlinear_arith)
            requires
                diff <= 4_000_000,
                e <= 1_000_000_000,
        ;
        let step: u64 = diff * e / d;
        f + step as i64
    } else {
        let diff: u64 = (f - g) as u64;
        assert(diff * e <= 4_000_000 * 1_000_000_000) by (nonlinear_arith)
            requires
                diff <= 4_000_000,
                e <= 1_000_000_000,
        ;
        let step: u64 = diff * e / d;
        f - step as i64
    }
}

/// Interpolates a position from `from` toward `goto`, `e` of `d` time
/// units in, one coordinate at a time.
pub open spec fn spec_lerp(from: Vec2i, goto: Vec2i, e: int, d: int) -> Vec2i {
    Vec2i { x: lerp1(from.x as int, goto.x as int, e, d) as i64, y: lerp1(
        from.y as int,
        goto.y as int,
        e,
        d,
    ) as i64 }
}

/// Interpolates a position from `from` toward `goto`.
pub fn lerp(from: &Vec2i, goto: &Vec2i, e: u64, d: u64) -> (r: Vec2i)
    requires
        from.in_bounds(),
        goto.in_bounds(),
        0 < d <= TIME_LIMIT,
        e <= d,
    ensures
        r == spec_lerp(*from, *goto, e as int, d as int),
        r.in_bounds(),
        e == d ==> r == *goto,
{
    proof {
        lemma_lerp1_bounds(from.x as int, goto.x as int, e as int, d as int);
        lemma_lerp1_bounds(from.y as int, goto.y as int, e as int, d as int);
    }
    Vec2i { x: lerp_coord(from.x, goto.x, e, d), y: lerp_coord(from.y, goto.y, e, d) }
}

} // verus!
