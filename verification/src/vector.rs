//! Points of the world and straight-line walking, in thousandths of a unit.

use vstd::prelude::*;

verus! {

/// One world unit, in thousandths.
pub const UNIT: i32 = 1000;

/// A person no farther from its destination than this has arrived: half a
/// unit.
pub const ARRIVAL_DISTANCE: i32 = 500;

/// The square of [`ARRIVAL_DISTANCE`].
pub const ARRIVAL_DISTANCE_SQUARED: u128 = 250_000;

/// A point or displacement, each coordinate in thousandths of a unit.
#[derive(Debug, Clone, Copy, PartialEq, Eq, Structural)]
pub struct Vector3 {
    pub x: i32,
    pub y: i32,
    pub z: i32,
}

/// `root` is the square root of `n`, rounded down.
pub open spec fn is_floor_sqrt(root: int, n: int) -> bool {
    0 <= root && root * root <= n < (root + 1) * (root + 1)
}

/// The square root of `n`, rounded down.
pub open spec fn floor_sqrt(n: nat) -> nat
    decreases n,
{
    if n == 0 {
        0
    } else {
        let below = floor_sqrt((n - 1) as nat);
        if (below + 1) * (below + 1) <= n {
            below + 1
        } else {
            below
        }
    }
}

/// [`floor_sqrt`] is the rounded-down square root.
pub proof fn lemma_floor_sqrt(n: nat)
    ensures
        is_floor_sqrt(floor_sqrt(n) as int, n as int),
    decreases n,
{
    if n > 0 {
        lemma_floor_sqrt((n - 1) as nat);
        let below = floor_sqrt((n - 1) as nat) as int;
        assert((below + 2) * (below + 2) > (below + 1) * (below + 1)) by (nonlinear_arith)
            requires
                below >= 0,
        ;
    }
}

/// A number has one rounded-down square root.
pub proof fn lemma_floor_sqrt_unique(a: int, b: int, n: int)
    requires
        is_floor_sqrt(a, n),
        is_floor_sqrt(b, n),
    ensures
        a == b,
{
    if a < b {
        assert((a + 1) * (a + 1) <= b * b) by (nonlinear_arith)
            requires
                0 <= a,
                a + 1 <= b,
        ;
    } else if b < a {
        assert((b + 1) * (b + 1) <= a * a) by (nonlinear_arith)
            requires
                0 <= b,
                b + 1 <= a,
        ;
    }
}

/// Computes the square root of `n`, rounded down, by bisection.
pub fn isqrt(n: u128) -> (root: u128)
    ensures
        root == floor_sqrt(n as nat),
        is_floor_sqrt(root as int, n as int),
{
    let mut low: u128 = 0;
    let mut high: u128 = 0x1_0000_0000_0000_0000;
    assert(0x1_0000_0000_0000_0000int * 0x1_0000_0000_0000_0000int > n) by (nonlinear_arith)
        requires
            n <= 0xffff_ffff_ffff_ffff_ffff_ffff_ffff_ffff,
    ;
    while high - low > 1
        invariant
            low < high <= 0x1_0000_0000_0000_0000,
            low * low <= n < high * high,
        decreases high - low,
    {
        let mid: u128 = low + (high - low) / 2;
        assert(mid * mid <= 0xffff_ffff_ffff_ffff * 0xffff_ffff_ffff_ffff) by (nonlinear_arith)
            requires
                0 <= mid <= 0xffff_ffff_ffff_ffff,
        ;
        if mid * mid <= n {
            low = mid;
        } else {
            high = mid;
        }
    }
    proof {
        lemma_floor_sqrt(n as nat);
        lemma_floor_sqrt_unique(low as int, floor_sqrt(n as nat) as int, n as int);
    }
    low
}

/// A quotient rounded toward zero, for a positive divisor.
pub open spec fn div_toward_zero(numerator: int, divisor: int) -> int {
    if numerator >= 0 {
        numerator / divisor
    } else {
        -((-numerator) / divisor)
    }
}

/// Divides and rounds toward zero.
pub fn divide_toward_zero(numerator: i128, divisor: i128) -> (quotient: i128)
    requires
        divisor > 0,
        numerator > i128::MIN,
    ensures
        quotient == div_toward_zero(numerator as int, divisor as int),
        numerator >= 0 ==> 0 <= quotient <= numerator,
        numerator <= 0 ==> numerator <= quotient <= 0,
{
    if numerator >= 0 {
        let quotient = numerator / divisor;
        assert(0 <= numerator as int / divisor as int <= numerator) by (nonlinear_arith)
            requires
                numerator >= 0,
                divisor > 0,
        ;
        quotient
    } else {
        let positive: i128 = -numerator;
        let quotient = positive / divisor;
        assert(0 <= positive as int / divisor as int <= positive) by (nonlinear_arith)
            requires
                positive >= 0,
                divisor > 0,
        ;
        -quotient
    }
}

/// A value brought into the range of a coordinate.
pub open spec fn clamp_coordinate(value: int) -> int {
    if value < i32::MIN {
        i32::MIN as int
    } else if value > i32::MAX {
        i32::MAX as int
    } else {
        value
    }
}

/// Clamps a wide value into the range of a coordinate.
pub fn clamp_to_coordinate(value: i128) -> (coordinate: i32)
    ensures
        coordinate == clamp_coordinate(value as int),
{
    if value < i32::MIN as i128 {
        i32::MIN
    } else if value > i32::MAX as i128 {
        i32::MAX
    } else {
        value as i32
    }
}

impl Vector3 {
    /// The square of the distance between two points.
    pub open spec fn distance_squared(self, other: Vector3) -> int {
        (other.x - self.x) * (other.x - self.x) + (other.y - self.y) * (other.y - self.y) + (
        other.z - self.z) * (other.z - self.z)
    }

    /// The distance between two points, rounded down.
    pub open spec fn distance(self, other: Vector3) -> int {
        floor_sqrt(self.distance_squared(other) as nat) as int
    }

    /// Whether `other` lies within [`ARRIVAL_DISTANCE`] of this point.
    pub open spec fn is_near(self, other: Vector3) -> bool {
        self.distance_squared(other) <= ARRIVAL_DISTANCE_SQUARED
    }

    /// This point shifted by `offset`, each coordinate clamped to its range.
    pub open spec fn shifted(self, offset: Vector3) -> Vector3 {
        Vector3 {
            x: clamp_coordinate(self.x + offset.x) as i32,
            y: clamp_coordinate(self.y + offset.y) as i32,
            z: clamp_coordinate(self.z + offset.z) as i32,
        }
    }

    /// Where a walker ends up that starts here and walks `step` thousandths
    /// in the direction of `target`. Each coordinate moves by its share of
    /// the step, rounded toward zero, and is clamped to its range. A walker
    /// that stands on its target stays.
    pub open spec fn stepped_toward(self, target: Vector3, step: int) -> Vector3 {
        let length = self.distance(target);
        if length == 0 {
            self
        } else {
            Vector3 {
                x: clamp_coordinate(
                    self.x + div_toward_zero((target.x - self.x) * step, length),
                ) as i32,
                y: clamp_coordinate(
                    self.y + div_toward_zero((target.y - self.y) * step, length),
                ) as i32,
                z: clamp_coordinate(
                    self.z + div_toward_zero((target.z - self.z) * step, length),
                ) as i32,
            }
        }
    }

    pub fn new(x: i32, y: i32, z: i32) -> (point: Vector3)
        ensures
            point == (Vector3 { x, y, z }),
    {
        Vector3 { x, y, z }
    }

    /// Computes the square of the distance to `other`.
    pub fn squared_distance_to(&self, other: Vector3) -> (square: u128)
        ensures
            square == self.distance_squared(other),
            square <= 3 * 0xffff_ffff * 0xffff_ffff,
    {
        let dx: i128 = other.x as i128 - self.x as i128;
        let dy: i128 = other.y as i128 - self.y as i128;
        let dz: i128 = other.z as i128 - self.z as i128;
        assert(0 <= dx * dx <= 0xffff_ffff * 0xffff_ffff) by (nonlinear_arith)
            requires
                -0xffff_ffff <= dx <= 0xffff_ffff,
        ;
        assert(0 <= dy * dy <= 0xffff_ffff * 0xffff_ffff) by (nonlinear_arith)
            requires
                -0xffff_ffff <= dy <= 0xffff_ffff,
        ;
        assert(0 <= dz * dz <= 0xffff_ffff * 0xffff_ffff) by (nonlinear_arith)
            requires
                -0xffff_ffff <= dz <= 0xffff_ffff,
        ;
        (dx * dx + dy * dy + dz * dz) as u128
    }

    /// Whether `other` lies within [`ARRIVAL_DISTANCE`] of this point.
    pub fn near(&self, other: Vector3) -> (close: bool)
        ensures
            close == self.is_near(other),
    {
        self.squared_distance_to(other) <= ARRIVAL_DISTANCE_SQUARED
    }

    /// Shifts this point by `offset`, clamping each coordinate.
    pub fn offset_by(&self, offset: Vector3) -> (point: Vector3)
        ensures
            point == self.shifted(offset),
    {
        Vector3 {
            x: clamp_to_coordinate(self.x as i128 + offset.x as i128),
            y: clamp_to_coordinate(self.y as i128 + offset.y as i128),
            z: clamp_to_coordinate(self.z as i128 + offset.z as i128),
        }
    }

    /// Walks `step` thousandths from this point toward `target`.
    pub fn step_toward(&self, target: Vector3, step: u32) -> (point: Vector3)
        ensures
            point == self.stepped_toward(target, step as int),
    {
        let length = isqrt(self.squared_distance_to(target));
        assert(length <= 0x1_0000_0000_0000) by {
            assert(length * length <= 3 * 0xffff_ffff * 0xffff_ffff);
            assert(length > 0x1_0000_0000_0000 ==> length * length > 3 * 0xffff_ffff * 0xffff_ffff)
                by (nonlinear_arith);
        }
        if length == 0 {
            return *self;
        }
        let length: i128 = length as i128;
        let step: i128 = step as i128;
        let dx: i128 = other_minus(target.x, self.x);
        let dy: i128 = other_minus(target.y, self.y);
        let dz: i128 = other_minus(target.z, self.z);
        assert(-0xffff_ffff * 0xffff_ffff <= dx * step <= 0xffff_ffff * 0xffff_ffff)
            by (nonlinear_arith)
            requires
                -0xffff_ffff <= dx <= 0xffff_ffff,
                0 <= step <= 0xffff_ffff,
        ;
        assert(-0xffff_ffff * 0xffff_ffff <= dy * step <= 0xffff_ffff * 0xffff_ffff)
            by (nonlinear_arith)
            requires
                -0xffff_ffff <= dy <= 0xffff_ffff,
                0 <= step <= 0xffff_ffff,
        ;
        assert(-0xffff_ffff * 0xffff_ffff <= dz * step <= 0xffff_ffff * 0xffff_ffff)
            by (nonlinear_arith)
            requires
                -0xffff_ffff <= dz <= 0xffff_ffff,
                0 <= step <= 0xffff_ffff,
        ;
        Vector3 {
            x: clamp_to_coordinate(self.x as i128 + divide_toward_zero(dx * step, length)),
            y: clamp_to_coordinate(self.y as i128 + divide_toward_zero(dy * step, length)),
            z: clamp_to_coordinate(self.z as i128 + divide_toward_zero(dz * step, length)),
        }
    }
}

/// The difference of two coordinates, which always fits.
fn other_minus(to: i32, from: i32) -> (difference: i128)
    ensures
        difference == to - from,
        -0xffff_ffff <= difference <= 0xffff_ffff,
{
    to as i128 - from as i128
}

} // verus!
