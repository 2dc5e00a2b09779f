//! Fixed-point points and vectors, and the arithmetic the steering rules need.

use vstd::prelude::*;
use crate::units::{clamp_i32, truncated_quotient, TRAVEL_DIVISOR};

verus! {

/// A point of the arena, in sub-units.
#[derive(Clone, Copy, Debug, PartialEq, Eq, Structural)]
pub struct Position {
    pub x: i32,
    pub y: i32,
    pub z: i32,
}

/// A heading. A unit heading has length `DIRECTION_ONE`.
#[derive(Clone, Copy, Debug, PartialEq, Eq, Structural)]
pub struct Direction {
    pub x: i32,
    pub y: i32,
    pub z: i32,
}

/// The difference of two positions, in sub-units.
#[derive(Clone, Copy, Debug, PartialEq, Eq, Structural)]
pub struct Offset {
    pub x: i64,
    pub y: i64,
    pub z: i64,
}

/// Where an entity is and which way it faces.
#[derive(Clone, Copy, Debug, PartialEq, Eq, Structural)]
pub struct Pose {
    pub position: Position,
    pub forward: Direction,
}

/// Largest component of an offset that [`nearly_parallel`] is computed for.
pub const OFFSET_REACH: i64 = 524_288;

/// Inverse of the threshold under which two headings count as parallel: the
/// squared sine of the angle between them times this is less than one.
pub const PARALLEL_SCALE: u128 = 8_388_608;

/// The sub-units moved along one axis by an entity that faces `component` on
/// that axis, at `speed` world units per second for `dt` nanoseconds.
pub open spec fn displacement(component: int, speed: int, dt: int) -> int {
    truncated_quotient(component * speed * dt, TRAVEL_DIVISOR as int)
}

/// The three components of the cross product of a heading and an offset.
pub open spec fn cross(f: Direction, t: Offset) -> (int, int, int) {
    (f.y * t.z - f.z * t.y, f.z * t.x - f.x * t.z, f.x * t.y - f.y * t.x)
}

/// The squared length of a vector of three components.
pub open spec fn norm_squared(x: int, y: int, z: int) -> int {
    x * x + y * y + z * z
}

/// Whether no rotation axis can be had from the two vectors: their cross
/// product is zero, or its squared length is under `1 / PARALLEL_SCALE` of the
/// product of their squared lengths.
pub open spec fn nearly_parallel(f: Direction, t: Offset) -> bool {
    let c = cross(f, t);
    let c2 = norm_squared(c.0, c.1, c.2);
    c2 == 0 || PARALLEL_SCALE * c2 < norm_squared(f.x as int, f.y as int, f.z as int)
        * norm_squared(t.x as int, t.y as int, t.z as int)
}

impl Position {
    /// The squared Euclidean distance between two positions, in squared sub-units.
    pub open spec fn distance_squared_to(self, other: Position) -> int {
        norm_squared(self.x - other.x, self.y - other.y, self.z - other.z)
    }

    /// The position reached from here by one step along `forward`, each
    /// coordinate held to the range of an `i32`.
    pub open spec fn moved(self, forward: Direction, speed: int, dt: int) -> Position {
        Position {
            x: clamp_i32(self.x + displacement(forward.x as int, speed, dt)) as i32,
            y: clamp_i32(self.y + displacement(forward.y as int, speed, dt)) as i32,
            z: clamp_i32(self.z + displacement(forward.z as int, speed, dt)) as i32,
        }
    }

    /// The offset that leads from `other` to here.
    pub open spec fn minus(self, other: Position) -> Offset {
        Offset {
            x: (self.x - other.x) as i64,
            y: (self.y - other.y) as i64,
            z: (self.z - other.z) as i64,
        }
    }

    /// Squared Euclidean distance to `other`.
    pub fn distance_squared(&self, other: &Position) -> (d: u128)
        ensures
            d == self.distance_squared_to(*other),
    {
        let dx: u128 = square_of_difference(self.x, other.x);
        let dy: u128 = square_of_difference(self.y, other.y);
        let dz: u128 = square_of_difference(self.z, other.z);
        dx + dy + dz
    }

    /// The offset that leads from `other` to this position.
    pub fn offset_from(&self, other: &Position) -> (o: Offset)
        ensures
            o == self.minus(*other),
    {
        Offset {
            x: self.x as i64 - other.x as i64,
            y: self.y as i64 - other.y as i64,
            z: self.z as i64 - other.z as i64,
        }
    }

    /// One step of straight flight: the position moves along `forward` by
    /// `speed * dt`, rounded toward zero on each axis, and stops at the edge
    /// of the representable arena.
    pub fn translated(&self, forward: &Direction, speed: u32, dt: u64) -> (p: Position)
        ensures
            p == self.moved(*forward, speed as int, dt as int),
    {
        Position {
            x: advance(self.x, forward.x, speed, dt),
            y: advance(self.y, forward.y, speed, dt),
            z: advance(self.z, forward.z, speed, dt),
        }
    }
}

impl Offset {
    /// Whether every component is at most `OFFSET_REACH` in size.
    pub open spec fn within_reach(self) -> bool {
        &&& -OFFSET_REACH <= self.x <= OFFSET_REACH
        &&& -OFFSET_REACH <= self.y <= OFFSET_REACH
        &&& -OFFSET_REACH <= self.z <= OFFSET_REACH
    }
}

/// Whether no rotation axis can be had from a heading and an offset.
pub fn parallel(forward: &Direction, direction: &Offset) -> (p: bool)
    requires
        direction.within_reach(),
    ensures
        p == nearly_parallel(*forward, *direction),
{
    let cx: i128 = cross_term(forward.y, direction.z, forward.z, direction.y);
    let cy: i128 = cross_term(forward.z, direction.x, forward.x, direction.z);
    let cz: i128 = cross_term(forward.x, direction.y, forward.y, direction.x);
    let c2: u128 = square(cx) + square(cy) + square(cz);
    let f2: u128 = square(forward.x as i128) + square(forward.y as i128) + square(
        forward.z as i128,
    );
    let t2: u128 = square(direction.x as i128) + square(direction.y as i128) + square(
        direction.z as i128,
    );
    assert(f2 * t2 <= 0x3_0000_0000_0000_0000 * 0x300_0000_0000) by (nonlinear_arith)
        requires
            0 <= f2 <= 0x3_0000_0000_0000_0000,
            0 <= t2 <= 0x300_0000_0000,
    ;
    assert(PARALLEL_SCALE * c2 <= 0x80_0000 * 0xc0_0000_0000_0000_0000_0000_0000)
        by (nonlinear_arith)
        requires
            PARALLEL_SCALE == 0x80_0000,
            0 <= c2 <= 0xc0_0000_0000_0000_0000_0000_0000,
    ;
    c2 == 0 || PARALLEL_SCALE * c2 < f2 * t2
}

/// `a * b - c * d` for two heading components and two offset components.
fn cross_term(a: i32, b: i64, c: i32, d: i64) -> (t: i128)
    requires
        -OFFSET_REACH <= b <= OFFSET_REACH,
        -OFFSET_REACH <= d <= OFFSET_REACH,
    ensures
        t == a * b - c * d,
        -0x8_0000_0000_0000 <= t <= 0x8_0000_0000_0000,
{
    assert(-0x4_0000_0000_0000 <= a * b <= 0x4_0000_0000_0000) by (nonlinear_arith)
        requires
            -0x8000_0000 <= a <= 0x8000_0000,
            -0x8_0000 <= b <= 0x8_0000,
    ;
    assert(-0x4_0000_0000_0000 <= c * d <= 0x4_0000_0000_0000) by (nonlinear_arith)
        requires
            -0x8000_0000 <= c <= 0x8000_0000,
            -0x8_0000 <= d <= 0x8_0000,
    ;
    (a as i128) * (b as i128) - (c as i128) * (d as i128)
}

/// `v * v` for a value of at most 51 bits.
fn square(v: i128) -> (s: u128)
    requires
        -0x8_0000_0000_0000 <= v <= 0x8_0000_0000_0000,
    ensures
        s == v * v,
        s <= 0x40_0000_0000_0000_0000_0000_0000,
        -0x8000_0000 <= v <= 0x8000_0000 ==> s <= 0x1_0000_0000_0000_0000,
        -0x8_0000 <= v <= 0x8_0000 ==> s <= 0x100_0000_0000,
{
    let m: u128 = if v >= 0 {
        v as u128
    } else {
        (-v) as u128
    };
    assert(m * m == v * v && m * m <= 0x8_0000_0000_0000 * 0x8_0000_0000_0000)
        by (nonlinear_arith)
        requires
            m == v || m == -v,
            0 <= m <= 0x8_0000_0000_0000,
    ;
    assert(m <= 0x8000_0000 ==> m * m <= 0x8000_0000 * 0x8000_0000) by (nonlinear_arith)
        requires
            0 <= m,
    ;
    assert(m <= 0x8_0000 ==> m * m <= 0x8_0000 * 0x8_0000) by (nonlinear_arith)
        requires
            0 <= m,
    ;
    m * m
}

/// `(a - b)` squared.
fn square_of_difference(a: i32, b: i32) -> (s: u128)
    ensures
        s == (a - b) * (a - b),
        s <= 0xffff_ffff * 0xffff_ffff,
{
    let d: i64 = a as i64 - b as i64;
    let m: u64 = if d >= 0 {
        d as u64
    } else {
        (-d) as u64
    };
    assert(m * m == (a - b) * (a - b) && m * m <= 0xffff_ffff * 0xffff_ffff) by (nonlinear_arith)
        requires
            m == a - b || m == -(a - b),
            0 <= m <= 0xffff_ffff,
    ;
    (m as u128) * (m as u128)
}

/// One coordinate after one step of straight flight.
fn advance(coordinate: i32, component: i32, speed: u32, dt: u64) -> (c: i32)
    ensures
        c == clamp_i32(coordinate + displacement(component as int, speed as int, dt as int)),
{
    let size: u128 = if component >= 0 {
        component as u128
    } else {
        (-(component as i64)) as u128
    };
    assert(speed * dt <= 0xffff_ffff * 0xffff_ffff_ffff_ffff) by (nonlinear_arith)
        requires
            0 <= speed <= 0xffff_ffff,
            0 <= dt <= 0xffff_ffff_ffff_ffff,
    ;
    let travel: u128 = (speed as u128) * (dt as u128);
    assert(size * travel <= 0x8000_0000 * (0xffff_ffff * 0xffff_ffff_ffff_ffff)) by (nonlinear_arith)
        requires
            0 <= size <= 0x8000_0000,
            0 <= travel <= 0xffff_ffff * 0xffff_ffff_ffff_ffff,
    ;
    let product: u128 = size * travel;
    let steps: u128 = product / (TRAVEL_DIVISOR as u128);
    proof {
        assert(size * travel == size * (speed * dt));
        assert(size * (speed * dt) == size * speed * dt) by (nonlinear_arith);
        if component >= 0 {
            assert(component * speed * dt == size * speed * dt);
            assert(component * speed * dt >= 0) by (nonlinear_arith)
                requires
                    component >= 0,
                    speed >= 0,
                    dt >= 0,
            ;
        } else {
            assert(-(component * speed * dt) == size * speed * dt) by (nonlinear_arith)
                requires
                    size == -component,
            ;
        }
    }
    let target: i128 = if component >= 0 {
        coordinate as i128 + steps as i128
    } else {
        coordinate as i128 - steps as i128
    };
    if target < i32::MIN as i128 {
        i32::MIN
    } else if target > i32::MAX as i128 {
        i32::MAX
    } else {
        target as i32
    }
}

} // verus!
