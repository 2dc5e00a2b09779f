//! Units of measure. All quantities of the simulation are integers.
//!
//! * time: nanoseconds; a timestamp is an `i64`, a span a `u64`
//! * length: sub-units, `SUBUNITS` to the world unit; a coordinate is an
//!   `i32`, so the arena reaches a little over 21 000 world units from the
//!   origin along each axis and resolves a hundred-thousandth of a unit
//! * direction: a vector whose components are scaled by `DIRECTION_ONE`
//! * speed: whole world units per second
//! * angular rate: whole degrees per second
//! * angle: nanodegrees, so that a rate times a span in nanoseconds is exact
//!
//! Sums of times are formed in wider integers and compared there, so that no
//! rule of the simulation depends on where the range of a timestamp ends.

use vstd::prelude::*;

verus! {

/// Sub-units in one world unit.
pub const SUBUNITS: i32 = 100_000;

/// Nanoseconds in one second.
pub const NANOS: u64 = 1_000_000_000;

/// The value that stands for 1 in a component of a direction.
pub const DIRECTION_ONE: i32 = 1_000_000_000;

/// What the product of a direction component, a speed and a span is divided
/// by to give sub-units: `DIRECTION_ONE * NANOS / SUBUNITS`.
pub const TRAVEL_DIVISOR: u64 = 10_000_000_000_000;

/// Nanodegrees in one degree.
pub const NANODEGREES: u64 = 1_000_000_000;

/// The quotient of `n` by a positive `d`, rounded toward zero.
pub open spec fn truncated_quotient(n: int, d: int) -> int {
    if n >= 0 {
        n / d
    } else {
        -((-n) / d)
    }
}

/// `v` held to the range of an `i32`.
pub open spec fn clamp_i32(v: int) -> int {
    if v < i32::MIN {
        i32::MIN as int
    } else if v > i32::MAX {
        i32::MAX as int
    } else {
        v
    }
}

/// `v` held to the range of an `i64`.
pub open spec fn clamp_i64(v: int) -> int {
    if v < i64::MIN {
        i64::MIN as int
    } else if v > i64::MAX {
        i64::MAX as int
    } else {
        v
    }
}

/// The angle covered at `rate` degrees per second in `dt` nanoseconds, in
/// nanodegrees.
pub open spec fn angle_budget(rate: int, dt: int) -> int {
    rate * dt
}

/// The angle covered at `rate` degrees per second in `dt` nanoseconds.
pub fn turn_budget(rate: u32, dt: u64) -> (angle: u128)
    ensures
        angle == angle_budget(rate as int, dt as int),
{
    assert(rate * dt <= 0xffff_ffff * 0xffff_ffff_ffff_ffff) by (nonlinear_arith)
        requires
            0 <= rate <= 0xffff_ffff,
            0 <= dt <= 0xffff_ffff_ffff_ffff,
    ;
    (rate as u128) * (dt as u128)
}

/// A timestamp moved forward by a span, held to the range of an `i64`.
pub fn later(at: i64, span: u64) -> (t: i64)
    ensures
        t == clamp_i64(at + span),
{
    let sum: i128 = at as i128 + span as i128;
    if sum > i64::MAX as i128 {
        i64::MAX
    } else {
        sum as i64
    }
}

} // verus!
