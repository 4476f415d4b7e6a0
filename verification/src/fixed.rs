//! Fixed-point arithmetic for coordinates, directions and elapsed time.

use vstd::prelude::*;

verus! {

/// Fixed-point steps in one distance unit. Direction components use the same
/// scale, so a component of `UNIT` stands for 1.
pub const UNIT: i64 = 1_000_000;

/// Distance units that a moving entity covers in one second.
pub const SPEED: i64 = 500;

/// Microseconds in one second.
pub const MICROS_PER_SECOND: i64 = 1_000_000;

/// Edge length of every entity, in distance units.
pub const ENTITY_SIZE: i64 = 64;

/// Two entities touch when their centres are at most this far apart, in steps.
pub const REACH: i64 = 64_000_000;

/// The nearest coordinate to `v` that a position can hold.
pub open spec fn saturate(v: int) -> int {
    if v < i64::MIN {
        i64::MIN as int
    } else if v > i64::MAX {
        i64::MAX as int
    } else {
        v
    }
}

/// Steps covered along one axis in `elapsed` microseconds by an entity whose
/// direction has the given component on that axis: component x speed x time,
/// rounded toward zero.
pub open spec fn travel(component: int, elapsed: int) -> int {
    if component >= 0 {
        (component * SPEED * elapsed) / (MICROS_PER_SECOND as int)
    } else {
        -(((-component) * SPEED * elapsed) / (MICROS_PER_SECOND as int))
    }
}

/// A coordinate moved by `delta` steps, held at the ends of the coordinate range.
pub fn shift(coordinate: i64, delta: i64) -> (moved: i64)
    ensures
        moved == saturate(coordinate + delta),
{
    match coordinate.checked_add(delta) {
        Some(sum) => sum,
        None => if delta < 0 {
            i64::MIN
        } else {
            i64::MAX
        },
    }
}

/// Computes [`travel`] for a direction component. A component of a unit
/// vector is at most a step beyond `UNIT`.
pub fn distance_travelled(component: i64, elapsed: u32) -> (steps: i64)
    requires
        -(UNIT + 1) <= component <= UNIT + 1,
    ensures
        steps == travel(component as int, elapsed as int),
{
    let magnitude: u64 = if component >= 0 {
        component as u64
    } else {
        (-component) as u64
    };
    let rate: u64 = magnitude * 500;
    assert(rate * elapsed <= 500_000_500 * 4_294_967_295) by (nonlinear_arith)
        requires
            0 <= rate <= 500_000_500,
            0 <= elapsed <= 4_294_967_295,
    ;
    let covered: u64 = rate * (elapsed as u64) / 1_000_000;
    assert(magnitude * SPEED * elapsed == rate * elapsed) by (nonlinear_arith)
        requires
            rate == magnitude * 500,
            SPEED == 500,
    ;
    if component >= 0 {
        covered as i64
    } else {
        -(covered as i64)
    }
}

} // verus!
