//! Input-to-motion mapping: held directions become a position delta.
//!
//! Each held direction contributes `speed * delta / 1_000_000` world units
//! on its axis (speed is in units per second, the delta in microseconds).
//! Opposing directions are independent and additive, not mutually
//! exclusive: holding up and down together cancels out exactly.

use vstd::prelude::*;

verus! {

/// Largest frame delta accepted, in microseconds.
pub const MAX_FRAME_DELTA: u64 = 1_000_000_000_000;

/// Largest movement speed accepted, in world units per second.
pub const MAX_SPEED: u32 = 1_000_000;

/// Which of the four movement directions are currently held.
#[derive(Clone, Copy)]
pub struct DirectionsHeld {
    pub up: bool,
    pub down: bool,
    pub left: bool,
    pub right: bool,
}

/// `v` clamped into the `i64` range.
pub open spec fn sat_i64(v: int) -> int {
    if v < i64::MIN {
        i64::MIN as int
    } else if v > i64::MAX {
        i64::MAX as int
    } else {
        v
    }
}

/// Distance covered on one axis by one held direction during one frame.
pub open spec fn axis_step(speed: int, delta_micros: int) -> int {
    (speed * delta_micros) / 1_000_000
}

/// Net movement on one axis: the positive direction's step minus the
/// negative direction's step; both apply independently.
pub open spec fn net_axis(pos_held: bool, neg_held: bool, speed: int, delta_micros: int) -> int {
    (if pos_held {
        axis_step(speed, delta_micros)
    } else {
        0
    }) - (if neg_held {
        axis_step(speed, delta_micros)
    } else {
        0
    })
}

/// Opposing directions are additive, not mutually exclusive: whenever
/// both directions of an axis are held, their steps cancel exactly and
/// the axis does not move, whatever the speed and the frame delta.
pub proof fn lemma_opposing_directions_cancel(speed: int, delta_micros: int)
    ensures
        net_axis(true, true, speed, delta_micros) == 0,
        net_axis(false, false, speed, delta_micros) == 0,
{
}

/// Addition clamped into the `i64` range.
pub fn sat_add_i64(a: i64, b: i64) -> (r: i64)
    ensures
        r == sat_i64(a + b),
{
    if b >= 0 {
        if a <= i64::MAX - b {
            a + b
        } else {
            i64::MAX
        }
    } else {
        if a >= i64::MIN - b {
            a + b
        } else {
            i64::MIN
        }
    }
}

/// The position delta that the held directions produce this frame.
///
/// Up and right count positive, down and left negative; simultaneous
/// opposing directions both apply, so their net effect is zero.
pub fn movement_delta(held: DirectionsHeld, speed: u32, delta_micros: u64) -> (d: (i64, i64))
    requires
        speed <= MAX_SPEED,
        delta_micros <= MAX_FRAME_DELTA,
    ensures
        d.0 == net_axis(held.right, held.left, speed as int, delta_micros as int),
        d.1 == net_axis(held.up, held.down, speed as int, delta_micros as int),
{
    assert(speed * delta_micros <= MAX_SPEED * MAX_FRAME_DELTA) by (nonlinear_arith)
        requires
            speed <= MAX_SPEED,
            delta_micros <= MAX_FRAME_DELTA,
    ;
    let product: u64 = (speed as u64) * delta_micros;
    let step_u: u64 = product / 1_000_000;
    assert(step_u <= product) by (nonlinear_arith)
        requires
            step_u == product / 1_000_000,
            product >= 0,
    ;
    let step: i64 = step_u as i64;
    let dx: i64 = (if held.right {
        step
    } else {
        0
    }) - (if held.left {
        step
    } else {
        0
    });
    let dy: i64 = (if held.up {
        step
    } else {
        0
    }) - (if held.down {
        step
    } else {
        0
    });
    (dx, dy)
}

} // verus!
