//! A sweep of pan and tilt between two angles.
//!
//! Each axis walks from its start angle towards its end angle, turns round
//! when it has reached or passed the end, and turns again when it is back at
//! or before the start. Angles are whole degrees.

use vstd::prelude::*;

verus! {

/// Degrees of a full pan.
pub const PAN_RANGE: u32 = 540;

/// Degrees of a full tilt.
pub const TILT_RANGE: u32 = 270;

/// The largest 16-bit value.
pub const FULL_SCALE: u32 = 65535;

/// The 16-bit value of an angle on an axis of `range` degrees, rounded down.
pub open spec fn scaled_angle(degree: int, range: int) -> int {
    (degree * FULL_SCALE) / range
}

/// Scales an angle to 16 bits.
pub fn degree_to_16_bit(degree: u32, range: u32) -> (r: u32)
    requires
        range > 0,
        degree * FULL_SCALE <= u32::MAX,
    ensures
        r == scaled_angle(degree as int, range as int),
{
    (degree * FULL_SCALE) / range
}

/// Way of travel along an axis.
#[derive(Clone, Copy, PartialEq, Eq, Structural, Debug)]
pub enum Direction {
    Forward,
    Backward,
}

impl Direction {
    /// The sign of a step: 1 forward, -1 backward.
    pub open spec fn sign(self) -> int {
        match self {
            Direction::Forward => 1,
            Direction::Backward => -1,
        }
    }
}

/// The limits and the speed of one axis.
#[derive(Clone, Copy, PartialEq, Eq, Structural, Debug)]
pub struct AxisSweep {
    pub start: u32,
    pub end: u32,
    /// Degrees per step.
    pub speed: u32,
}

/// Where one axis stands.
#[derive(Clone, Copy, PartialEq, Eq, Structural, Debug)]
pub struct AxisState {
    pub current: i32,
    pub direction: Direction,
}

impl AxisSweep {
    /// The direction for a step from `state`: backward at or beyond the end,
    /// forward at or before the start, unchanged in between.
    pub open spec fn heading(self, state: AxisState) -> Direction {
        if state.current >= self.end {
            Direction::Backward
        } else if state.current <= self.start {
            Direction::Forward
        } else {
            state.direction
        }
    }

    /// The axis after one step.
    pub open spec fn stepped(self, state: AxisState) -> AxisState {
        AxisState {
            current: (state.current + self.heading(state).sign() * self.speed) as i32,
            direction: self.heading(state),
        }
    }

    /// Whether a step from `state` stays inside what the machine can count.
    pub open spec fn can_step(self, state: AxisState) -> bool {
        i32::MIN <= state.current + self.heading(state).sign() * self.speed <= i32::MAX
    }

    /// Where the axis starts: at its start angle, heading forward.
    pub fn begin(&self) -> (r: Option<AxisState>)
        ensures
            r == if self.start <= i32::MAX {
                Some(AxisState { current: self.start as i32, direction: Direction::Forward })
            } else {
                None
            },
    {
        if self.start <= 0x7fff_ffff {
            Some(AxisState { current: self.start as i32, direction: Direction::Forward })
        } else {
            None
        }
    }

    /// Moves the axis by one step.
    pub fn step(&self, state: AxisState) -> (r: AxisState)
        requires
            self.can_step(state),
        ensures
            r == self.stepped(state),
    {
        let current: i64 = state.current as i64;
        let direction = if current >= self.end as i64 {
            Direction::Backward
        } else if current <= self.start as i64 {
            Direction::Forward
        } else {
            state.direction
        };
        let next: i64 = match direction {
            Direction::Forward => current + self.speed as i64,
            Direction::Backward => current - self.speed as i64,
        };
        AxisState { current: next as i32, direction }
    }
}

/// Pan and tilt of a moving head as 16-bit values.
#[derive(Clone, Copy, PartialEq, Eq, Structural, Debug)]
pub struct SweepOutput {
    pub pan: u32,
    pub tilt: u32,
}

/// One round of the sweep: the values to send for where the axes stand, and
/// where they stand after the step.
pub fn pan_tilt_sweep(
    pan: &AxisSweep,
    tilt: &AxisSweep,
    pan_state: AxisState,
    tilt_state: AxisState,
) -> (r: (SweepOutput, AxisState, AxisState))
    requires
        0 <= pan_state.current,
        pan_state.current * FULL_SCALE <= u32::MAX,
        0 <= tilt_state.current,
        tilt_state.current * FULL_SCALE <= u32::MAX,
        pan.can_step(pan_state),
        tilt.can_step(tilt_state),
    ensures
        r.0.pan == scaled_angle(pan_state.current as int, PAN_RANGE as int),
        r.0.tilt == scaled_angle(tilt_state.current as int, TILT_RANGE as int),
        r.1 == pan.stepped(pan_state),
        r.2 == tilt.stepped(tilt_state),
{
    let output = SweepOutput {
        pan: degree_to_16_bit(pan_state.current as u32, PAN_RANGE),
        tilt: degree_to_16_bit(tilt_state.current as u32, TILT_RANGE),
    };
    (output, pan.step(pan_state), tilt.step(tilt_state))
}

} // verus!
