//! Exact arithmetic on elapsed time.
//!
//! Time is counted in whole nanoseconds and tempo in whole beats per minute,
//! so the place inside a beat is a whole number of sixty-billionths of a
//! beat: one minute holds `NANOS_PER_MINUTE` nanoseconds, and a clock of `t`
//! nanoseconds at `bpm` beats per minute stands at `t * bpm / NANOS_PER_MINUTE`
//! beats.

use vstd::prelude::*;

verus! {

/// Nanoseconds in a minute, and so the number of phase units in one beat.
pub const NANOS_PER_MINUTE: u64 = 60_000_000_000;

/// The clock after `elapsed` more nanoseconds. It stops at the largest value
/// it can hold.
pub open spec fn advance_clock(clock: u64, elapsed: u64) -> u64 {
    if clock + elapsed > u64::MAX {
        u64::MAX
    } else {
        (clock + elapsed) as u64
    }
}

/// The fraction of the current beat that has passed, in units of
/// `1 / NANOS_PER_MINUTE` beat.
pub open spec fn beat_phase(clock: u64, bpm: u32) -> u64 {
    ((clock as int * bpm as int) % (NANOS_PER_MINUTE as int)) as u64
}

/// Whether a beat began within the last `elapsed` nanoseconds: the fraction
/// of the beat that has passed is smaller than the fraction that the last
/// step covered.
pub open spec fn beat_crossed(clock: u64, bpm: u32, elapsed: u64) -> bool {
    beat_phase(clock, bpm) < elapsed as int * bpm as int
}

/// Level of the colour that fades in: the passed fraction of full level,
/// rounded down.
pub open spec fn fade_in_level(phase: u64) -> u8 {
    ((phase as int * 255) / (NANOS_PER_MINUTE as int)) as u8
}

/// Level of the colour that fades out: the remaining fraction of full level,
/// rounded down.
pub open spec fn fade_out_level(phase: u64) -> u8 {
    (((NANOS_PER_MINUTE - phase) * 255) / (NANOS_PER_MINUTE as int)) as u8
}

/// Where a clock stands inside the beat, and whether the beat is new.
#[derive(Clone, Copy, PartialEq, Eq, Structural, Debug)]
pub struct BeatPosition {
    /// Passed fraction of the beat, below `NANOS_PER_MINUTE`.
    pub phase: u64,
    /// Whether a beat began within the last step.
    pub crossed: bool,
}

/// Adds `elapsed` to `clock`, stopping at the largest value.
pub fn clock_after(clock: u64, elapsed: u64) -> (r: u64)
    ensures
        r == advance_clock(clock, elapsed),
{
    clock.saturating_add(elapsed)
}

/// Finds the place inside the beat for a clock that has just been advanced
/// by `elapsed`.
pub fn beat_position(clock: u64, bpm: u32, elapsed: u64) -> (r: BeatPosition)
    ensures
        r.phase == beat_phase(clock, bpm),
        r.crossed == beat_crossed(clock, bpm, elapsed),
        r.phase < NANOS_PER_MINUTE,
{
    let c: u128 = clock as u128;
    let b: u128 = bpm as u128;
    let e: u128 = elapsed as u128;
    assert(c * b <= 0xffff_ffff_ffff_ffff * 0xffff_ffff) by (nonlinear_arith)
        requires
            c <= 0xffff_ffff_ffff_ffff,
            b <= 0xffff_ffff,
    ;
    assert(e * b <= 0xffff_ffff_ffff_ffff * 0xffff_ffff) by (nonlinear_arith)
        requires
            e <= 0xffff_ffff_ffff_ffff,
            b <= 0xffff_ffff,
    ;
    let beats: u128 = c * b;
    let phase: u128 = beats % (NANOS_PER_MINUTE as u128);
    let step: u128 = e * b;
    BeatPosition { phase: phase as u64, crossed: phase < step }
}

/// Computes the level of the colour that fades in.
pub fn level_fading_in(phase: u64) -> (r: u8)
    requires
        phase < NANOS_PER_MINUTE,
    ensures
        r == fade_in_level(phase),
{
    let scaled: u64 = phase * 255;
    (scaled / NANOS_PER_MINUTE) as u8
}

/// Computes the level of the colour that fades out.
pub fn level_fading_out(phase: u64) -> (r: u8)
    requires
        phase < NANOS_PER_MINUTE,
    ensures
        r == fade_out_level(phase),
{
    let scaled: u64 = (NANOS_PER_MINUTE - phase) * 255;
    (scaled / NANOS_PER_MINUTE) as u8
}

/// At the start of a beat the outgoing colour is at full level and the
/// incoming one is dark; half-way both stand at 127; and the two levels
/// never add up to more than full level.
pub proof fn lemma_fade_levels(phase: u64)
    requires
        phase < NANOS_PER_MINUTE,
    ensures
        fade_in_level(0) == 0,
        fade_out_level(0) == 255,
        fade_in_level(30_000_000_000) == 127,
        fade_out_level(30_000_000_000) == 127,
        254 <= fade_in_level(phase) + fade_out_level(phase) <= 255,
{
}

} // verus!
