//! The frame on a DMX512 serial line.
//!
//! A sender repeats five steps for ever: it pulls the line into break,
//! releases it for the mark, writes the start code and the 512 channel
//! values, flushes, and rests for what is left of the frame period. Whoever
//! drives the sender measures the time since the break was set and hands it
//! in with every step.

use crate::universe::{all_fit, frame_of, Universe};
use vstd::prelude::*;

verus! {

/// Bits per second on the line.
pub const BAUD_RATE: u32 = 250_000;

/// Data bits per byte.
pub const DATA_BITS: u8 = 8;

/// Stop bits per byte.
pub const STOP_BITS: u8 = 2;

/// How long a write may take, in milliseconds.
pub const WRITE_TIMEOUT_MILLIS: u64 = 10;

/// Shortest break that receivers accept, in microseconds.
pub const MIN_BREAK_MICROS: u64 = 88;

/// Shortest mark after break that receivers accept, in microseconds.
pub const MIN_MARK_MICROS: u64 = 8;

/// Length of the break that is sent, in microseconds.
pub const BREAK_MICROS: u64 = 120;

/// Length of the mark that is sent, in microseconds.
pub const MARK_MICROS: u64 = 12;

/// Time from one break to the next, in microseconds: forty frames a second.
pub const FRAME_PERIOD_MICROS: u64 = 25_000;

/// The start code of a frame of channel values.
pub const START_CODE: u8 = 0;

/// Bytes on the line per frame: the start code and the channel values.
pub const LINE_FRAME_BYTES: usize = 513;

/// Where the sender stands in its round.
#[derive(Clone, Copy, PartialEq, Eq, Structural, Debug)]
pub enum SenderStep {
    Break,
    Mark,
    Data,
    Flush,
    Rest,
}

/// What the sender does to the line in one step.
#[derive(Clone, Copy, PartialEq, Eq, Structural, Debug)]
pub enum LineAction {
    /// Pull the line into break and hold it.
    SetBreak { hold_micros: u64 },
    /// Release the break and hold the mark.
    ClearBreak { hold_micros: u64 },
    /// Take a frame from the universe and write it.
    WriteFrame,
    /// Flush what was written.
    Flush,
    /// Wait for the next frame.
    Sleep { micros: u64 },
}

/// The rest that fills the frame period when `spent_micros` of it have gone
/// by: what is left of the period, and nothing where the round has already
/// taken the whole period or more.
pub open spec fn rest_after(spent_micros: u64) -> u64 {
    if spent_micros >= FRAME_PERIOD_MICROS {
        0
    } else {
        (FRAME_PERIOD_MICROS - spent_micros) as u64
    }
}

impl SenderStep {
    /// The action of a step, `spent_micros` after the break of its round was
    /// set. Only the rest depends on the time.
    pub open spec fn action_of(self, spent_micros: u64) -> LineAction {
        match self {
            SenderStep::Break => LineAction::SetBreak { hold_micros: BREAK_MICROS },
            SenderStep::Mark => LineAction::ClearBreak { hold_micros: MARK_MICROS },
            SenderStep::Data => LineAction::WriteFrame,
            SenderStep::Flush => LineAction::Flush,
            SenderStep::Rest => LineAction::Sleep { micros: rest_after(spent_micros) },
        }
    }

    /// The step that follows.
    pub open spec fn successor(self) -> SenderStep {
        match self {
            SenderStep::Break => SenderStep::Mark,
            SenderStep::Mark => SenderStep::Data,
            SenderStep::Data => SenderStep::Flush,
            SenderStep::Flush => SenderStep::Rest,
            SenderStep::Rest => SenderStep::Break,
        }
    }

    /// The step a sender starts with.
    pub fn first() -> (s: SenderStep)
        ensures
            s == SenderStep::Break,
    {
        SenderStep::Break
    }

    /// What to do in this step, and the step to go to when it is done.
    /// `spent_micros` is the time since the break of this round was set; at
    /// the break itself it is not looked at.
    pub fn advance(self, spent_micros: u64) -> (r: (LineAction, SenderStep))
        ensures
            r.0 == self.action_of(spent_micros),
            r.1 == self.successor(),
    {
        match self {
            SenderStep::Break => (
                LineAction::SetBreak { hold_micros: BREAK_MICROS },
                SenderStep::Mark,
            ),
            SenderStep::Mark => (
                LineAction::ClearBreak { hold_micros: MARK_MICROS },
                SenderStep::Data,
            ),
            SenderStep::Data => (LineAction::WriteFrame, SenderStep::Flush),
            SenderStep::Flush => (LineAction::Flush, SenderStep::Rest),
            SenderStep::Rest => {
                let micros: u64 = if spent_micros >= FRAME_PERIOD_MICROS {
                    0
                } else {
                    FRAME_PERIOD_MICROS - spent_micros
                };
                (LineAction::Sleep { micros }, SenderStep::Break)
            },
        }
    }
}

/// Every frame is written after a break of at least the shortest accepted
/// length and a mark of at least the shortest accepted length, in that
/// order, and the round closes after five steps.
pub proof fn lemma_frame_follows_break_and_mark(s: SenderStep, spent_micros: u64)
    ensures
        s.successor() == SenderStep::Data ==> s == SenderStep::Mark,
        s.successor() == SenderStep::Mark ==> s == SenderStep::Break,
        SenderStep::Break.action_of(spent_micros) matches LineAction::SetBreak { hold_micros }
            && hold_micros >= MIN_BREAK_MICROS,
        SenderStep::Mark.action_of(spent_micros) matches LineAction::ClearBreak { hold_micros }
            && hold_micros >= MIN_MARK_MICROS,
        s.successor().successor().successor().successor().successor() == s,
{
}

/// The rest fills the frame period: a round that has taken no more than the
/// period lasts, with its rest, the period exactly; one that has taken
/// longer is not held up further. The two holds of a round leave room for
/// the frame inside the period.
pub proof fn lemma_rest_fills_period(spent_micros: u64)
    ensures
        spent_micros <= FRAME_PERIOD_MICROS ==> spent_micros + rest_after(spent_micros)
            == FRAME_PERIOD_MICROS,
        spent_micros > FRAME_PERIOD_MICROS ==> rest_after(spent_micros) == 0,
        SenderStep::Rest.action_of(spent_micros) == (LineAction::Sleep {
            micros: rest_after(spent_micros),
        }),
        BREAK_MICROS + MARK_MICROS + rest_after((BREAK_MICROS + MARK_MICROS) as u64)
            == FRAME_PERIOD_MICROS,
{
}

/// The bytes of one frame on the line: the start code, then the channel
/// values.
pub open spec fn line_frame(values: Seq<u8>) -> Seq<u8> {
    seq![START_CODE] + values
}

/// Puts the start code before the channel values.
pub fn frame_for_line(values: &[u8; 512]) -> (r: [u8; 513])
    ensures
        r@ == line_frame(values@),
{
    let mut out = [0u8; 513];
    let mut i: usize = 0;
    while i < 512
        invariant
            i <= 512,
            out@.len() == 513,
            out@[0] == START_CODE,
            forall|k: int| 0 <= k < i ==> out@[k + 1] == values@[k],
        decreases 512 - i,
    {
        out[i + 1] = values[i];
        i += 1;
    }
    assert(out@ =~= line_frame(values@));
    out
}

impl Universe {
    /// Renders the universe into the bytes of one frame on the line.
    pub fn dmx_line_frame(&self) -> (r: [u8; 513])
        requires
            all_fit(self@.fixtures),
        ensures
            r@ == line_frame(frame_of(self@.fixtures)),
    {
        let values = self.get_dmx_values();
        frame_for_line(&values)
    }
}

} // verus!
