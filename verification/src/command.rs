//! Control commands and what each of them does to the universe.
//!
//! A command that is meant for a fixture that is not patched changes
//! nothing.

use crate::effect::{AnyEffect, ColorSwapView, EffectView};
use crate::fixture::{Setting, SettingView};
use crate::text::same_text;
use crate::universe::{
    all_fit, lemma_same_layout_reflexive, lemma_same_patch, lemma_written_keeps_patch, same_patch,
    written, written_everywhere, Universe, UniverseView,
};
use vstd::prelude::*;
use vstd::string::StringSliceAdditionalSpecFns;

verus! {

/// Id of the first moving head.
pub const MOVING_HEAD_1: u8 = 8;

/// Id of the second moving head.
pub const MOVING_HEAD_2: u8 = 9;

/// A command from the control plane.
#[derive(Debug)]
pub enum Command {
    /// The strobe button: `state` is "down" while it is pressed.
    Strobo { state: String },
    /// A preset button.
    Preset { number: String },
    /// Two free input fields.
    InputValues { input1: String, input2: String },
    /// A colour as `#rrggbb`.
    Color { color: String },
    /// Fading of the colour swap on or off.
    Smooth { smooth: bool },
    /// Offset pattern of the colour swap on or off.
    Offset { offset: bool },
    /// Tempo of the colour swap.
    Bpm { bpm: u32 },
    Pan1 { pan_1: u16 },
    Tilt1 { tilt_1: u16 },
    Pan2 { pan_2: u16 },
    Tilt2 { tilt_2: u16 },
    Color1 { color_1: u8 },
    Color2 { color_2: u8 },
    Gobo1 { gobo_1: u8 },
    Gobo2 { gobo_2: u8 },
    Focus1 { focus_1: u8 },
    Focus2 { focus_2: u8 },
    Dimmer1 { dimmer_1: u8 },
    Dimmer2 { dimmer_2: u8 },
}

/// A change of one parameter of the colour swap.
#[derive(Clone, Copy, PartialEq, Eq, Structural, Debug)]
pub enum SwapParameter {
    Smooth(bool),
    Offset(bool),
    Bpm(u32),
}

impl ColorSwapView {
    /// The colour swap after the parameter was set. The clock is never
    /// touched; the colours go back to their start where the offset pattern
    /// is set.
    pub open spec fn with_parameter(self, p: SwapParameter) -> ColorSwapView {
        match p {
            SwapParameter::Smooth(smooth) => ColorSwapView { smooth, ..self },
            SwapParameter::Offset(offset_pattern) => ColorSwapView {
                offset_pattern,
                colors: crate::effect::starting_colors(self.colors.len(), offset_pattern),
                ..self
            },
            SwapParameter::Bpm(bpm) => ColorSwapView { bpm, ..self },
        }
    }
}

/// The effects after the parameter was set on every colour swap among them.
pub open spec fn with_swap_parameter(effects: Seq<EffectView>, p: SwapParameter) -> Seq<EffectView> {
    Seq::new(
        effects.len(),
        |i: int|
            match effects[i] {
                EffectView::ColorSwap(e) => EffectView::ColorSwap(e.with_parameter(p)),
                EffectView::Gradient(e) => effects[i],
            },
    )
}

/// Level of the strobe channels for a state of the strobe button: full while
/// it is "down", dark in every other state.
pub open spec fn strobe_level(state: Seq<char>) -> u8 {
    if state == "down"@ {
        255
    } else {
        0
    }
}

/// The universe after a command.
pub open spec fn commanded(u: UniverseView, c: Command) -> UniverseView {
    match c {
        Command::Strobo { state } => UniverseView {
            fixtures: written_everywhere(
                u.fixtures,
                SettingView::Named("strobe"@, strobe_level(state@)),
            ),
            ..u
        },
        Command::Preset { number } => u,
        Command::InputValues { input1, input2 } => u,
        Command::Color { color } => u,
        Command::Smooth { smooth } => UniverseView {
            effects: with_swap_parameter(u.effects, SwapParameter::Smooth(smooth)),
            ..u
        },
        Command::Offset { offset } => UniverseView {
            effects: with_swap_parameter(u.effects, SwapParameter::Offset(offset)),
            ..u
        },
        Command::Bpm { bpm } => UniverseView {
            effects: with_swap_parameter(u.effects, SwapParameter::Bpm(bpm)),
            ..u
        },
        Command::Pan1 { pan_1 } => set_on(u, MOVING_HEAD_1, SettingView::Pan(pan_1)),
        Command::Tilt1 { tilt_1 } => set_on(u, MOVING_HEAD_1, SettingView::Tilt(tilt_1)),
        Command::Pan2 { pan_2 } => set_on(u, MOVING_HEAD_2, SettingView::Pan(pan_2)),
        Command::Tilt2 { tilt_2 } => set_on(u, MOVING_HEAD_2, SettingView::Tilt(tilt_2)),
        Command::Color1 { color_1 } => set_on(u, MOVING_HEAD_1, SettingView::Wheel(color_1)),
        Command::Color2 { color_2 } => set_on(u, MOVING_HEAD_2, SettingView::Wheel(color_2)),
        Command::Gobo1 { gobo_1 } => set_on(u, MOVING_HEAD_1, SettingView::Gobo(gobo_1)),
        Command::Gobo2 { gobo_2 } => set_on(u, MOVING_HEAD_2, SettingView::Gobo(gobo_2)),
        Command::Focus1 { focus_1 } => set_on(u, MOVING_HEAD_1, SettingView::Focus(focus_1)),
        Command::Focus2 { focus_2 } => set_on(u, MOVING_HEAD_2, SettingView::Focus(focus_2)),
        Command::Dimmer1 { dimmer_1 } => set_on(
            u,
            MOVING_HEAD_1,
            SettingView::Intensity(dimmer_1),
        ),
        Command::Dimmer2 { dimmer_2 } => set_on(
            u,
            MOVING_HEAD_2,
            SettingView::Intensity(dimmer_2),
        ),
    }
}

/// The universe after the setting was written into every component that
/// takes it of the first fixture with this id.
pub open spec fn set_on(u: UniverseView, id: u8, s: SettingView) -> UniverseView {
    UniverseView { fixtures: written(u.fixtures, id, s, true), ..u }
}

/// Sets the strobe channels of all fixtures for a state of the strobe
/// button.
pub fn handle_strobo(state: &str, universe: &mut Universe)
    ensures
        final(universe)@ == (UniverseView {
            fixtures: written_everywhere(
                old(universe)@.fixtures,
                SettingView::Named("strobe"@, strobe_level(state@)),
            ),
            ..old(universe)@
        }),
{
    let level: u8 = if same_text(state, "down") {
        255
    } else {
        0
    };
    universe.write_everywhere(&Setting::Named("strobe", level));
}

impl Universe {
    /// Sets a parameter on every colour swap among the effects.
    pub fn set_swap_parameter(&mut self, p: SwapParameter)
        ensures
            final(self)@ == (UniverseView {
                effects: with_swap_parameter(old(self)@.effects, p),
                ..old(self)@
            }),
    {
        let n = self.effects.len();
        let mut i: usize = 0;
        while i < n
            invariant
                i <= n,
                n == old(self).effects@.len(),
                self.effects@.len() == n,
                self.fixtures == old(self).fixtures,
                self.global_dimmer == old(self).global_dimmer,
                forall|k: int|
                    0 <= k < i ==> (#[trigger] self.effects@[k])@ == with_swap_parameter(
                        old(self)@.effects,
                        p,
                    )[k],
                forall|k: int| i <= k < n ==> (#[trigger] self.effects@[k]) == old(self).effects@[k],
            decreases n - i,
        {
            match &mut self.effects[i] {
                AnyEffect::ColorSwap(e) => {
                    match p {
                        SwapParameter::Smooth(smooth) => e.set_smooth(smooth),
                        SwapParameter::Offset(offset) => e.set_offset_pattern(offset),
                        SwapParameter::Bpm(bpm) => e.set_bpm(bpm),
                    }
                },
                AnyEffect::Gradient(_) => {},
            }
            i += 1;
        }
        assert(self@.effects =~= with_swap_parameter(old(self)@.effects, p));
    }

    /// Carries out a command.
    pub fn apply_command(&mut self, command: &Command)
        ensures
            final(self)@ == commanded(old(self)@, *command),
    {
        match command {
            Command::Strobo { state } => handle_strobo(state.as_str(), self),
            Command::Preset { .. } => {},
            Command::InputValues { .. } => {},
            Command::Color { .. } => {},
            Command::Smooth { smooth } => self.set_swap_parameter(SwapParameter::Smooth(*smooth)),
            Command::Offset { offset } => self.set_swap_parameter(SwapParameter::Offset(*offset)),
            Command::Bpm { bpm } => self.set_swap_parameter(SwapParameter::Bpm(*bpm)),
            Command::Pan1 { pan_1 } => {
                let _ = self.write(MOVING_HEAD_1, &Setting::Pan(*pan_1), true);
            },
            Command::Tilt1 { tilt_1 } => {
                let _ = self.write(MOVING_HEAD_1, &Setting::Tilt(*tilt_1), true);
            },
            Command::Pan2 { pan_2 } => {
                let _ = self.write(MOVING_HEAD_2, &Setting::Pan(*pan_2), true);
            },
            Command::Tilt2 { tilt_2 } => {
                let _ = self.write(MOVING_HEAD_2, &Setting::Tilt(*tilt_2), true);
            },
            Command::Color1 { color_1 } => {
                let _ = self.write(MOVING_HEAD_1, &Setting::Wheel(*color_1), true);
            },
            Command::Color2 { color_2 } => {
                let _ = self.write(MOVING_HEAD_2, &Setting::Wheel(*color_2), true);
            },
            Command::Gobo1 { gobo_1 } => {
                let _ = self.write(MOVING_HEAD_1, &Setting::Gobo(*gobo_1), true);
            },
            Command::Gobo2 { gobo_2 } => {
                let _ = self.write(MOVING_HEAD_2, &Setting::Gobo(*gobo_2), true);
            },
            Command::Focus1 { focus_1 } => {
                let _ = self.write(MOVING_HEAD_1, &Setting::Focus(*focus_1), true);
            },
            Command::Focus2 { focus_2 } => {
                let _ = self.write(MOVING_HEAD_2, &Setting::Focus(*focus_2), true);
            },
            Command::Dimmer1 { dimmer_1 } => {
                let _ = self.write(MOVING_HEAD_1, &Setting::Intensity(*dimmer_1), true);
            },
            Command::Dimmer2 { dimmer_2 } => {
                let _ = self.write(MOVING_HEAD_2, &Setting::Intensity(*dimmer_2), true);
            },
        }
    }
}

/// Why a text is no colour.
#[derive(Clone, Copy, PartialEq, Eq, Structural, Debug)]
pub enum HexColorError {
    /// The text has fewer than seven bytes.
    TooShort,
    /// One of the three pairs behind the first byte is no number in base 16.
    InvalidDigit,
}

/// The value of a digit in base 16, in either case.
pub open spec fn hex_digit(b: u8) -> Option<u8> {
    if 48 <= b <= 57 {
        Some((b - 48) as u8)
    } else if 97 <= b <= 102 {
        Some((b - 87) as u8)
    } else if 65 <= b <= 70 {
        Some((b - 55) as u8)
    } else {
        None
    }
}

/// The number that two bytes write in base 16: two digits, or a plus sign
/// and one digit.
pub open spec fn hex_pair(a: u8, b: u8) -> Option<u8> {
    match (hex_digit(a), hex_digit(b)) {
        (Some(high), Some(low)) => Some((16 * high + low) as u8),
        (None, Some(low)) => if a == 43 {
            Some(low)
        } else {
            None
        },
        _ => None,
    }
}

/// The colour that a text of the form `#rrggbb` names. The first byte is
/// not looked at, nor is anything behind the seventh.
pub open spec fn hex_color(bytes: Seq<u8>) -> Result<(u8, u8, u8), HexColorError> {
    if bytes.len() < 7 {
        Err(HexColorError::TooShort)
    } else {
        match (
            hex_pair(bytes[1], bytes[2]),
            hex_pair(bytes[3], bytes[4]),
            hex_pair(bytes[5], bytes[6]),
        ) {
            (Some(r), Some(g), Some(b)) => Ok((r, g, b)),
            _ => Err(HexColorError::InvalidDigit),
        }
    }
}

/// Reads one digit in base 16.
pub fn read_hex_digit(b: u8) -> (r: Option<u8>)
    ensures
        r == hex_digit(b),
{
    if 48 <= b && b <= 57 {
        Some(b - 48)
    } else if 97 <= b && b <= 102 {
        Some(b - 87)
    } else if 65 <= b && b <= 70 {
        Some(b - 55)
    } else {
        None
    }
}

/// Reads a number of two places in base 16.
pub fn read_hex_pair(a: u8, b: u8) -> (r: Option<u8>)
    ensures
        r == hex_pair(a, b),
{
    match (read_hex_digit(a), read_hex_digit(b)) {
        (Some(high), Some(low)) => Some(16 * high + low),
        (None, Some(low)) => if a == 43 {
            Some(low)
        } else {
            None
        },
        _ => None,
    }
}

/// Reads a colour of the form `#rrggbb`.
pub fn hex_to_rgb(hex: &str) -> (r: Result<(u8, u8, u8), HexColorError>)
    ensures
        r == hex_color(hex.spec_bytes()),
{
    let bytes = hex.as_bytes();
    if bytes.len() < 7 {
        return Err(HexColorError::TooShort);
    }
    let red = read_hex_pair(bytes[1], bytes[2]);
    let green = read_hex_pair(bytes[3], bytes[4]);
    let blue = read_hex_pair(bytes[5], bytes[6]);
    match (red, green, blue) {
        (Some(r), Some(g), Some(b)) => Ok((r, g, b)),
        _ => Err(HexColorError::InvalidDigit),
    }
}

/// A command changes values and parameters only: the patch and the global
/// dimmer stay, the number of effects stays, and a universe that could be
/// rendered before the command can be rendered after it.
pub proof fn lemma_command_keeps_patch(u: UniverseView, c: Command)
    ensures
        same_patch(u.fixtures, commanded(u, c).fixtures),
        all_fit(commanded(u, c).fixtures) == all_fit(u.fixtures),
        commanded(u, c).global_dimmer == u.global_dimmer,
        commanded(u, c).effects.len() == u.effects.len(),
{
    let after = commanded(u, c).fixtures;
    match c {
        Command::Strobo { state } => {
            lemma_written_keeps_patch(
                u.fixtures,
                0,
                SettingView::Named("strobe"@, strobe_level(state@)),
                true,
            );
        },
        Command::Pan1 { pan_1 } => {
            lemma_written_keeps_patch(u.fixtures, MOVING_HEAD_1, SettingView::Pan(pan_1), true);
        },
        Command::Tilt1 { tilt_1 } => {
            lemma_written_keeps_patch(u.fixtures, MOVING_HEAD_1, SettingView::Tilt(tilt_1), true);
        },
        Command::Pan2 { pan_2 } => {
            lemma_written_keeps_patch(u.fixtures, MOVING_HEAD_2, SettingView::Pan(pan_2), true);
        },
        Command::Tilt2 { tilt_2 } => {
            lemma_written_keeps_patch(u.fixtures, MOVING_HEAD_2, SettingView::Tilt(tilt_2), true);
        },
        Command::Color1 { color_1 } => {
            lemma_written_keeps_patch(u.fixtures, MOVING_HEAD_1, SettingView::Wheel(color_1), true);
        },
        Command::Color2 { color_2 } => {
            lemma_written_keeps_patch(u.fixtures, MOVING_HEAD_2, SettingView::Wheel(color_2), true);
        },
        Command::Gobo1 { gobo_1 } => {
            lemma_written_keeps_patch(u.fixtures, MOVING_HEAD_1, SettingView::Gobo(gobo_1), true);
        },
        Command::Gobo2 { gobo_2 } => {
            lemma_written_keeps_patch(u.fixtures, MOVING_HEAD_2, SettingView::Gobo(gobo_2), true);
        },
        Command::Focus1 { focus_1 } => {
            lemma_written_keeps_patch(u.fixtures, MOVING_HEAD_1, SettingView::Focus(focus_1), true);
        },
        Command::Focus2 { focus_2 } => {
            lemma_written_keeps_patch(u.fixtures, MOVING_HEAD_2, SettingView::Focus(focus_2), true);
        },
        Command::Dimmer1 { dimmer_1 } => {
            lemma_written_keeps_patch(
                u.fixtures,
                MOVING_HEAD_1,
                SettingView::Intensity(dimmer_1),
                true,
            );
        },
        Command::Dimmer2 { dimmer_2 } => {
            lemma_written_keeps_patch(
                u.fixtures,
                MOVING_HEAD_2,
                SettingView::Intensity(dimmer_2),
                true,
            );
        },
        _ => {
            assert forall|i: int| 0 <= i < u.fixtures.len() implies (
            #[trigger] u.fixtures[i]).same_layout(after[i]) by {
                lemma_same_layout_reflexive(u.fixtures[i]);
            }
        },
    }
    lemma_same_patch(u.fixtures, after);
}

/// No command resets a clock: after any command every colour swap stands at
/// the time it stood at before, so the next tick goes on from there.
pub proof fn lemma_command_keeps_clocks(u: UniverseView, c: Command, i: int)
    requires
        0 <= i < u.effects.len(),
    ensures
        commanded(u, c).effects.len() == u.effects.len(),
        match u.effects[i] {
            EffectView::ColorSwap(before) => commanded(u, c).effects[i] matches EffectView::ColorSwap(
                after,
            ) && after.clock == before.clock && after.colors.len() == before.colors.len(),
            EffectView::Gradient(before) => commanded(u, c).effects[i] == u.effects[i],
        },
{
}

} // verus!
