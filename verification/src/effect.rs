//! Effects: behaviours that write into fixtures as time passes.
//!
//! Tempo is given in whole beats per minute and time in whole nanoseconds, so
//! that the place inside a beat is exact (see `timing`). The speed of the
//! gradient is given in thousandths of a palette step per second; its cursor
//! counts units of `1 / STEP_UNITS` of a step.

use crate::fixture::{
    lemma_setting_keeps_layout, Color, ComponentView, Fixture, FixtureView, Setting, SettingView,
};
use crate::timing::{
    advance_clock, beat_crossed, beat_phase, beat_position, clock_after, fade_in_level,
    fade_out_level, level_fading_in, level_fading_out,
};
use crate::universe::{
    has_id, is_first_with_id, lemma_same_ids, lemma_same_layout_reflexive,
    lemma_written_keeps_patch, same_patch, written, Universe, UniverseView,
};
use vstd::prelude::*;

verus! {

/// The three whites of a PAR fixture, in the order in which they follow one
/// another.
#[derive(Clone, Copy, PartialEq, Eq, Structural, Debug)]
pub enum ParColor {
    Cool,
    Warm,
    Amber,
}

impl ParColor {
    /// The colour that follows: cool, warm, amber, and cool again.
    pub open spec fn successor(self) -> ParColor {
        match self {
            ParColor::Cool => ParColor::Warm,
            ParColor::Warm => ParColor::Amber,
            ParColor::Amber => ParColor::Cool,
        }
    }

    /// The name of the channel that carries the colour.
    pub open spec fn channel(self) -> Seq<char> {
        match self {
            ParColor::Cool => "cool_white"@,
            ParColor::Warm => "warm_white"@,
            ParColor::Amber => "amber"@,
        }
    }

    /// The colour a fixture starts with: the place in the row modulo three
    /// where the offset pattern is on, cool for every fixture where it is off.
    pub open spec fn starting(index: int, offset_pattern: bool) -> ParColor {
        if !offset_pattern || index % 3 == 0 {
            ParColor::Cool
        } else if index % 3 == 1 {
            ParColor::Warm
        } else {
            ParColor::Amber
        }
    }

    /// The colour that follows this one.
    pub fn next(&self) -> (r: ParColor)
        ensures
            r == self.successor(),
    {
        match self {
            ParColor::Cool => ParColor::Warm,
            ParColor::Warm => ParColor::Amber,
            ParColor::Amber => ParColor::Cool,
        }
    }

    /// The name of the channel that carries the colour.
    pub fn channel_name(&self) -> (r: &'static str)
        ensures
            r@ == self.channel(),
    {
        match self {
            ParColor::Cool => "cool_white",
            ParColor::Warm => "warm_white",
            ParColor::Amber => "amber",
        }
    }

    /// The starting colour of the fixture at place `index` of the row.
    pub fn start_at(index: usize, offset_pattern: bool) -> (r: ParColor)
        ensures
            r == ParColor::starting(index as int, offset_pattern),
    {
        if !offset_pattern || index % 3 == 0 {
            ParColor::Cool
        } else if index % 3 == 1 {
            ParColor::Warm
        } else {
            ParColor::Amber
        }
    }
}

/// The three channel names differ from one another.
pub proof fn lemma_channels_differ()
    ensures
        ParColor::Cool.channel() != ParColor::Warm.channel(),
        ParColor::Cool.channel() != ParColor::Amber.channel(),
        ParColor::Warm.channel() != ParColor::Amber.channel(),
        forall|c: ParColor| c.channel() != (#[trigger] c.successor()).channel(),
{
    reveal_strlit("cool_white");
    reveal_strlit("warm_white");
    reveal_strlit("amber");
    assert("cool_white"@[0] != "warm_white"@[0]);
    assert("cool_white"@.len() != "amber"@.len());
    assert("warm_white"@.len() != "amber"@.len());
}

/// All three colour channels dark.
pub open spec fn darkened(f: FixtureView) -> FixtureView {
    f.with_all(SettingView::Named("cool_white"@, 0)).with_all(
        SettingView::Named("warm_white"@, 0),
    ).with_all(SettingView::Named("amber"@, 0))
}

/// The fixture showing `color` alone: every colour channel dark, then the
/// first channel of `color` at full level.
pub open spec fn shown(f: FixtureView, color: ParColor) -> FixtureView {
    darkened(f).with_first(SettingView::Named(color.channel(), 255))
}

/// The fixture snapped to `color`: of each colour, the first channel of that
/// name is written, `level` for `color` and dark for the other two.
pub open spec fn snapped(f: FixtureView, color: ParColor, level: u8) -> FixtureView {
    f.with_first(SettingView::Named("cool_white"@, 0)).with_first(
        SettingView::Named("warm_white"@, 0),
    ).with_first(SettingView::Named("amber"@, 0)).with_first(
        SettingView::Named(color.channel(), level),
    )
}

/// The fixture between `color` and the colour that follows it: every colour
/// channel dark, then every channel of `color` at `out` and every channel of
/// the next colour at `inn`.
pub open spec fn crossfaded(f: FixtureView, color: ParColor, out: u8, inn: u8) -> FixtureView {
    darkened(f).with_all(SettingView::Named(color.channel(), out)).with_all(
        SettingView::Named(color.successor().channel(), inn),
    )
}

/// Makes every colour channel of the fixture dark.
pub fn darken(fixture: &mut Fixture)
    ensures
        final(fixture)@ == darkened(old(fixture)@),
{
    fixture.set_all(&Setting::Named("cool_white", 0));
    fixture.set_all(&Setting::Named("warm_white", 0));
    fixture.set_all(&Setting::Named("amber", 0));
}

impl ParColor {
    /// Shows this colour alone on the fixture.
    pub fn apply(&self, fixture: &mut Fixture)
        ensures
            final(fixture)@ == shown(old(fixture)@, *self),
    {
        darken(fixture);
        let _ = fixture.set_first(&Setting::Named(self.channel_name(), 255));
    }
}

/// Snaps the fixture to `color` at `level`.
pub fn apply_transition(fixture: &mut Fixture, color: ParColor, level: u8)
    ensures
        final(fixture)@ == snapped(old(fixture)@, color, level),
{
    let _ = fixture.set_first(&Setting::Named("cool_white", 0));
    let _ = fixture.set_first(&Setting::Named("warm_white", 0));
    let _ = fixture.set_first(&Setting::Named("amber", 0));
    let _ = fixture.set_first(&Setting::Named(color.channel_name(), level));
}

/// Sets the fixture between `color` and the colour that follows it.
pub fn apply_crossfade(fixture: &mut Fixture, color: ParColor, out: u8, inn: u8)
    ensures
        final(fixture)@ == crossfaded(old(fixture)@, color, out, inn),
{
    darken(fixture);
    fixture.set_all(&Setting::Named(color.channel_name(), out));
    fixture.set_all(&Setting::Named(color.next().channel_name(), inn));
}

/// Units of the gradient's cursor in one palette step: a speed in
/// thousandths of a step per second times a time in nanoseconds.
pub const STEP_UNITS: u64 = 1_000_000_000_000;

/// Cycles a row of PAR fixtures through the three whites in time with a beat.
///
/// The fixture at place `i` of the row is the one with id `i + 1`.
#[derive(Debug)]
pub struct ColorSwapEffect {
    /// Tempo in beats per minute.
    pub bpm: u32,
    /// Whether neighbours start on different colours.
    pub offset_pattern: bool,
    /// Whether colours fade into one another over the beat.
    pub smooth: bool,
    accumulated_time: u64,
    current_colors: Vec<ParColor>,
}

/// What a colour swap is: its parameters, its clock in nanoseconds and the
/// current colour of each fixture of the row.
pub struct ColorSwapView {
    pub bpm: u32,
    pub offset_pattern: bool,
    pub smooth: bool,
    pub clock: u64,
    pub colors: Seq<ParColor>,
}

/// Sweeps a cursor over a palette and paints the blend of the two entries
/// around it.
#[derive(Debug)]
pub struct GradientEffect {
    /// Thousandths of a palette step per second.
    pub speed: u32,
    /// The palette, one RGB triple per entry.
    pub colors: Vec<[u8; 3]>,
    /// The cursor, in units of `1 / STEP_UNITS` of a step.
    pub position: u128,
}

/// What a gradient is: speed, palette and cursor.
pub struct GradientView {
    pub speed: u32,
    pub colors: Seq<[u8; 3]>,
    pub position: u128,
}

/// One of the effects that a universe can run.
#[derive(Debug)]
pub enum AnyEffect {
    ColorSwap(ColorSwapEffect),
    Gradient(GradientEffect),
}

/// What an effect is.
pub enum EffectView {
    ColorSwap(ColorSwapView),
    Gradient(GradientView),
}

impl View for ColorSwapEffect {
    type V = ColorSwapView;

    closed spec fn view(&self) -> ColorSwapView {
        ColorSwapView {
            bpm: self.bpm,
            offset_pattern: self.offset_pattern,
            smooth: self.smooth,
            clock: self.accumulated_time,
            colors: self.current_colors@,
        }
    }
}

impl View for GradientEffect {
    type V = GradientView;

    open spec fn view(&self) -> GradientView {
        GradientView { speed: self.speed, colors: self.colors@, position: self.position }
    }
}

impl View for AnyEffect {
    type V = EffectView;

    open spec fn view(&self) -> EffectView {
        match self {
            AnyEffect::ColorSwap(e) => EffectView::ColorSwap(e@),
            AnyEffect::Gradient(e) => EffectView::Gradient(e@),
        }
    }
}

/// The starting colours of a row of `count` fixtures.
pub open spec fn starting_colors(count: nat, offset_pattern: bool) -> Seq<ParColor> {
    Seq::new(count, |i: int| ParColor::starting(i, offset_pattern))
}

impl ColorSwapView {
    /// Whether the row holds a place for the fixture with this id: place
    /// `id - 1`.
    pub open spec fn reaches(self, id: u8) -> bool {
        1 <= id <= self.colors.len()
    }

    /// The effect after a tick of `elapsed` nanoseconds: the clock moves on,
    /// and where a beat began, each fixture of the row that is patched takes
    /// its next colour.
    pub open spec fn after_tick(self, elapsed: u64, fixtures: Seq<FixtureView>) -> ColorSwapView {
        let clock = advance_clock(self.clock, elapsed);
        ColorSwapView {
            clock,
            colors: Seq::new(
                self.colors.len(),
                |i: int|
                    if beat_crossed(clock, self.bpm, elapsed) && i < 255 && has_id(
                        fixtures,
                        (i + 1) as u8,
                    ) {
                        self.colors[i].successor()
                    } else {
                        self.colors[i]
                    },
            ),
            ..self
        }
    }

    /// What the effect, at its current clock, makes of a fixture whose
    /// colour is `color`: snapped to it at full level, or, where fading is
    /// on, between it and the next colour by the passed part of the beat.
    pub open spec fn paint(self, f: FixtureView, color: ParColor) -> FixtureView {
        if self.smooth {
            let phase = beat_phase(self.clock, self.bpm);
            crossfaded(f, color, fade_out_level(phase), fade_in_level(phase))
        } else {
            snapped(f, color, 255)
        }
    }

    /// The fixtures after a tick of `elapsed` nanoseconds: for each id that
    /// the row reaches, the first fixture with that id is painted with its
    /// colour after the tick; all others are left alone.
    pub open spec fn painted(self, elapsed: u64, fixtures: Seq<FixtureView>) -> Seq<FixtureView> {
        let after = self.after_tick(elapsed, fixtures);
        Seq::new(
            fixtures.len(),
            |j: int|
                if self.reaches(fixtures[j].id) && is_first_with_id(fixtures, fixtures[j].id, j) {
                    after.paint(fixtures[j], after.colors[fixtures[j].id - 1])
                } else {
                    fixtures[j]
                },
        )
    }
}

impl ColorSwapEffect {
    /// A colour swap for a row of `fixture_count` fixtures, its clock at 0
    /// and every fixture on its starting colour.
    pub fn new(bpm: u32, fixture_count: usize, offset_pattern: bool, smooth: bool) -> (e: Self)
        ensures
            e@ == (ColorSwapView {
                bpm,
                offset_pattern,
                smooth,
                clock: 0,
                colors: starting_colors(fixture_count as nat, offset_pattern),
            }),
    {
        let mut current_colors: Vec<ParColor> = Vec::new();
        let mut i: usize = 0;
        while i < fixture_count
            invariant
                i <= fixture_count,
                current_colors@ == starting_colors(i as nat, offset_pattern),
            decreases fixture_count - i,
        {
            current_colors.push(ParColor::start_at(i, offset_pattern));
            assert(current_colors@ =~= starting_colors((i + 1) as nat, offset_pattern));
            i += 1;
        }
        ColorSwapEffect { bpm, offset_pattern, smooth, accumulated_time: 0, current_colors }
    }

    /// Switches the offset pattern and puts every fixture back on its
    /// starting colour. The clock runs on.
    pub fn set_offset_pattern(&mut self, offset_pattern: bool)
        ensures
            final(self)@ == (ColorSwapView {
                offset_pattern,
                colors: starting_colors(old(self)@.colors.len(), offset_pattern),
                ..old(self)@
            }),
    {
        self.offset_pattern = offset_pattern;
        let n = self.current_colors.len();
        let mut i: usize = 0;
        while i < n
            invariant
                i <= n,
                n == self.current_colors@.len(),
                self.bpm == old(self).bpm,
                self.smooth == old(self).smooth,
                self.accumulated_time == old(self).accumulated_time,
                self.offset_pattern == offset_pattern,
                forall|k: int|
                    0 <= k < i ==> self.current_colors@[k] == ParColor::starting(k, offset_pattern),
            decreases n - i,
        {
            self.current_colors[i] = ParColor::start_at(i, offset_pattern);
            i += 1;
        }
        assert(self.current_colors@ =~= starting_colors(n as nat, offset_pattern));
    }

    /// Sets the tempo. Clock and colours stay as they are.
    pub fn set_bpm(&mut self, bpm: u32)
        ensures
            final(self)@ == (ColorSwapView { bpm, ..old(self)@ }),
    {
        self.bpm = bpm;
    }

    /// Switches fading on or off. Clock and colours stay as they are.
    pub fn set_smooth(&mut self, smooth: bool)
        ensures
            final(self)@ == (ColorSwapView { smooth, ..old(self)@ }),
    {
        self.smooth = smooth;
    }

    /// Nanoseconds that the effect has been ticked for.
    pub fn accumulated_time(&self) -> (t: u64)
        ensures
            t == self@.clock,
    {
        self.accumulated_time
    }

    /// The current colour of each fixture of the row.
    pub fn current_colors(&self) -> (r: Vec<ParColor>)
        ensures
            r@ == self@.colors,
    {
        self.current_colors.clone()
    }
}

impl GradientView {
    /// Length of the palette in cursor units.
    pub open spec fn span(self) -> int {
        self.colors.len() * STEP_UNITS
    }

    /// The effect after a tick of `elapsed` nanoseconds: the cursor moves on
    /// by speed times time and wraps at the end of the palette. Without a
    /// palette nothing moves.
    pub open spec fn after_tick(self, elapsed: u64) -> GradientView {
        if self.colors.len() == 0 {
            self
        } else {
            GradientView {
                position: ((self.position + self.speed * elapsed) % self.span()) as u128,
                ..self
            }
        }
    }

    /// Place in the palette of the entry at or before the cursor.
    pub open spec fn index(self) -> int {
        (self.position / (STEP_UNITS as u128)) as int % (self.colors.len() as int)
    }

    /// How far the cursor is past that entry, in cursor units.
    pub open spec fn fraction(self) -> int {
        (self.position % (STEP_UNITS as u128)) as int
    }

    /// The colour under the cursor: each channel is the entry before the
    /// cursor and the entry after it, weighted by the cursor's distance from
    /// the other one, rounded down. The entry after the last is the first.
    pub open spec fn color(self) -> Color {
        let from = self.colors[self.index()];
        let to = self.colors[(self.index() + 1) % (self.colors.len() as int)];
        Color {
            r: blend(from[0], to[0], self.fraction()),
            g: blend(from[1], to[1], self.fraction()),
            b: blend(from[2], to[2], self.fraction()),
        }
    }

    /// The fixtures after a tick of `elapsed` nanoseconds: the first RGB
    /// component of the first fixture with id 2 shows the colour under the
    /// moved cursor. Without a palette nothing is painted.
    pub open spec fn painted(self, elapsed: u64, fixtures: Seq<FixtureView>) -> Seq<FixtureView> {
        if self.colors.len() == 0 {
            fixtures
        } else {
            written(fixtures, 2, SettingView::Rgb(self.after_tick(elapsed).color()), false)
        }
    }
}

/// The value between `from` and `to` at `fraction` of `STEP_UNITS` of the
/// way, rounded down.
pub open spec fn blend(from: u8, to: u8, fraction: int) -> u8 {
    (((STEP_UNITS - fraction) * from + fraction * to) / (STEP_UNITS as int)) as u8
}

/// Computes the value between `from` and `to`.
pub fn blend_channel(from: u8, to: u8, fraction: u64) -> (r: u8)
    requires
        fraction < STEP_UNITS,
    ensures
        r == blend(from, to, fraction as int),
{
    let rest: u64 = STEP_UNITS - fraction;
    assert(rest * from <= rest * 255) by (nonlinear_arith)
        requires
            from <= 255,
            0 <= rest,
    ;
    assert(fraction * to <= fraction * 255) by (nonlinear_arith)
        requires
            to <= 255,
            0 <= fraction,
    ;
    let weighted: u64 = rest * (from as u64) + fraction * (to as u64);
    (weighted / STEP_UNITS) as u8
}

impl EffectView {
    /// The effect after a tick of `elapsed` nanoseconds on these fixtures.
    pub open spec fn after_tick(self, elapsed: u64, fixtures: Seq<FixtureView>) -> EffectView {
        match self {
            EffectView::ColorSwap(e) => EffectView::ColorSwap(e.after_tick(elapsed, fixtures)),
            EffectView::Gradient(e) => EffectView::Gradient(e.after_tick(elapsed)),
        }
    }

    /// The fixtures after a tick of `elapsed` nanoseconds.
    pub open spec fn painted(self, elapsed: u64, fixtures: Seq<FixtureView>) -> Seq<FixtureView> {
        match self {
            EffectView::ColorSwap(e) => e.painted(elapsed, fixtures),
            EffectView::Gradient(e) => e.painted(elapsed, fixtures),
        }
    }
}

/// A behaviour that is ticked with the time that has passed and writes into
/// the fixtures of a universe.
///
/// A tick may come at any pace: `elapsed_nanos` is the time since the tick
/// before, whatever it was. A fixture that the effect is meant for and that
/// is not patched is passed over. A tick touches neither the universe's list
/// of effects nor its global dimmer.
pub trait Effect {
    /// What the effect is.
    spec fn model(&self) -> EffectView;

    /// Moves the effect on by `elapsed_nanos` and writes into the fixtures.
    fn tick(&mut self, elapsed_nanos: u64, universe: &mut Universe)
        ensures
            final(self).model() == old(self).model().after_tick(
                elapsed_nanos,
                old(universe)@.fixtures,
            ),
            final(universe)@ == (UniverseView {
                fixtures: old(self).model().painted(elapsed_nanos, old(universe)@.fixtures),
                ..old(universe)@
            }),
    ;
}

impl Effect for GradientEffect {
    open spec fn model(&self) -> EffectView {
        EffectView::Gradient(self@)
    }

    fn tick(&mut self, elapsed_nanos: u64, universe: &mut Universe) {
        let n = self.colors.len();
        if n == 0 {
            return ;
        }
        let unit: u128 = STEP_UNITS as u128;
        let span: u128 = (n as u128) * unit;
        let speed: u128 = self.speed as u128;
        let elapsed: u128 = elapsed_nanos as u128;
        assert(speed * elapsed <= 0xffff_ffff * 0xffff_ffff_ffff_ffff) by (nonlinear_arith)
            requires
                speed <= 0xffff_ffff,
                elapsed <= 0xffff_ffff_ffff_ffff,
        ;
        let step: u128 = speed * elapsed;
        let ghost start = self.position;
        let position: u128 = (self.position % span + step) % span;
        proof {
            vstd::arithmetic::div_mod::lemma_add_mod_noop(
                start as int,
                step as int,
                span as int,
            );
            vstd::arithmetic::div_mod::lemma_small_mod((step % span) as nat, span as nat);
            vstd::arithmetic::div_mod::lemma_add_mod_noop(
                (start % span) as int,
                step as int,
                span as int,
            );
            vstd::arithmetic::div_mod::lemma_mod_twice(start as int, span as int);
        }
        self.position = position;
        assert(self@ == old(self)@.after_tick(elapsed_nanos));
        let index: usize = ((position / unit) % (n as u128)) as usize;
        let next: usize = if index + 1 == n {
            0
        } else {
            index + 1
        };
        let fraction: u64 = (position % unit) as u64;
        let from = self.colors[index];
        let to = self.colors[next];
        assert(self@.index() == index);
        assert(((index + 1) as int) % (n as int) == next) by {
            if index + 1 == n {
                vstd::arithmetic::div_mod::lemma_mod_self_0(n as int);
            } else {
                vstd::arithmetic::div_mod::lemma_small_mod((index + 1) as nat, n as nat);
            }
        }
        let color = Color {
            r: blend_channel(from[0], to[0], fraction),
            g: blend_channel(from[1], to[1], fraction),
            b: blend_channel(from[2], to[2], fraction),
        };
        assert(color == self@.color());
        let _ = universe.write(2, &Setting::Rgb(color), false);
    }
}

impl Effect for ColorSwapEffect {
    open spec fn model(&self) -> EffectView {
        EffectView::ColorSwap(self@)
    }

    fn tick(&mut self, elapsed_nanos: u64, universe: &mut Universe) {
        self.accumulated_time = clock_after(self.accumulated_time, elapsed_nanos);
        let place = beat_position(self.accumulated_time, self.bpm, elapsed_nanos);
        let out = level_fading_out(place.phase);
        let inn = level_fading_in(place.phase);
        let n = self.current_colors.len();
        let ghost before = old(self)@;
        let ghost patch = old(universe)@.fixtures;
        let ghost after = before.after_tick(elapsed_nanos, patch);
        let mut i: usize = 0;
        while i < n && i < 255
            invariant
                i <= n,
                i <= 255,
                n == before.colors.len(),
                before == old(self)@,
                patch == old(universe)@.fixtures,
                after == before.after_tick(elapsed_nanos, patch),
                self.bpm == before.bpm,
                self.smooth == before.smooth,
                self.offset_pattern == before.offset_pattern,
                self.accumulated_time == after.clock,
                place.phase == beat_phase(after.clock, before.bpm),
                place.crossed == beat_crossed(after.clock, before.bpm, elapsed_nanos),
                out == fade_out_level(place.phase),
                inn == fade_in_level(place.phase),
                self.current_colors@.len() == n,
                forall|k: int|
                    0 <= k < n ==> self.current_colors@[k] == if k < i {
                        after.colors[k]
                    } else {
                        before.colors[k]
                    },
                universe@.effects == old(universe)@.effects,
                universe@.global_dimmer == old(universe)@.global_dimmer,
                universe@.fixtures.len() == patch.len(),
                forall|j: int|
                    0 <= j < patch.len() ==> (#[trigger] universe@.fixtures[j]).id == patch[j].id,
                forall|j: int|
                    0 <= j < patch.len() ==> (#[trigger] universe@.fixtures[j]) == if 1
                        <= patch[j].id <= i && is_first_with_id(patch, patch[j].id, j) {
                        after.paint(patch[j], after.colors[patch[j].id - 1])
                    } else {
                        patch[j]
                    },
            decreases n - i,
        {
            let id: u8 = (i + 1) as u8;
            let ghost now = universe@.fixtures;
            proof {
                lemma_same_ids(patch, now);
            }
            match universe.get_fixture_by_id_mut(id) {
                Some(fixture) => {
                    if place.crossed {
                        self.current_colors[i] = self.current_colors[i].next();
                    }
                    let color = self.current_colors[i];
                    if self.smooth {
                        apply_crossfade(fixture, color, out, inn);
                    } else {
                        apply_transition(fixture, color, 255);
                    }
                },
                None => {},
            }
            proof {
                assert forall|j: int| 0 <= j < patch.len() implies (#[trigger] universe@.fixtures[j])
                    == if 1 <= patch[j].id <= i + 1 && is_first_with_id(patch, patch[j].id, j) {
                    after.paint(patch[j], after.colors[patch[j].id - 1])
                } else {
                    patch[j]
                } && universe@.fixtures[j].id == patch[j].id by {
                    if is_first_with_id(patch, id, j) {
                        assert(now[j].id == id);
                        assert(has_id(patch, id));
                        assert(now[j] == patch[j]);
                    } else {
                        assert(universe@.fixtures[j] == now[j]);
                    }
                }
                assert(universe@.effects =~= old(universe)@.effects);
            }
            i += 1;
        }
        proof {
            assert(self.current_colors@ =~= after.colors);
            assert(universe@.fixtures =~= before.painted(elapsed_nanos, patch));
        }
    }
}

impl Effect for AnyEffect {
    open spec fn model(&self) -> EffectView {
        self@
    }

    fn tick(&mut self, elapsed_nanos: u64, universe: &mut Universe) {
        match self {
            AnyEffect::ColorSwap(e) => e.tick(elapsed_nanos, universe),
            AnyEffect::Gradient(e) => e.tick(elapsed_nanos, universe),
        }
    }
}

/// A fixture that has the layout of a second, which has the layout of a
/// third, has the layout of the third.
pub proof fn lemma_same_layout_transitive(a: FixtureView, b: FixtureView, c: FixtureView)
    requires
        a.same_layout(b),
        b.same_layout(c),
    ensures
        a.same_layout(c),
{
    assert forall|i: int| 0 <= i < a.components.len() implies (#[trigger] a.components[i]).same_shape(
        c.components[i],
    ) by {
        assert(a.components[i].same_shape(b.components[i]));
        assert(b.components[i].same_shape(c.components[i]));
    }
}

/// Darkening changes values only.
pub proof fn lemma_darkened_keeps_layout(f: FixtureView)
    ensures
        f.same_layout(darkened(f)),
{
    let a = f.with_all(SettingView::Named("cool_white"@, 0));
    let b = a.with_all(SettingView::Named("warm_white"@, 0));
    lemma_setting_keeps_layout(f, SettingView::Named("cool_white"@, 0));
    lemma_setting_keeps_layout(a, SettingView::Named("warm_white"@, 0));
    lemma_setting_keeps_layout(b, SettingView::Named("amber"@, 0));
    lemma_same_layout_transitive(f, a, b);
    lemma_same_layout_transitive(f, b, darkened(f));
}

/// Showing, snapping and fading a colour change values only: the fixture
/// keeps its id, name, address and the shape of every component.
pub proof fn lemma_paint_keeps_layout(f: FixtureView, color: ParColor, out: u8, inn: u8)
    ensures
        f.same_layout(shown(f, color)),
        f.same_layout(snapped(f, color, out)),
        f.same_layout(crossfaded(f, color, out, inn)),
{
    lemma_darkened_keeps_layout(f);
    let d = darkened(f);
    lemma_setting_keeps_layout(d, SettingView::Named(color.channel(), 255));
    lemma_same_layout_transitive(f, d, shown(f, color));

    let a = f.with_first(SettingView::Named("cool_white"@, 0));
    let b = a.with_first(SettingView::Named("warm_white"@, 0));
    let c = b.with_first(SettingView::Named("amber"@, 0));
    lemma_setting_keeps_layout(f, SettingView::Named("cool_white"@, 0));
    lemma_setting_keeps_layout(a, SettingView::Named("warm_white"@, 0));
    lemma_setting_keeps_layout(b, SettingView::Named("amber"@, 0));
    lemma_setting_keeps_layout(c, SettingView::Named(color.channel(), out));
    lemma_same_layout_transitive(f, a, b);
    lemma_same_layout_transitive(f, b, c);
    lemma_same_layout_transitive(f, c, snapped(f, color, out));

    let e = d.with_all(SettingView::Named(color.channel(), out));
    lemma_setting_keeps_layout(d, SettingView::Named(color.channel(), out));
    lemma_setting_keeps_layout(e, SettingView::Named(color.successor().channel(), inn));
    lemma_same_layout_transitive(f, d, e);
    lemma_same_layout_transitive(f, e, crossfaded(f, color, out, inn));
}

/// What a cross-fade leaves in each component: a channel named after the
/// current colour carries the outgoing level, one named after the next
/// colour the incoming level, one named after the third colour is dark, and
/// every other component is as it was.
pub proof fn lemma_crossfade_levels(f: FixtureView, color: ParColor, out: u8, inn: u8, k: int)
    requires
        0 <= k < f.components.len(),
    ensures
        crossfaded(f, color, out, inn).components.len() == f.components.len(),
        crossfaded(f, color, out, inn).components[k] == match f.components[k] {
            ComponentView::CustomValue { name, value } => ComponentView::CustomValue {
                name,
                value: if name == color.channel() {
                    out
                } else if name == color.successor().channel() {
                    inn
                } else if name == color.successor().successor().channel() {
                    0
                } else {
                    value
                },
            },
            other => other,
        },
{
    lemma_channels_differ();
}

/// What showing a colour leaves in each component: of the channels named
/// after the colour shown, the first carries full level and every other one
/// is dark; a channel named after one of the other two colours is dark; and
/// every other component is as it was.
pub proof fn lemma_show_levels(f: FixtureView, color: ParColor, k: int)
    requires
        0 <= k < f.components.len(),
    ensures
        shown(f, color).components.len() == f.components.len(),
        shown(f, color).components[k] == match f.components[k] {
            ComponentView::CustomValue { name, value } => ComponentView::CustomValue {
                name,
                value: if name == color.channel() {
                    if crate::fixture::is_first_taker(
                        f.components,
                        SettingView::Named(name, 0),
                        k,
                    ) {
                        255
                    } else {
                        0
                    }
                } else if name == color.successor().channel() || name
                    == color.successor().successor().channel() {
                    0
                } else {
                    value
                },
            },
            other => other,
        },
{
    lemma_channels_differ();
    let d = darkened(f);
    let probe = SettingView::Named(color.channel(), 255);
    assert forall|j: int| 0 <= j < f.components.len() implies (#[trigger] d.components[j]).takes(
        probe,
    ) == f.components[j].takes(SettingView::Named(color.channel(), 0)) by {}
    if crate::fixture::is_first_taker(d.components, probe, k) {
        assert forall|j: int| 0 <= j < k implies !(#[trigger] f.components[j]).takes(
            SettingView::Named(color.channel(), 0),
        ) by {
            assert(!d.components[j].takes(probe));
        }
    }
    if crate::fixture::is_first_taker(f.components, SettingView::Named(color.channel(), 0), k) {
        assert forall|j: int| 0 <= j < k implies !(#[trigger] d.components[j]).takes(probe) by {
            assert(!f.components[j].takes(SettingView::Named(color.channel(), 0)));
        }
    }
}

/// What a snap leaves in each component: of each of the three colours, the
/// first channel of that name carries `level` if it is the colour snapped
/// to and is dark if not; every other component is as it was.
pub proof fn lemma_snap_levels(f: FixtureView, color: ParColor, level: u8, k: int)
    requires
        0 <= k < f.components.len(),
    ensures
        snapped(f, color, level).components.len() == f.components.len(),
        snapped(f, color, level).components[k] == match f.components[k] {
            ComponentView::CustomValue { name, value } => ComponentView::CustomValue {
                name,
                value: if crate::fixture::is_first_taker(
                    f.components,
                    SettingView::Named(name, 0),
                    k,
                ) && (name == "cool_white"@ || name == "warm_white"@ || name == "amber"@) {
                    if name == color.channel() {
                        level
                    } else {
                        0
                    }
                } else {
                    value
                },
            },
            other => other,
        },
{
    lemma_channels_differ();
    let s1 = SettingView::Named("cool_white"@, 0);
    let s2 = SettingView::Named("warm_white"@, 0);
    let s3 = SettingView::Named("amber"@, 0);
    let s4 = SettingView::Named(color.channel(), level);
    let a = f.with_first(s1);
    let b = a.with_first(s2);
    let c = b.with_first(s3);
    match f.components[k] {
        ComponentView::CustomValue { name, value } => {
            let probe = SettingView::Named(name, 0);
            lemma_first_taker_stable(f, s1, probe);
            lemma_first_taker_stable(a, s2, probe);
            lemma_first_taker_stable(b, s3, probe);
            lemma_first_taker_by_name(c.components, name, 0, level, k);
        },
        _ => {},
    }
}

/// Which component is the first to take a named setting depends on the name
/// alone, not on the value to be written.
proof fn lemma_first_taker_by_name(cs: Seq<ComponentView>, name: Seq<char>, v: u8, w: u8, k: int)
    ensures
        crate::fixture::is_first_taker(cs, SettingView::Named(name, v), k)
            == crate::fixture::is_first_taker(cs, SettingView::Named(name, w), k),
{
    let a = SettingView::Named(name, v);
    let b = SettingView::Named(name, w);
    assert forall|j: int| 0 <= j < cs.len() implies (#[trigger] cs[j]).takes(a) == cs[j].takes(b) by {}
    if crate::fixture::is_first_taker(cs, a, k) {
        assert forall|j: int| 0 <= j < k implies !(#[trigger] cs[j]).takes(b) by {
            assert(!cs[j].takes(a));
        }
    }
    if crate::fixture::is_first_taker(cs, b, k) {
        assert forall|j: int| 0 <= j < k implies !(#[trigger] cs[j]).takes(a) by {
            assert(!cs[j].takes(b));
        }
    }
}

/// Writing one setting does not change which component is the first to take
/// another: writing changes values, and taking goes by kind and name.
proof fn lemma_first_taker_stable(f: FixtureView, written: SettingView, probe: SettingView)
    ensures
        forall|k: int|
            crate::fixture::is_first_taker(f.with_first(written).components, probe, k)
                == crate::fixture::is_first_taker(f.components, probe, k),
{
    let g = f.with_first(written);
    assert forall|j: int| 0 <= j < f.components.len() implies (#[trigger] g.components[j]).takes(
        probe,
    ) == f.components[j].takes(probe) by {}
    assert forall|k: int|
        crate::fixture::is_first_taker(g.components, probe, k) == crate::fixture::is_first_taker(
            f.components,
            probe,
            k,
        ) by {
        if crate::fixture::is_first_taker(g.components, probe, k) {
            assert(f.components[k].takes(probe));
            assert forall|j: int| 0 <= j < k implies !(#[trigger] f.components[j]).takes(probe) by {
                assert(!g.components[j].takes(probe));
            }
        }
        if crate::fixture::is_first_taker(f.components, probe, k) {
            assert(g.components[k].takes(probe));
            assert forall|j: int| 0 <= j < k implies !(#[trigger] g.components[j]).takes(probe) by {
                assert(!f.components[j].takes(probe));
            }
        }
    }
}

/// A tick changes values only: after it the universe holds the same fixtures
/// at the same addresses, with components of the same shapes.
pub proof fn lemma_tick_keeps_patch(e: EffectView, elapsed: u64, fixtures: Seq<FixtureView>)
    ensures
        same_patch(fixtures, e.painted(elapsed, fixtures)),
{
    match e {
        EffectView::ColorSwap(swap) => {
            let after = swap.after_tick(elapsed, fixtures);
            let phase = beat_phase(after.clock, after.bpm);
            assert forall|j: int| 0 <= j < fixtures.len() implies (#[trigger] fixtures[j]).same_layout(
                swap.painted(elapsed, fixtures)[j],
            ) by {
                lemma_same_layout_reflexive(fixtures[j]);
                if swap.reaches(fixtures[j].id) {
                    let color = after.colors[fixtures[j].id - 1];
                    lemma_paint_keeps_layout(
                        fixtures[j],
                        color,
                        fade_out_level(phase),
                        fade_in_level(phase),
                    );
                    lemma_paint_keeps_layout(fixtures[j], color, 255, 0);
                }
            }
        },
        EffectView::Gradient(gradient) => {
            if gradient.colors.len() == 0 {
                assert forall|j: int| 0 <= j < fixtures.len() implies (
                #[trigger] fixtures[j]).same_layout(fixtures[j]) by {
                    lemma_same_layout_reflexive(fixtures[j]);
                }
            } else {
                lemma_written_keeps_patch(
                    fixtures,
                    2,
                    SettingView::Rgb(gradient.after_tick(elapsed).color()),
                    false,
                );
            }
        },
    }
}

/// A change of tempo does not touch the clock: the tick that follows adds
/// its time to the time that had been counted before the change.
pub proof fn lemma_tempo_change_keeps_clock(
    e: ColorSwapView,
    bpm: u32,
    elapsed: u64,
    fixtures: Seq<FixtureView>,
)
    ensures
        (ColorSwapView { bpm, ..e }).clock == e.clock,
        (ColorSwapView { bpm, ..e }).after_tick(elapsed, fixtures).clock == advance_clock(
            e.clock,
            elapsed,
        ),
        (ColorSwapView { bpm, ..e }).after_tick(elapsed, fixtures).clock == e.after_tick(
            elapsed,
            fixtures,
        ).clock,
{
}

} // verus!
