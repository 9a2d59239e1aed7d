//! The patch of the installation: seven LED PARs and two moving heads.

use crate::fixture::{
    ColorWheel, ComponentView, CustomValue, Dimmer, Fixture, FixtureComponent, FixtureView, Focus,
    GoboWheel, Position,
};
use crate::text::{decimal, numbered};
use crate::universe::{all_fit, ids_unique, ranges_disjoint, Universe, UniverseView};
use vstd::prelude::*;

verus! {

/// Number of LED PARs.
pub const PAR_COUNT: u8 = 7;

/// Channels of one LED PAR.
pub const PAR_CHANNELS: u16 = 6;

/// Number of moving heads.
pub const MOVING_HEAD_COUNT: u8 = 2;

/// Address of the first moving head.
pub const MOVING_HEAD_BASE: u16 = 100;

/// Channels of one moving head.
pub const MOVING_HEAD_CHANNELS: u16 = 16;

/// A named channel at 0.
pub open spec fn named_channel(name: Seq<char>) -> ComponentView {
    ComponentView::CustomValue { name, value: 0 }
}

/// A dimmer that is fully open.
pub open spec fn open_dimmer() -> ComponentView {
    ComponentView::Dimmer(Dimmer { local: 255, intensity: 255 })
}

/// The `n`-th LED PAR, counted from 1: id `n`, six channels from address
/// `1 + 6 * (n - 1)` on: cool white, warm white, amber, colour temperature,
/// strobe and master dimmer.
pub open spec fn led_par(n: int) -> FixtureView {
    FixtureView {
        id: n as u8,
        name: "LED PAR "@ + decimal(n as nat),
        dmx_address: (1 + (n - 1) * PAR_CHANNELS) as u16,
        components: seq![
            named_channel("cool_white"@),
            named_channel("warm_white"@),
            named_channel("amber"@),
            named_channel("color_temp"@),
            named_channel("strobe"@),
            open_dimmer(),
        ],
    }
}

/// The `n`-th moving head, counted from 1: id `7 + n`, sixteen channels from
/// address `100 + 16 * (n - 1)` on.
pub open spec fn moving_head(n: int) -> FixtureView {
    FixtureView {
        id: (PAR_COUNT + n) as u8,
        name: "Moving Head "@ + decimal(n as nat),
        dmx_address: (MOVING_HEAD_BASE + (n - 1) * MOVING_HEAD_CHANNELS) as u16,
        components: seq![
            ComponentView::Position(Position { pan: 0, tilt: 0 }),
            ComponentView::ColorWheel(ColorWheel { index: 0 }),
            ComponentView::Gobo(GoboWheel { index: 0 }),
            ComponentView::Zero,
            ComponentView::Zero,
            ComponentView::Zero,
            ComponentView::Zero,
            ComponentView::Focus(Focus { value: 0 }),
            ComponentView::Max,
            open_dimmer(),
            ComponentView::Zero,
            ComponentView::Zero,
            ComponentView::Zero,
        ],
    }
}

/// The fixtures of the installation in patch order: the PARs, then the
/// moving heads.
pub open spec fn patched_fixtures() -> Seq<FixtureView> {
    Seq::new(
        (PAR_COUNT + MOVING_HEAD_COUNT) as nat,
        |j: int|
            if j < PAR_COUNT {
                led_par(j + 1)
            } else {
                moving_head(j + 1 - PAR_COUNT)
            },
    )
}

/// A named channel at 0.
fn channel(name: &str) -> (c: FixtureComponent)
    ensures
        c@ == named_channel(name@),
{
    FixtureComponent::CustomValue(CustomValue { name: name.to_owned(), value: 0 })
}

/// Builds the `n`-th LED PAR.
fn build_led_par(n: u8) -> (f: Fixture)
    requires
        1 <= n <= PAR_COUNT,
    ensures
        f@ == led_par(n as int),
{
    let address: u16 = 1 + ((n - 1) as u16) * PAR_CHANNELS;
    let mut par = Fixture::new(n, address, numbered("LED PAR ", n));
    par.add_component(channel("cool_white"));
    par.add_component(channel("warm_white"));
    par.add_component(channel("amber"));
    par.add_component(channel("color_temp"));
    par.add_component(channel("strobe"));
    par.add_component(FixtureComponent::Dimmer(Dimmer { intensity: 255, local: 255 }));
    assert(par@.components =~= led_par(n as int).components);
    par
}

/// Builds the `n`-th moving head.
fn build_moving_head(n: u8) -> (f: Fixture)
    requires
        1 <= n <= MOVING_HEAD_COUNT,
    ensures
        f@ == moving_head(n as int),
{
    let address: u16 = MOVING_HEAD_BASE + ((n - 1) as u16) * MOVING_HEAD_CHANNELS;
    let mut head = Fixture::new(PAR_COUNT + n, address, numbered("Moving Head ", n));
    head.add_component(FixtureComponent::Position(Position { pan: 0, tilt: 0 }));
    head.add_component(FixtureComponent::ColorWheel(ColorWheel { index: 0 }));
    head.add_component(FixtureComponent::Gobo(GoboWheel { index: 0 }));
    head.add_component(FixtureComponent::Zero);
    head.add_component(FixtureComponent::Zero);
    head.add_component(FixtureComponent::Zero);
    head.add_component(FixtureComponent::Zero);
    head.add_component(FixtureComponent::Focus(Focus { value: 0 }));
    head.add_component(FixtureComponent::Max);
    head.add_component(FixtureComponent::Dimmer(Dimmer { intensity: 255, local: 255 }));
    head.add_component(FixtureComponent::Zero);
    head.add_component(FixtureComponent::Zero);
    head.add_component(FixtureComponent::Zero);
    assert(head@.components =~= moving_head(n as int).components);
    head
}

/// An LED PAR takes six channels, a moving head sixteen.
pub proof fn lemma_patch_widths(n: int)
    ensures
        led_par(n).width() == PAR_CHANNELS,
        moving_head(n).width() == MOVING_HEAD_CHANNELS,
{
    reveal_with_fuel(crate::fixture::total_width, 14);
    assert(led_par(n).components.len() == 6);
    assert(moving_head(n).components.len() == 13);
}

/// The patch lies inside the frame, no id occurs twice in it, and no two
/// of its fixtures claim a channel in common.
pub proof fn lemma_patch_is_valid()
    ensures
        all_fit(patched_fixtures()),
        ids_unique(patched_fixtures()),
        ranges_disjoint(patched_fixtures()),
{
    let fs = patched_fixtures();
    assert forall|j: int| 0 <= j < fs.len() implies (#[trigger] fs[j]).fits_frame() && fs[j].width()
        == (if j < PAR_COUNT {
        6int
    } else {
        16int
    }) by {
        lemma_patch_widths(j + 1);
        lemma_patch_widths(j + 1 - PAR_COUNT);
    }
    assert forall|i: int, j: int| 0 <= i < j < fs.len() implies !crate::universe::share_channel(
        #[trigger] fs[i],
        #[trigger] fs[j],
    ) by {
        assert(fs[i].fits_frame() && fs[j].fits_frame());
    }
}

/// The universe of the installation: the patched fixtures, no effects, the
/// global dimmer fully open.
pub fn get_universe() -> (u: Universe)
    ensures
        u@ == (UniverseView {
            fixtures: patched_fixtures(),
            effects: Seq::empty(),
            global_dimmer: 255,
        }),
        all_fit(u@.fixtures),
        ids_unique(u@.fixtures),
        ranges_disjoint(u@.fixtures),
{
    let mut universe = Universe::new();
    let mut n: u8 = 1;
    while n <= PAR_COUNT
        invariant
            1 <= n <= PAR_COUNT + 1,
            universe@.effects == Seq::<crate::effect::EffectView>::empty(),
            universe@.global_dimmer == 255,
            universe@.fixtures == Seq::new((n - 1) as nat, |j: int| led_par(j + 1)),
        decreases PAR_COUNT + 1 - n,
    {
        universe.add_fixture(build_led_par(n));
        assert(universe@.fixtures =~= Seq::new(n as nat, |j: int| led_par(j + 1)));
        n += 1;
    }
    let mut n: u8 = 1;
    while n <= MOVING_HEAD_COUNT
        invariant
            1 <= n <= MOVING_HEAD_COUNT + 1,
            universe@.effects == Seq::<crate::effect::EffectView>::empty(),
            universe@.global_dimmer == 255,
            universe@.fixtures == Seq::new(
                (PAR_COUNT + n - 1) as nat,
                |j: int|
                    if j < PAR_COUNT {
                        led_par(j + 1)
                    } else {
                        moving_head(j + 1 - PAR_COUNT)
                    },
            ),
        decreases MOVING_HEAD_COUNT + 1 - n,
    {
        universe.add_fixture(build_moving_head(n));
        assert(universe@.fixtures =~= Seq::new(
            (PAR_COUNT + n) as nat,
            |j: int|
                if j < PAR_COUNT {
                    led_par(j + 1)
                } else {
                    moving_head(j + 1 - PAR_COUNT)
                },
        ));
        n += 1;
    }
    proof {
        assert(universe@.fixtures =~= patched_fixtures());
        lemma_patch_is_valid();
    }
    universe
}

} // verus!
