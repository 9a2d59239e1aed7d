//! One round of the effect scheduler.
//!
//! The scheduler wakes at its own pace, measures the time since the round
//! before and ticks every effect once with it. While the effects are ticked
//! they are detached from the universe, so that each has the fixtures to
//! itself; afterwards they are attached again in their old order.

use crate::effect::{
    lemma_same_layout_transitive, lemma_tick_keeps_patch, AnyEffect, Effect, EffectView,
};
use crate::fixture::FixtureView;
use crate::universe::{
    all_fit, effect_views, lemma_same_layout_reflexive, lemma_same_patch, same_patch, Universe,
    UniverseView,
};
use vstd::prelude::*;

verus! {

/// The effects and the fixtures after every effect, in order, was ticked
/// once with `elapsed` nanoseconds: each effect sees the fixtures as the
/// effects before it left them.
pub open spec fn ticked(effects: Seq<EffectView>, fixtures: Seq<FixtureView>, elapsed: u64) -> (
    Seq<EffectView>,
    Seq<FixtureView>,
)
    decreases effects.len(),
{
    if effects.len() == 0 {
        (Seq::empty(), fixtures)
    } else {
        let (done, painted) = ticked(effects.drop_last(), fixtures, elapsed);
        (
            done.push(effects.last().after_tick(elapsed, painted)),
            effects.last().painted(elapsed, painted),
        )
    }
}

/// One round leaves as many effects as it found.
pub proof fn lemma_ticked_count(effects: Seq<EffectView>, fixtures: Seq<FixtureView>, elapsed: u64)
    ensures
        ticked(effects, fixtures, elapsed).0.len() == effects.len(),
    decreases effects.len(),
{
    if effects.len() > 0 {
        lemma_ticked_count(effects.drop_last(), fixtures, elapsed);
    }
}

impl Universe {
    /// Ticks every effect once with the time that has passed since the last
    /// round. The global dimmer is not touched.
    pub fn tick_effects(&mut self, elapsed_nanos: u64)
        ensures
            final(self)@ == (UniverseView {
                effects: ticked(old(self)@.effects, old(self)@.fixtures, elapsed_nanos).0,
                fixtures: ticked(old(self)@.effects, old(self)@.fixtures, elapsed_nanos).1,
                global_dimmer: old(self)@.global_dimmer,
            }),
    {
        let mut effects: Vec<AnyEffect> = Vec::new();
        std::mem::swap(&mut self.effects, &mut effects);
        let ghost start = old(self)@;
        let n = effects.len();
        let mut i: usize = 0;
        proof {
            assert(start.effects.subrange(0, 0) =~= Seq::empty());
            assert(effect_views(effects@) =~= start.effects);
        }
        while i < n
            invariant
                i <= n,
                n == start.effects.len(),
                effects@.len() == n,
                self.effects@.len() == 0,
                self@.global_dimmer == start.global_dimmer,
                self@.fixtures == ticked(start.effects.subrange(0, i as int), start.fixtures, elapsed_nanos).1,
                effect_views(effects@).subrange(0, i as int) == ticked(
                    start.effects.subrange(0, i as int),
                    start.fixtures,
                    elapsed_nanos,
                ).0,
                forall|k: int| i <= k < n ==> (#[trigger] effects@[k])@ == start.effects[k],
            decreases n - i,
        {
            let ghost done = effect_views(effects@).subrange(0, i as int);
            let ghost painted = self@.fixtures;
            let ghost rest = effects@;
            assert(self@.effects.len() == 0);
            effects[i].tick(elapsed_nanos, self);
            proof {
                let upto = start.effects.subrange(0, i + 1);
                assert(upto.drop_last() =~= start.effects.subrange(0, i as int));
                assert(upto.last() == start.effects[i as int]);
                assert(effect_views(effects@).subrange(0, i + 1) =~= done.push(
                    start.effects[i as int].after_tick(elapsed_nanos, painted),
                )) by {
                    assert forall|k: int| 0 <= k < i implies effect_views(effects@)[k] == done[k] by {
                        assert(effects@[k] == rest[k]);
                        assert(effect_views(rest).subrange(0, i as int)[k] == effect_views(
                            rest,
                        )[k]);
                    }
                }
                assert(self@.effects.len() == self.effects@.len());
            }
            i += 1;
        }
        proof {
            assert(start.effects.subrange(0, n as int) =~= start.effects);
            assert(effect_views(effects@).subrange(0, n as int) =~= effect_views(effects@));
        }
        self.effects = effects;
    }
}

/// A round of the scheduler changes values only: the patch stays, and a
/// universe that could be rendered before the round can be rendered after
/// it.
pub proof fn lemma_round_keeps_patch(
    effects: Seq<EffectView>,
    fixtures: Seq<FixtureView>,
    elapsed: u64,
)
    ensures
        same_patch(fixtures, ticked(effects, fixtures, elapsed).1),
        all_fit(ticked(effects, fixtures, elapsed).1) == all_fit(fixtures),
    decreases effects.len(),
{
    if effects.len() == 0 {
        assert forall|i: int| 0 <= i < fixtures.len() implies (#[trigger] fixtures[i]).same_layout(
            fixtures[i],
        ) by {
            lemma_same_layout_reflexive(fixtures[i]);
        }
    } else {
        let before = ticked(effects.drop_last(), fixtures, elapsed).1;
        let after = ticked(effects, fixtures, elapsed).1;
        lemma_round_keeps_patch(effects.drop_last(), fixtures, elapsed);
        lemma_tick_keeps_patch(effects.last(), elapsed, before);
        assert forall|i: int| 0 <= i < fixtures.len() implies (#[trigger] fixtures[i]).same_layout(
            after[i],
        ) by {
            assert(before[i].same_layout(after[i]));
            lemma_same_layout_transitive(fixtures[i], before[i], after[i]);
        }
    }
    lemma_same_patch(fixtures, ticked(effects, fixtures, elapsed).1);
}

} // verus!
