//! The universe: all fixtures of one output line, the effects that run on
//! them, and the frame of 512 channel values that they render to.

use crate::effect::{AnyEffect, EffectView};
use crate::fixture::{
    lemma_setting_keeps_layout, Fixture, FixtureView, Setting, SettingView, FRAME_CHANNELS,
};
use vstd::prelude::*;

verus! {

/// The shared state: fixtures in patch order, running effects and the global
/// dimmer.
#[derive(Debug)]
pub struct Universe {
    pub fixtures: Vec<Fixture>,
    pub effects: Vec<AnyEffect>,
    pub global_dimmer: u8,
}

/// What a universe is.
pub struct UniverseView {
    pub fixtures: Seq<FixtureView>,
    pub effects: Seq<EffectView>,
    pub global_dimmer: u8,
}

/// Why a patch is refused.
#[derive(Clone, Copy, PartialEq, Eq, Structural, Debug)]
pub enum PatchError {
    /// The fixture with this id has address 0 or reaches beyond the frame.
    OutOfFrame { id: u8 },
    /// This id is carried by more than one fixture.
    DuplicateId { id: u8 },
}

/// The views of a run of fixtures, in order.
pub open spec fn fixture_views(fixtures: Seq<Fixture>) -> Seq<FixtureView> {
    Seq::new(fixtures.len(), |i: int| fixtures[i]@)
}

/// The views of a run of effects, in order.
pub open spec fn effect_views(effects: Seq<AnyEffect>) -> Seq<EffectView> {
    Seq::new(effects.len(), |i: int| effects[i]@)
}

impl View for Universe {
    type V = UniverseView;

    open spec fn view(&self) -> UniverseView {
        UniverseView {
            fixtures: fixture_views(self.fixtures@),
            effects: effect_views(self.effects@),
            global_dimmer: self.global_dimmer,
        }
    }
}

/// Whether place `i` holds the first fixture with this id: the one that a
/// lookup by id finds.
pub open spec fn is_first_with_id(fixtures: Seq<FixtureView>, id: u8, i: int) -> bool {
    &&& 0 <= i < fixtures.len()
    &&& fixtures[i].id == id
    &&& forall|j: int| 0 <= j < i ==> (#[trigger] fixtures[j]).id != id
}

/// Whether some fixture has this id.
pub open spec fn has_id(fixtures: Seq<FixtureView>, id: u8) -> bool {
    exists|i: int| 0 <= i < fixtures.len() && (#[trigger] fixtures[i]).id == id
}

/// Whether every fixture lies inside the frame.
pub open spec fn all_fit(fixtures: Seq<FixtureView>) -> bool {
    forall|i: int| 0 <= i < fixtures.len() ==> (#[trigger] fixtures[i]).fits_frame()
}

/// Whether no id is carried by two fixtures.
pub open spec fn ids_unique(fixtures: Seq<FixtureView>) -> bool {
    forall|i: int, j: int|
        0 <= i < j < fixtures.len() ==> (#[trigger] fixtures[i]).id != (#[trigger] fixtures[j]).id
}

/// Whether the id of the fixture at place `i` occurs before it.
pub open spec fn repeats_id(fixtures: Seq<FixtureView>, i: int) -> bool {
    exists|j: int| 0 <= j < i && (#[trigger] fixtures[j]).id == fixtures[i].id
}

/// Whether place `i` holds the first fixture that does not lie inside the
/// frame.
pub open spec fn is_first_misfit(fixtures: Seq<FixtureView>, i: int) -> bool {
    &&& 0 <= i < fixtures.len()
    &&& !fixtures[i].fits_frame()
    &&& forall|j: int| 0 <= j < i ==> (#[trigger] fixtures[j]).fits_frame()
}

/// Whether place `i` holds the first fixture whose id occurs before it.
pub open spec fn is_first_repeat(fixtures: Seq<FixtureView>, i: int) -> bool {
    &&& 0 <= i < fixtures.len()
    &&& repeats_id(fixtures, i)
    &&& forall|j: int| 0 <= j < i ==> !#[trigger] repeats_id(fixtures, j)
}

/// Ids are unique exactly where no fixture repeats an id that came before.
pub proof fn lemma_no_repeat_is_unique(fixtures: Seq<FixtureView>)
    ensures
        ids_unique(fixtures) <==> forall|x: int|
            0 <= x < fixtures.len() ==> !#[trigger] repeats_id(fixtures, x),
{
    if ids_unique(fixtures) {
        assert forall|x: int| 0 <= x < fixtures.len() implies !#[trigger] repeats_id(
            fixtures,
            x,
        ) by {
            if repeats_id(fixtures, x) {
                let y = choose|y: int| 0 <= y < x && (#[trigger] fixtures[y]).id == fixtures[x].id;
                assert(fixtures[y].id != fixtures[x].id);
            }
        }
    }
    if forall|x: int| 0 <= x < fixtures.len() ==> !#[trigger] repeats_id(fixtures, x) {
        assert forall|i: int, j: int| 0 <= i < j < fixtures.len() implies (#[trigger] fixtures[i]).id
            != (#[trigger] fixtures[j]).id by {
            if fixtures[i].id == fixtures[j].id {
                assert(repeats_id(fixtures, j));
            }
        }
    }
}

/// Whether two runs hold the same fixtures up to their values.
pub open spec fn same_patch(a: Seq<FixtureView>, b: Seq<FixtureView>) -> bool {
    &&& a.len() == b.len()
    &&& forall|i: int| 0 <= i < a.len() ==> (#[trigger] a[i]).same_layout(b[i])
}

/// The value of channel index `k` of the frame: the byte of the last fixture
/// in patch order that covers the channel, and 0 where none does.
pub open spec fn channel_value(fixtures: Seq<FixtureView>, k: int) -> u8
    decreases fixtures.len(),
{
    if fixtures.len() == 0 {
        0
    } else if fixtures.last().covers(k) {
        fixtures.last().render()[k - fixtures.last().start()]
    } else {
        channel_value(fixtures.drop_last(), k)
    }
}

/// The frame that a run of fixtures renders to.
pub open spec fn frame_of(fixtures: Seq<FixtureView>) -> Seq<u8> {
    Seq::new(FRAME_CHANNELS as nat, |k: int| channel_value(fixtures, k))
}

/// Where fixtures overlap, the one patched last wins: a channel that fixture
/// `i` covers and no later fixture covers carries the byte of fixture `i`.
pub proof fn lemma_last_patched_wins(fixtures: Seq<FixtureView>, i: int, k: int)
    requires
        0 <= i < fixtures.len(),
        fixtures[i].covers(k),
        forall|j: int| i < j < fixtures.len() ==> !(#[trigger] fixtures[j]).covers(k),
    ensures
        channel_value(fixtures, k) == fixtures[i].render()[k - fixtures[i].start()],
    decreases fixtures.len(),
{
    if i < fixtures.len() - 1 {
        assert(!fixtures[fixtures.len() - 1].covers(k));
        let rest = fixtures.drop_last();
        assert forall|j: int| i < j < rest.len() implies !(#[trigger] rest[j]).covers(k) by {
            assert(rest[j] == fixtures[j]);
        }
        lemma_last_patched_wins(rest, i, k);
    }
}

/// A channel that no fixture covers is 0.
pub proof fn lemma_unpatched_is_zero(fixtures: Seq<FixtureView>, k: int)
    requires
        forall|j: int| 0 <= j < fixtures.len() ==> !(#[trigger] fixtures[j]).covers(k),
    ensures
        channel_value(fixtures, k) == 0,
    decreases fixtures.len(),
{
    if fixtures.len() > 0 {
        assert(!fixtures[fixtures.len() - 1].covers(k));
        let rest = fixtures.drop_last();
        assert forall|j: int| 0 <= j < rest.len() implies !(#[trigger] rest[j]).covers(k) by {
            assert(rest[j] == fixtures[j]);
        }
        lemma_unpatched_is_zero(rest, k);
    }
}

impl Universe {
    /// A universe without fixtures and effects, the global dimmer fully open.
    pub fn new() -> (u: Universe)
        ensures
            u@ == (UniverseView {
                fixtures: Seq::empty(),
                effects: Seq::empty(),
                global_dimmer: 255,
            }),
    {
        let u = Universe { fixtures: Vec::new(), effects: Vec::new(), global_dimmer: 255 };
        assert(u@.fixtures =~= Seq::empty());
        assert(u@.effects =~= Seq::empty());
        u
    }

    /// Place of the first fixture with this id.
    pub fn position_of(&self, id: u8) -> (r: Option<usize>)
        ensures
            match r {
                Some(i) => is_first_with_id(self@.fixtures, id, i as int),
                None => !has_id(self@.fixtures, id),
            },
    {
        let n = self.fixtures.len();
        let mut i: usize = 0;
        while i < n
            invariant
                i <= n,
                n == self.fixtures@.len(),
                forall|j: int| 0 <= j < i ==> (#[trigger] self@.fixtures[j]).id != id,
            decreases n - i,
        {
            if self.fixtures[i].id == id {
                assert(self@.fixtures[i as int].id == id);
                return Some(i);
            }
            i += 1;
        }
        None
    }

    /// The first fixture with this id, or `None` where no fixture has it.
    pub fn get_fixture_by_id(&self, id: u8) -> (r: Option<&Fixture>)
        ensures
            match r {
                Some(f) => exists|i: int|
                    is_first_with_id(self@.fixtures, id, i) && *f == self.fixtures@[i],
                None => !has_id(self@.fixtures, id),
            },
    {
        match self.position_of(id) {
            Some(i) => Some(&self.fixtures[i]),
            None => None,
        }
    }

    /// The first fixture with this id, for writing. What the caller leaves in
    /// it takes that fixture's place; nothing else changes.
    pub fn get_fixture_by_id_mut(&mut self, id: u8) -> (r: Option<&mut Fixture>)
        ensures
            match r {
                Some(f) => exists|i: int|
                    is_first_with_id(old(self)@.fixtures, id, i) && *f == old(self).fixtures@[i]
                        && final(self).fixtures@ == old(self).fixtures@.update(i, *final(f))
                        && final(self).effects == old(self).effects && final(self).global_dimmer
                        == old(self).global_dimmer,
                None => !has_id(old(self)@.fixtures, id) && *final(self) == *old(self),
            },
    {
        match self.position_of(id) {
            Some(i) => Some(&mut self.fixtures[i]),
            None => None,
        }
    }

    /// Appends a fixture behind those that are patched.
    pub fn add_fixture(&mut self, fixture: Fixture)
        ensures
            final(self)@ == (UniverseView {
                fixtures: old(self)@.fixtures.push(fixture@),
                ..old(self)@
            }),
    {
        self.fixtures.push(fixture);
        assert(self@.fixtures =~= old(self)@.fixtures.push(fixture@));
    }

    /// Appends an effect behind those that run.
    pub fn insert_present(&mut self, present: AnyEffect)
        ensures
            final(self)@ == (UniverseView {
                effects: old(self)@.effects.push(present@),
                ..old(self)@
            }),
    {
        self.effects.push(present);
        assert(self@.effects =~= old(self)@.effects.push(present@));
    }
}

/// The frame of a run extended by one fixture: the new fixture's bytes on
/// the channels it covers, the frame of the run before it elsewhere.
pub proof fn lemma_frame_push(fixtures: Seq<FixtureView>, f: FixtureView, k: int)
    ensures
        channel_value(fixtures.push(f), k) == if f.covers(k) {
            f.render()[k - f.start()]
        } else {
            channel_value(fixtures, k)
        },
{
    assert(fixtures.push(f).drop_last() =~= fixtures);
}

impl Universe {
    /// Renders all fixtures into one frame: every channel starts at 0 and
    /// each fixture, in patch order, writes its bytes from its address on.
    /// Where address ranges overlap, the fixture patched later overwrites the
    /// earlier one.
    pub fn get_dmx_values(&self) -> (frame: [u8; 512])
        requires
            all_fit(self@.fixtures),
        ensures
            frame@ == frame_of(self@.fixtures),
    {
        let mut frame = [0u8; 512];
        let n = self.fixtures.len();
        let mut i: usize = 0;
        proof {
            assert(self@.fixtures.subrange(0, 0) =~= Seq::empty());
            assert(frame@ =~= frame_of(self@.fixtures.subrange(0, 0)));
        }
        while i < n
            invariant
                i <= n,
                n == self.fixtures@.len(),
                all_fit(self@.fixtures),
                frame@ == frame_of(self@.fixtures.subrange(0, i as int)),
            decreases n - i,
        {
            let values = self.fixtures[i].get_dmx_values();
            let ghost f = self@.fixtures[i as int];
            assert(f.fits_frame());
            let start: usize = (self.fixtures[i].dmx_address - 1) as usize;
            let ghost before = frame@;
            let m = values.len();
            let mut j: usize = 0;
            while j < m
                invariant
                    j <= m,
                    m == values@.len(),
                    start + m <= 512,
                    frame@.len() == 512,
                    forall|k: int|
                        0 <= k < 512 ==> frame@[k] == if start <= k < start + j {
                            values@[k - start]
                        } else {
                            before[k]
                        },
                decreases m - j,
            {
                frame[start + j] = values[j];
                j += 1;
            }
            proof {
                let done = self@.fixtures.subrange(0, i as int);
                assert(done.push(f) =~= self@.fixtures.subrange(0, i + 1));
                assert forall|k: int| 0 <= k < 512 implies frame@[k] == channel_value(
                    done.push(f),
                    k,
                ) by {
                    lemma_frame_push(done, f, k);
                }
                assert(frame@ =~= frame_of(self@.fixtures.subrange(0, i + 1)));
            }
            i += 1;
        }
        proof {
            assert(self@.fixtures.subrange(0, n as int) =~= self@.fixtures);
        }
        frame
    }

    /// Whether every fixture lies inside the frame, so that the universe can
    /// be rendered.
    pub fn fits_frame(&self) -> (r: bool)
        ensures
            r == all_fit(self@.fixtures),
    {
        let n = self.fixtures.len();
        let mut i: usize = 0;
        while i < n
            invariant
                i <= n,
                n == self.fixtures@.len(),
                forall|x: int| 0 <= x < i ==> (#[trigger] self@.fixtures[x]).fits_frame(),
            decreases n - i,
        {
            if !self.fixtures[i].fits_frame() {
                assert(!self@.fixtures[i as int].fits_frame());
                return false;
            }
            i += 1;
        }
        true
    }

    /// Checks the patch: every fixture must lie inside the frame and no id
    /// may occur twice. Overlapping address ranges are accepted. The error
    /// names the first fixture in patch order that is out of the frame or,
    /// where all fit, the first whose id occurred before it.
    pub fn validate(&self) -> (r: Result<(), PatchError>)
        ensures
            r is Ok <==> all_fit(self@.fixtures) && ids_unique(self@.fixtures),
            r matches Err(PatchError::OutOfFrame { .. }) <==> !all_fit(self@.fixtures),
            match r {
                Ok(_) => true,
                Err(PatchError::OutOfFrame { id }) => exists|i: int|
                    #[trigger] is_first_misfit(self@.fixtures, i) && self@.fixtures[i].id == id,
                Err(PatchError::DuplicateId { id }) => exists|i: int|
                    #[trigger] is_first_repeat(self@.fixtures, i) && self@.fixtures[i].id == id,
            },
    {
        let n = self.fixtures.len();
        let mut i: usize = 0;
        while i < n
            invariant
                i <= n,
                n == self.fixtures@.len(),
                forall|x: int| 0 <= x < i ==> (#[trigger] self@.fixtures[x]).fits_frame(),
            decreases n - i,
        {
            if !self.fixtures[i].fits_frame() {
                assert(is_first_misfit(self@.fixtures, i as int));
                return Err(PatchError::OutOfFrame { id: self.fixtures[i].id });
            }
            i += 1;
        }
        let mut i: usize = 0;
        while i < n
            invariant
                i <= n,
                n == self.fixtures@.len(),
                all_fit(self@.fixtures),
                forall|x: int| 0 <= x < i ==> !#[trigger] repeats_id(self@.fixtures, x),
            decreases n - i,
        {
            let id = self.fixtures[i].id;
            let mut j: usize = 0;
            while j < i
                invariant
                    j <= i,
                    i < n,
                    n == self.fixtures@.len(),
                    id == self@.fixtures[i as int].id,
                    all_fit(self@.fixtures),
                    forall|x: int| 0 <= x < i ==> !#[trigger] repeats_id(self@.fixtures, x),
                    forall|x: int| 0 <= x < j ==> (#[trigger] self@.fixtures[x]).id != id,
                decreases i - j,
            {
                if self.fixtures[j].id == id {
                    proof {
                        let fs = self@.fixtures;
                        assert(fs[j as int].id == fs[i as int].id);
                        assert(repeats_id(fs, i as int));
                        assert(is_first_repeat(fs, i as int));
                    }
                    return Err(PatchError::DuplicateId { id });
                }
                j += 1;
            }
            i += 1;
        }
        proof {
            lemma_no_repeat_is_unique(self@.fixtures);
        }
        Ok(())
    }
}

impl Clone for Universe {
    /// A copy of the fixtures and the global dimmer. Effects are not copied:
    /// the copy runs none.
    fn clone(&self) -> (r: Self)
        ensures
            r@ == (UniverseView { effects: Seq::empty(), ..self@ }),
    {
        let mut fixtures: Vec<Fixture> = Vec::new();
        let n = self.fixtures.len();
        let mut i: usize = 0;
        while i < n
            invariant
                i <= n,
                n == self.fixtures@.len(),
                fixtures@.len() == i,
                fixture_views(fixtures@) == self@.fixtures.subrange(0, i as int),
            decreases n - i,
        {
            let ghost before = fixtures@;
            let copy = self.fixtures[i].clone();
            fixtures.push(copy);
            proof {
                assert forall|k: int| 0 <= k < i + 1 implies fixture_views(fixtures@)[k]
                    == self@.fixtures[k] by {
                    if k < i {
                        assert(fixtures@[k] == before[k]);
                        assert(fixture_views(before)[k] == self@.fixtures.subrange(0, i as int)[k]);
                    }
                }
                assert(fixture_views(fixtures@) =~= self@.fixtures.subrange(0, i + 1));
            }
            i += 1;
        }
        let r = Universe { fixtures, effects: Vec::new(), global_dimmer: self.global_dimmer };
        assert(r@.fixtures =~= self@.fixtures);
        assert(r@.effects =~= Seq::empty());
        r
    }
}

/// The run after the setting was written into the first fixture with this
/// id: into every component that takes it where `all` holds, into the first
/// such component where it does not. Unchanged where no fixture has the id.
pub open spec fn written(fixtures: Seq<FixtureView>, id: u8, s: SettingView, all: bool) -> Seq<
    FixtureView,
> {
    Seq::new(
        fixtures.len(),
        |i: int|
            if is_first_with_id(fixtures, id, i) {
                if all {
                    fixtures[i].with_all(s)
                } else {
                    fixtures[i].with_first(s)
                }
            } else {
                fixtures[i]
            },
    )
}

/// The run after the setting was written into every component that takes
/// it, in every fixture.
pub open spec fn written_everywhere(fixtures: Seq<FixtureView>, s: SettingView) -> Seq<
    FixtureView,
> {
    Seq::new(fixtures.len(), |i: int| fixtures[i].with_all(s))
}

/// Writing a setting leaves the patch as it is: the same fixtures at the same
/// addresses with components of the same shapes, so what could be rendered
/// before can be rendered after.
pub proof fn lemma_written_keeps_patch(fixtures: Seq<FixtureView>, id: u8, s: SettingView, all: bool)
    ensures
        same_patch(fixtures, written(fixtures, id, s, all)),
        same_patch(fixtures, written_everywhere(fixtures, s)),
{
    assert forall|i: int| 0 <= i < fixtures.len() implies (#[trigger] fixtures[i]).same_layout(
        written(fixtures, id, s, all)[i],
    ) by {
        lemma_setting_keeps_layout(fixtures[i], s);
        lemma_same_layout_reflexive(fixtures[i]);
    }
    assert forall|i: int| 0 <= i < fixtures.len() implies (#[trigger] fixtures[i]).same_layout(
        written_everywhere(fixtures, s)[i],
    ) by {
        lemma_setting_keeps_layout(fixtures[i], s);
    }
}

/// Every fixture has its own layout.
pub proof fn lemma_same_layout_reflexive(f: FixtureView)
    ensures
        f.same_layout(f),
{
    assert forall|i: int| 0 <= i < f.components.len() implies (#[trigger] f.components[i]).same_shape(
        f.components[i],
    ) by {}
}

/// Runs that agree on the id at every place agree on which ids occur and on
/// which fixture a lookup finds.
pub proof fn lemma_same_ids(a: Seq<FixtureView>, b: Seq<FixtureView>)
    requires
        a.len() == b.len(),
        forall|j: int| 0 <= j < a.len() ==> (#[trigger] b[j]).id == a[j].id,
    ensures
        forall|id: u8| has_id(a, id) == has_id(b, id),
        forall|id: u8, i: int| is_first_with_id(a, id, i) == is_first_with_id(b, id, i),
        ids_unique(a) == ids_unique(b),
{
    assert forall|id: u8| has_id(a, id) == has_id(b, id) by {
        if has_id(a, id) {
            let i = choose|i: int| 0 <= i < a.len() && (#[trigger] a[i]).id == id;
            assert(b[i].id == id);
        }
        if has_id(b, id) {
            let i = choose|i: int| 0 <= i < b.len() && (#[trigger] b[i]).id == id;
            assert(a[i].id == id);
        }
    }
    assert forall|id: u8, i: int| is_first_with_id(a, id, i) == is_first_with_id(b, id, i) by {
        if is_first_with_id(a, id, i) {
            assert(b[i].id == id);
            assert forall|j: int| 0 <= j < i implies (#[trigger] b[j]).id != id by {
                assert(a[j].id != id);
            }
        }
        if is_first_with_id(b, id, i) {
            assert(b[i].id == id);
            assert forall|j: int| 0 <= j < i implies (#[trigger] a[j]).id != id by {
                assert(b[j].id != id);
            }
        }
    }
    if ids_unique(a) {
        assert forall|i: int, j: int| 0 <= i < j < b.len() implies (#[trigger] b[i]).id != (
        #[trigger] b[j]).id by {
            assert(a[i].id != a[j].id);
        }
    }
    if ids_unique(b) {
        assert forall|i: int, j: int| 0 <= i < j < a.len() implies (#[trigger] a[i]).id != (
        #[trigger] a[j]).id by {
            assert(b[i].id != b[j].id);
            assert(b[i].id == a[i].id);
            assert(b[j].id == a[j].id);
        }
    }
}

/// Runs that hold the same fixtures up to their values fit the frame alike,
/// agree on every id, and so on which fixture a lookup finds.
pub proof fn lemma_same_patch(a: Seq<FixtureView>, b: Seq<FixtureView>)
    requires
        same_patch(a, b),
    ensures
        all_fit(a) == all_fit(b),
        ids_unique(a) == ids_unique(b),
        forall|id: u8| has_id(a, id) == has_id(b, id),
        forall|id: u8, i: int| is_first_with_id(a, id, i) == is_first_with_id(b, id, i),
{
    assert forall|i: int| 0 <= i < a.len() implies (#[trigger] b[i]).id == a[i].id
        && b[i].fits_frame() == a[i].fits_frame() by {
        assert(a[i].same_layout(b[i]));
        crate::fixture::lemma_render_stable(a[i], b[i]);
    }
    lemma_same_ids(a, b);
    if all_fit(a) {
        assert forall|i: int| 0 <= i < b.len() implies (#[trigger] b[i]).fits_frame() by {
            assert(a[i].fits_frame());
        }
    }
    if all_fit(b) {
        assert forall|i: int| 0 <= i < a.len() implies (#[trigger] a[i]).fits_frame() by {
            assert(b[i].fits_frame());
        }
    }
}

impl Universe {
    /// Writes the setting into the first fixture with this id: into every
    /// component that takes it where `all` holds, into the first such
    /// component where it does not. Says whether a fixture has the id; where
    /// none has, nothing changes.
    pub fn write(&mut self, id: u8, s: &Setting, all: bool) -> (found: bool)
        ensures
            found == has_id(old(self)@.fixtures, id),
            final(self)@ == (UniverseView {
                fixtures: written(old(self)@.fixtures, id, s@, all),
                ..old(self)@
            }),
    {
        let ghost before = self@;
        match self.position_of(id) {
            Some(i) => {
                if all {
                    self.fixtures[i].set_all(s);
                } else {
                    let _ = self.fixtures[i].set_first(s);
                }
                proof {
                    assert(before.fixtures[i as int].id == id);
                    assert forall|k: int| 0 <= k < before.fixtures.len() implies self@.fixtures[k]
                        == written(before.fixtures, id, s@, all)[k] by {
                        if k != i {
                            assert(!is_first_with_id(before.fixtures, id, k)) by {
                                if k > i {
                                    assert(before.fixtures[i as int].id == id);
                                }
                            }
                        }
                    }
                    assert(self@.fixtures =~= written(before.fixtures, id, s@, all));
                    assert(self@.effects =~= before.effects);
                }
                true
            },
            None => {
                proof {
                    assert forall|k: int| 0 <= k < before.fixtures.len() implies !is_first_with_id(
                        before.fixtures,
                        id,
                        k,
                    ) by {
                        if before.fixtures[k].id == id {
                            assert(has_id(before.fixtures, id));
                        }
                    }
                    assert(self@.fixtures =~= written(before.fixtures, id, s@, all));
                }
                false
            },
        }
    }

    /// Writes the setting into every component that takes it, in every
    /// fixture.
    pub fn write_everywhere(&mut self, s: &Setting)
        ensures
            final(self)@ == (UniverseView {
                fixtures: written_everywhere(old(self)@.fixtures, s@),
                ..old(self)@
            }),
    {
        let n = self.fixtures.len();
        let mut i: usize = 0;
        while i < n
            invariant
                i <= n,
                n == old(self).fixtures@.len(),
                self.fixtures@.len() == n,
                self.effects == old(self).effects,
                self.global_dimmer == old(self).global_dimmer,
                forall|k: int|
                    0 <= k < i ==> (#[trigger] self.fixtures@[k])@ == old(self)@.fixtures[k].with_all(
                        s@,
                    ),
                forall|k: int| i <= k < n ==> (#[trigger] self.fixtures@[k]) == old(self).fixtures@[k],
            decreases n - i,
        {
            self.fixtures[i].set_all(s);
            i += 1;
        }
        assert(self@.fixtures =~= written_everywhere(old(self)@.fixtures, s@));
    }
}

/// Whether two fixtures claim a channel in common.
pub open spec fn share_channel(a: FixtureView, b: FixtureView) -> bool {
    &&& a.width() > 0
    &&& b.width() > 0
    &&& a.start() < b.start() + b.width()
    &&& b.start() < a.start() + a.width()
}

/// Whether no two fixtures claim a channel in common.
pub open spec fn ranges_disjoint(fixtures: Seq<FixtureView>) -> bool {
    forall|i: int, j: int|
        0 <= i < j < fixtures.len() ==> !share_channel(
            #[trigger] fixtures[i],
            #[trigger] fixtures[j],
        )
}

/// Whether the fixtures at places `i` and `j` are the first pair, going by
/// the later place and then by the earlier one, that claims a channel in
/// common.
pub open spec fn is_first_overlap(fixtures: Seq<FixtureView>, i: int, j: int) -> bool {
    &&& 0 <= i < j < fixtures.len()
    &&& share_channel(fixtures[i], fixtures[j])
    &&& forall|x: int, y: int|
        0 <= x < y < fixtures.len() && (y < j || (y == j && x < i)) ==> !share_channel(
            #[trigger] fixtures[x],
            #[trigger] fixtures[y],
        )
}

/// Two fixtures claim a channel in common exactly where some channel is
/// covered by both.
pub proof fn lemma_share_channel(a: FixtureView, b: FixtureView)
    ensures
        share_channel(a, b) <==> exists|k: int| #[trigger] a.covers(k) && b.covers(k),
{
    if share_channel(a, b) {
        let k = if a.start() >= b.start() {
            a.start()
        } else {
            b.start()
        };
        assert(a.covers(k) && b.covers(k));
    }
}

/// Where no two fixtures claim a channel in common, the frame shows every
/// fixture whole: each channel that a fixture covers carries that fixture's
/// byte, wherever the fixture stands in the patch. Where ranges do overlap
/// this fails for the fixture patched earlier.
pub proof fn lemma_disjoint_fixtures_render_whole(fixtures: Seq<FixtureView>, i: int, k: int)
    requires
        ranges_disjoint(fixtures),
        0 <= i < fixtures.len(),
        fixtures[i].covers(k),
    ensures
        channel_value(fixtures, k) == fixtures[i].render()[k - fixtures[i].start()],
{
    assert forall|j: int| i < j < fixtures.len() implies !(#[trigger] fixtures[j]).covers(k) by {
        if fixtures[j].covers(k) {
            lemma_share_channel(fixtures[i], fixtures[j]);
            assert(share_channel(fixtures[i], fixtures[j]));
        }
    }
    lemma_last_patched_wins(fixtures, i, k);
}

impl Universe {
    /// Looks for fixtures whose address ranges overlap. An overlap is no
    /// fault of the patch, but the fixture patched later hides part of the
    /// earlier one in the frame. The result gives the places of the first
    /// such pair, or `None` where all ranges are apart.
    pub fn first_overlap(&self) -> (r: Option<(usize, usize)>)
        requires
            all_fit(self@.fixtures),
        ensures
            match r {
                Some((i, j)) => is_first_overlap(self@.fixtures, i as int, j as int),
                None => ranges_disjoint(self@.fixtures),
            },
    {
        let n = self.fixtures.len();
        let mut j: usize = 0;
        while j < n
            invariant
                j <= n,
                n == self.fixtures@.len(),
                all_fit(self@.fixtures),
                forall|x: int, y: int|
                    0 <= x < y < j ==> !share_channel(
                        #[trigger] self@.fixtures[x],
                        #[trigger] self@.fixtures[y],
                    ),
            decreases n - j,
        {
            assert(self@.fixtures[j as int].fits_frame());
            let later_width = match self.fixtures[j].channel_count() {
                Some(w) => w,
                None => 0,
            };
            let later_start: usize = (self.fixtures[j].dmx_address - 1) as usize;
            let mut i: usize = 0;
            while i < j
                invariant
                    i <= j,
                    j < n,
                    n == self.fixtures@.len(),
                    all_fit(self@.fixtures),
                    later_width == self@.fixtures[j as int].width(),
                    later_start == self@.fixtures[j as int].start(),
                    later_start + later_width <= 512,
                    forall|x: int, y: int|
                        0 <= x < y < j ==> !share_channel(
                            #[trigger] self@.fixtures[x],
                            #[trigger] self@.fixtures[y],
                        ),
                    forall|x: int|
                        0 <= x < i ==> !share_channel(
                            #[trigger] self@.fixtures[x],
                            self@.fixtures[j as int],
                        ),
                decreases j - i,
            {
                assert(self@.fixtures[i as int].fits_frame());
                let width = match self.fixtures[i].channel_count() {
                    Some(w) => w,
                    None => 0,
                };
                let start: usize = (self.fixtures[i].dmx_address - 1) as usize;
                if width > 0 && later_width > 0 && start < later_start + later_width && later_start
                    < start + width {
                    assert(share_channel(self@.fixtures[i as int], self@.fixtures[j as int]));
                    return Some((i, j));
                }
                i += 1;
            }
            j += 1;
        }
        None
    }
}

} // verus!
