//! Fixtures and their channel components.
//!
//! A fixture is an ordered list of components and the address of its first
//! channel. Every component kind has a fixed width in channels; only the
//! values inside a component change while a show runs.

use crate::text::same_text;
use vstd::prelude::*;

verus! {

/// Number of channels in one frame.
pub const FRAME_CHANNELS: usize = 512;

/// An RGB colour, one channel per primary.
#[derive(Clone, Copy, PartialEq, Eq, Structural, Debug)]
pub struct Color {
    pub r: u8,
    pub g: u8,
    pub b: u8,
}

/// A dimmer channel.
#[derive(Clone, Copy, PartialEq, Eq, Structural, Debug)]
pub struct Dimmer {
    /// The level that was set on the fixture itself.
    pub local: u8,
    /// The level that is sent out.
    pub intensity: u8,
}

/// Pan and tilt, 16 bits each.
#[derive(Clone, Copy, PartialEq, Eq, Structural, Debug)]
pub struct Position {
    pub pan: u16,
    pub tilt: u16,
}

/// A slot of the colour wheel.
#[derive(Clone, Copy, PartialEq, Eq, Structural, Debug)]
pub struct ColorWheel {
    pub index: u8,
}

/// A channel that is known by its name.
#[derive(PartialEq, Eq, Debug)]
pub struct CustomValue {
    pub name: String,
    pub value: u8,
}

/// A slot of the gobo wheel.
#[derive(Clone, Copy, PartialEq, Eq, Structural, Debug)]
pub struct GoboWheel {
    pub index: u8,
}

/// A focus channel.
#[derive(Clone, Copy, PartialEq, Eq, Structural, Debug)]
pub struct Focus {
    pub value: u8,
}

/// One component of a fixture.
#[derive(PartialEq, Eq, Debug)]
pub enum FixtureComponent {
    Color(Color),
    Dimmer(Dimmer),
    Position(Position),
    Placeholder,
    ColorWheel(ColorWheel),
    CustomValue(CustomValue),
    Max,
    Zero,
    Gobo(GoboWheel),
    Focus(Focus),
}

/// A device that occupies consecutive channels from `dmx_address` on.
#[derive(Debug)]
pub struct Fixture {
    pub id: u8,
    pub name: String,
    /// Address of the first channel, counted from 1.
    pub dmx_address: u16,
    pub components: Vec<FixtureComponent>,
}

/// What a component is, with its name as a sequence of characters.
pub enum ComponentView {
    Color(Color),
    Dimmer(Dimmer),
    Position(Position),
    Placeholder,
    ColorWheel(ColorWheel),
    CustomValue { name: Seq<char>, value: u8 },
    Max,
    Zero,
    Gobo(GoboWheel),
    Focus(Focus),
}

/// What a fixture is: its identity, its address and its components in order.
pub struct FixtureView {
    pub id: u8,
    pub name: Seq<char>,
    pub dmx_address: u16,
    pub components: Seq<ComponentView>,
}

/// High byte of a 16-bit value.
pub open spec fn high_byte(v: u16) -> u8 {
    (v / 256) as u8
}

/// Low byte of a 16-bit value.
pub open spec fn low_byte(v: u16) -> u8 {
    (v % 256) as u8
}

impl ComponentView {
    /// Number of channels the component occupies. It depends on the kind alone.
    pub open spec fn width(self) -> nat {
        match self {
            ComponentView::Color(_) => 3,
            ComponentView::Position(_) => 4,
            _ => 1,
        }
    }

    /// The bytes the component sends, in channel order. Pan and tilt go out
    /// high byte first.
    pub open spec fn bytes(self) -> Seq<u8> {
        match self {
            ComponentView::Color(c) => seq![c.r, c.g, c.b],
            ComponentView::Dimmer(d) => seq![d.intensity],
            ComponentView::Position(p) => seq![
                high_byte(p.pan),
                low_byte(p.pan),
                high_byte(p.tilt),
                low_byte(p.tilt),
            ],
            ComponentView::Placeholder => seq![0u8],
            ComponentView::ColorWheel(c) => seq![c.index],
            ComponentView::CustomValue { name, value } => seq![value],
            ComponentView::Max => seq![255u8],
            ComponentView::Zero => seq![0u8],
            ComponentView::Gobo(g) => seq![g.index],
            ComponentView::Focus(f) => seq![f.value],
        }
    }

    /// Whether two components are of one kind and, where they are named,
    /// carry one name: they may differ in their values only.
    pub open spec fn same_shape(self, other: ComponentView) -> bool {
        match (self, other) {
            (ComponentView::Color(_), ComponentView::Color(_)) => true,
            (ComponentView::Dimmer(_), ComponentView::Dimmer(_)) => true,
            (ComponentView::Position(_), ComponentView::Position(_)) => true,
            (ComponentView::Placeholder, ComponentView::Placeholder) => true,
            (ComponentView::ColorWheel(_), ComponentView::ColorWheel(_)) => true,
            (
                ComponentView::CustomValue { name: a, value: _ },
                ComponentView::CustomValue { name: b, value: _ },
            ) => a == b,
            (ComponentView::Max, ComponentView::Max) => true,
            (ComponentView::Zero, ComponentView::Zero) => true,
            (ComponentView::Gobo(_), ComponentView::Gobo(_)) => true,
            (ComponentView::Focus(_), ComponentView::Focus(_)) => true,
            _ => false,
        }
    }
}

/// The bytes of a run of components, one after the other.
pub open spec fn render_all(components: Seq<ComponentView>) -> Seq<u8>
    decreases components.len(),
{
    if components.len() == 0 {
        Seq::empty()
    } else {
        render_all(components.drop_last()) + components.last().bytes()
    }
}

/// The sum of the widths of a run of components.
pub open spec fn total_width(components: Seq<ComponentView>) -> nat
    decreases components.len(),
{
    if components.len() == 0 {
        0
    } else {
        total_width(components.drop_last()) + components.last().width()
    }
}

impl FixtureView {
    /// The bytes the fixture sends, starting at its first channel.
    pub open spec fn render(self) -> Seq<u8> {
        render_all(self.components)
    }

    /// Number of channels the fixture occupies.
    pub open spec fn width(self) -> nat {
        total_width(self.components)
    }

    /// Index in the frame of the fixture's first channel.
    pub open spec fn start(self) -> int {
        self.dmx_address - 1
    }

    /// Whether the fixture lies inside the frame: its address is at least 1
    /// and its last channel is at most the frame's last.
    pub open spec fn fits_frame(self) -> bool {
        1 <= self.dmx_address && self.dmx_address - 1 + self.width() <= FRAME_CHANNELS
    }

    /// Whether channel index `k` of the frame belongs to the fixture.
    pub open spec fn covers(self, k: int) -> bool {
        self.start() <= k < self.start() + self.width()
    }

    /// Whether `other` is this fixture with possibly other values: identity,
    /// address and the shape of every component agree.
    pub open spec fn same_layout(self, other: FixtureView) -> bool {
        &&& self.id == other.id
        &&& self.name == other.name
        &&& self.dmx_address == other.dmx_address
        &&& self.components.len() == other.components.len()
        &&& forall|i: int|
            0 <= i < self.components.len() ==> (#[trigger] self.components[i]).same_shape(
                other.components[i],
            )
    }
}

impl View for CustomValue {
    type V = ComponentView;

    open spec fn view(&self) -> ComponentView {
        ComponentView::CustomValue { name: self.name@, value: self.value }
    }
}

impl View for FixtureComponent {
    type V = ComponentView;

    open spec fn view(&self) -> ComponentView {
        match *self {
            FixtureComponent::Color(c) => ComponentView::Color(c),
            FixtureComponent::Dimmer(d) => ComponentView::Dimmer(d),
            FixtureComponent::Position(p) => ComponentView::Position(p),
            FixtureComponent::Placeholder => ComponentView::Placeholder,
            FixtureComponent::ColorWheel(c) => ComponentView::ColorWheel(c),
            FixtureComponent::CustomValue(c) => c@,
            FixtureComponent::Max => ComponentView::Max,
            FixtureComponent::Zero => ComponentView::Zero,
            FixtureComponent::Gobo(g) => ComponentView::Gobo(g),
            FixtureComponent::Focus(f) => ComponentView::Focus(f),
        }
    }
}

/// The views of a run of components, in order.
pub open spec fn component_views(components: Seq<FixtureComponent>) -> Seq<ComponentView> {
    Seq::new(components.len(), |i: int| components[i]@)
}

impl View for Fixture {
    type V = FixtureView;

    open spec fn view(&self) -> FixtureView {
        FixtureView {
            id: self.id,
            name: self.name@,
            dmx_address: self.dmx_address,
            components: component_views(self.components@),
        }
    }
}

/// A run of components renders to as many bytes as its widths add up to.
pub proof fn lemma_render_length(components: Seq<ComponentView>)
    ensures
        render_all(components).len() == total_width(components),
    decreases components.len(),
{
    if components.len() > 0 {
        lemma_render_length(components.drop_last());
    }
}

/// Rendering a run extended by one component appends that component's bytes.
pub proof fn lemma_render_push(components: Seq<ComponentView>, c: ComponentView)
    ensures
        render_all(components.push(c)) == render_all(components) + c.bytes(),
        total_width(components.push(c)) == total_width(components) + c.width(),
{
    assert(components.push(c).drop_last() =~= components);
}

/// Components of one shape have one width, so runs that agree in shape,
/// place by place, have the same total width.
pub proof fn lemma_same_shape_same_width(a: Seq<ComponentView>, b: Seq<ComponentView>)
    requires
        a.len() == b.len(),
        forall|i: int| 0 <= i < a.len() ==> (#[trigger] a[i]).same_shape(b[i]),
    ensures
        total_width(a) == total_width(b),
    decreases a.len(),
{
    if a.len() > 0 {
        assert(a.last().same_shape(b.last()));
        assert forall|i: int| 0 <= i < a.drop_last().len() implies (#[trigger] a.drop_last()[i]).same_shape(
            b.drop_last()[i],
        ) by {
            assert(a[i].same_shape(b[i]));
        }
        lemma_same_shape_same_width(a.drop_last(), b.drop_last());
    }
}

/// Rendering reads a fixture and keeps no state: its length is the sum of
/// the component widths, whatever the values are, and a fixture that differs
/// in values only has the same length and fits the frame alike.
pub proof fn lemma_render_stable(f: FixtureView, g: FixtureView)
    requires
        f.same_layout(g),
    ensures
        f.render().len() == f.width(),
        g.render().len() == f.render().len(),
        g.width() == f.width(),
        g.fits_frame() == f.fits_frame(),
        forall|k: int| g.covers(k) == f.covers(k),
{
    lemma_render_length(f.components);
    lemma_render_length(g.components);
    lemma_same_shape_same_width(f.components, g.components);
}

impl Clone for CustomValue {
    fn clone(&self) -> (r: Self)
        ensures
            r == *self,
    {
        CustomValue { name: self.name.clone(), value: self.value }
    }
}

impl Clone for FixtureComponent {
    fn clone(&self) -> (r: Self)
        ensures
            r == *self,
    {
        match self {
            FixtureComponent::Color(c) => FixtureComponent::Color(*c),
            FixtureComponent::Dimmer(d) => FixtureComponent::Dimmer(*d),
            FixtureComponent::Position(p) => FixtureComponent::Position(*p),
            FixtureComponent::Placeholder => FixtureComponent::Placeholder,
            FixtureComponent::ColorWheel(c) => FixtureComponent::ColorWheel(*c),
            FixtureComponent::CustomValue(c) => FixtureComponent::CustomValue(c.clone()),
            FixtureComponent::Max => FixtureComponent::Max,
            FixtureComponent::Zero => FixtureComponent::Zero,
            FixtureComponent::Gobo(g) => FixtureComponent::Gobo(*g),
            FixtureComponent::Focus(f) => FixtureComponent::Focus(*f),
        }
    }
}

impl FixtureComponent {
    /// The bytes of the component, in channel order.
    pub fn get_dmx_values(&self) -> (r: Vec<u8>)
        ensures
            r@ == self@.bytes(),
            r@.len() == self@.width(),
    {
        let mut out: Vec<u8> = Vec::new();
        match self {
            FixtureComponent::Color(c) => {
                out.push(c.r);
                out.push(c.g);
                out.push(c.b);
            },
            FixtureComponent::Dimmer(d) => {
                out.push(d.intensity);
            },
            FixtureComponent::Position(p) => {
                out.push((p.pan / 256) as u8);
                out.push((p.pan % 256) as u8);
                out.push((p.tilt / 256) as u8);
                out.push((p.tilt % 256) as u8);
            },
            FixtureComponent::Placeholder => {
                out.push(0);
            },
            FixtureComponent::ColorWheel(c) => {
                out.push(c.index);
            },
            FixtureComponent::CustomValue(c) => {
                out.push(c.value);
            },
            FixtureComponent::Max => {
                out.push(255);
            },
            FixtureComponent::Zero => {
                out.push(0);
            },
            FixtureComponent::Gobo(g) => {
                out.push(g.index);
            },
            FixtureComponent::Focus(f) => {
                out.push(f.value);
            },
        }
        assert(out@ =~= self@.bytes());
        out
    }

    /// Number of channels the component occupies.
    pub fn width(&self) -> (w: usize)
        ensures
            w == self@.width(),
    {
        match self {
            FixtureComponent::Color(_) => 3,
            FixtureComponent::Position(_) => 4,
            _ => 1,
        }
    }
}

impl Clone for Fixture {
    fn clone(&self) -> (r: Self)
        ensures
            r@ == self@,
    {
        let mut components: Vec<FixtureComponent> = Vec::new();
        let n = self.components.len();
        let mut i: usize = 0;
        while i < n
            invariant
                i <= n,
                n == self.components@.len(),
                components@ == self.components@.subrange(0, i as int),
            decreases n - i,
        {
            components.push(self.components[i].clone());
            assert(components@ =~= self.components@.subrange(0, i + 1));
            i += 1;
        }
        assert(components@ =~= self.components@);
        Fixture {
            id: self.id,
            name: self.name.clone(),
            dmx_address: self.dmx_address,
            components,
        }
    }
}

impl Fixture {
    /// A fixture without components.
    pub fn new(id: u8, dmx_address: u16, name: String) -> (f: Fixture)
        ensures
            f@ == (FixtureView { id, name: name@, dmx_address, components: Seq::empty() }),
            f.name == name,
    {
        let f = Fixture { id, dmx_address, components: Vec::new(), name };
        assert(f@.components =~= Seq::empty());
        f
    }

    /// Appends a component behind those the fixture has.
    pub fn add_component(&mut self, component: FixtureComponent)
        ensures
            final(self)@ == (FixtureView {
                components: old(self)@.components.push(component@),
                ..old(self)@
            }),
            final(self)@.width() == old(self)@.width() + component@.width(),
    {
        self.components.push(component);
        proof {
            assert(final(self)@.components =~= old(self)@.components.push(component@));
            lemma_render_push(old(self)@.components, component@);
        }
    }

    /// The bytes of all components, in declared order. Their number is the
    /// sum of the component widths.
    pub fn get_dmx_values(&self) -> (r: Vec<u8>)
        ensures
            r@ == self@.render(),
            r@.len() == self@.width(),
    {
        let mut out: Vec<u8> = Vec::new();
        let n = self.components.len();
        let mut i: usize = 0;
        while i < n
            invariant
                i <= n,
                n == self.components@.len(),
                out@ == render_all(self@.components.subrange(0, i as int)),
            decreases n - i,
        {
            let mut bytes = self.components[i].get_dmx_values();
            proof {
                let done = self@.components.subrange(0, i as int);
                lemma_render_push(done, self.components@[i as int]@);
                assert(done.push(self.components@[i as int]@) =~= self@.components.subrange(
                    0,
                    i + 1,
                ));
            }
            out.append(&mut bytes);
            i += 1;
        }
        proof {
            assert(self@.components.subrange(0, n as int) =~= self@.components);
            lemma_render_length(self@.components);
        }
        out
    }

    /// Number of channels the fixture occupies, or `None` where the count does
    /// not fit the machine's word.
    pub fn channel_count(&self) -> (r: Option<usize>)
        ensures
            match r {
                Some(w) => w == self@.width(),
                None => self@.width() > usize::MAX,
            },
    {
        let mut total: usize = 0;
        let n = self.components.len();
        let mut i: usize = 0;
        while i < n
            invariant
                i <= n,
                n == self.components@.len(),
                total == total_width(self@.components.subrange(0, i as int)),
            decreases n - i,
        {
            let w = self.components[i].width();
            proof {
                let done = self@.components.subrange(0, i as int);
                lemma_render_push(done, self.components@[i as int]@);
                assert(done.push(self.components@[i as int]@) =~= self@.components.subrange(
                    0,
                    i + 1,
                ));
                lemma_width_monotone(self@.components, i + 1);
            }
            if total > usize::MAX - w {
                return None;
            }
            total = total + w;
            i += 1;
        }
        proof {
            assert(self@.components.subrange(0, n as int) =~= self@.components);
        }
        Some(total)
    }

    /// Whether the fixture lies inside the frame.
    pub fn fits_frame(&self) -> (r: bool)
        ensures
            r == self@.fits_frame(),
    {
        if self.dmx_address < 1 {
            return false;
        }
        match self.channel_count() {
            Some(w) => w <= FRAME_CHANNELS && (self.dmx_address as usize) - 1 <= FRAME_CHANNELS - w,
            None => false,
        }
    }
}

/// A prefix of a run of components is no wider than the run.
pub proof fn lemma_width_monotone(components: Seq<ComponentView>, n: int)
    requires
        0 <= n <= components.len(),
    ensures
        total_width(components.subrange(0, n)) <= total_width(components),
    decreases components.len() - n,
{
    if n < components.len() {
        lemma_width_monotone(components, n + 1);
        let longer = components.subrange(0, n + 1);
        assert(longer.drop_last() =~= components.subrange(0, n));
    } else {
        assert(components.subrange(0, n) =~= components);
    }
}

/// A value to write into the components that it is meant for.
#[derive(Clone, Copy, Debug)]
pub enum Setting<'a> {
    /// The value of the channels with this name.
    Named(&'a str, u8),
    /// The pan of position components.
    Pan(u16),
    /// The tilt of position components.
    Tilt(u16),
    /// The slot of colour wheels.
    Wheel(u8),
    /// The slot of gobo wheels.
    Gobo(u8),
    /// The value of focus channels.
    Focus(u8),
    /// The level that dimmers send out.
    Intensity(u8),
    /// The colour of RGB components.
    Rgb(Color),
}

/// A setting, with the channel name as a sequence of characters.
pub enum SettingView {
    Named(Seq<char>, u8),
    Pan(u16),
    Tilt(u16),
    Wheel(u8),
    Gobo(u8),
    Focus(u8),
    Intensity(u8),
    Rgb(Color),
}

impl<'a> View for Setting<'a> {
    type V = SettingView;

    open spec fn view(&self) -> SettingView {
        match *self {
            Setting::Named(name, value) => SettingView::Named(name@, value),
            Setting::Pan(v) => SettingView::Pan(v),
            Setting::Tilt(v) => SettingView::Tilt(v),
            Setting::Wheel(v) => SettingView::Wheel(v),
            Setting::Gobo(v) => SettingView::Gobo(v),
            Setting::Focus(v) => SettingView::Focus(v),
            Setting::Intensity(v) => SettingView::Intensity(v),
            Setting::Rgb(c) => SettingView::Rgb(c),
        }
    }
}

impl ComponentView {
    /// Whether the setting is meant for this component: the kinds agree and,
    /// for a named channel, the names are the same.
    pub open spec fn takes(self, s: SettingView) -> bool {
        match (self, s) {
            (ComponentView::CustomValue { name, value: _ }, SettingView::Named(n, _)) => name == n,
            (ComponentView::Position(_), SettingView::Pan(_)) => true,
            (ComponentView::Position(_), SettingView::Tilt(_)) => true,
            (ComponentView::ColorWheel(_), SettingView::Wheel(_)) => true,
            (ComponentView::Gobo(_), SettingView::Gobo(_)) => true,
            (ComponentView::Focus(_), SettingView::Focus(_)) => true,
            (ComponentView::Dimmer(_), SettingView::Intensity(_)) => true,
            (ComponentView::Color(_), SettingView::Rgb(_)) => true,
            _ => false,
        }
    }

    /// The component after the setting was written: the value that the
    /// setting names is replaced where the component takes it, and nothing
    /// changes where it does not.
    pub open spec fn with_setting(self, s: SettingView) -> ComponentView {
        match (self, s) {
            (ComponentView::CustomValue { name, value }, SettingView::Named(n, v)) => {
                if name == n {
                    ComponentView::CustomValue { name, value: v }
                } else {
                    self
                }
            },
            (ComponentView::Position(p), SettingView::Pan(v)) => ComponentView::Position(
                Position { pan: v, tilt: p.tilt },
            ),
            (ComponentView::Position(p), SettingView::Tilt(v)) => ComponentView::Position(
                Position { pan: p.pan, tilt: v },
            ),
            (ComponentView::ColorWheel(_), SettingView::Wheel(v)) => ComponentView::ColorWheel(
                ColorWheel { index: v },
            ),
            (ComponentView::Gobo(_), SettingView::Gobo(v)) => ComponentView::Gobo(
                GoboWheel { index: v },
            ),
            (ComponentView::Focus(_), SettingView::Focus(v)) => ComponentView::Focus(
                Focus { value: v },
            ),
            (ComponentView::Dimmer(d), SettingView::Intensity(v)) => ComponentView::Dimmer(
                Dimmer { local: d.local, intensity: v },
            ),
            (ComponentView::Color(_), SettingView::Rgb(c)) => ComponentView::Color(c),
            _ => self,
        }
    }
}

/// Whether place `k` holds the first component of the run that takes the
/// setting.
pub open spec fn is_first_taker(components: Seq<ComponentView>, s: SettingView, k: int) -> bool {
    &&& 0 <= k < components.len()
    &&& components[k].takes(s)
    &&& forall|j: int| 0 <= j < k ==> !(#[trigger] components[j]).takes(s)
}

impl FixtureView {
    /// The fixture after the setting was written into every component that
    /// takes it.
    pub open spec fn with_all(self, s: SettingView) -> FixtureView {
        FixtureView {
            components: Seq::new(
                self.components.len(),
                |k: int| self.components[k].with_setting(s),
            ),
            ..self
        }
    }

    /// The fixture after the setting was written into the first component
    /// that takes it; unchanged where none does.
    pub open spec fn with_first(self, s: SettingView) -> FixtureView {
        FixtureView {
            components: Seq::new(
                self.components.len(),
                |k: int|
                    if is_first_taker(self.components, s, k) {
                        self.components[k].with_setting(s)
                    } else {
                        self.components[k]
                    },
            ),
            ..self
        }
    }

    /// Whether some component takes the setting.
    pub open spec fn has_taker(self, s: SettingView) -> bool {
        exists|k: int| 0 <= k < self.components.len() && (#[trigger] self.components[k]).takes(s)
    }
}

/// Writing a setting changes values only: kinds, names, address and width
/// stay, so a fixture that fitted the frame still fits it.
pub proof fn lemma_setting_keeps_layout(f: FixtureView, s: SettingView)
    ensures
        f.same_layout(f.with_all(s)),
        f.same_layout(f.with_first(s)),
        f.with_all(s).fits_frame() == f.fits_frame(),
        f.with_first(s).fits_frame() == f.fits_frame(),
{
    assert forall|i: int| 0 <= i < f.components.len() implies (#[trigger] f.components[i]).same_shape(
        f.with_all(s).components[i],
    ) by {}
    assert forall|i: int| 0 <= i < f.components.len() implies (#[trigger] f.components[i]).same_shape(
        f.with_first(s).components[i],
    ) by {}
    lemma_render_stable(f, f.with_all(s));
    lemma_render_stable(f, f.with_first(s));
}

impl FixtureComponent {
    /// Whether the setting is meant for this component.
    pub fn takes(&self, s: &Setting) -> (r: bool)
        ensures
            r == self@.takes(s@),
    {
        match (self, s) {
            (FixtureComponent::CustomValue(c), Setting::Named(n, _)) => same_text(
                c.name.as_str(),
                n,
            ),
            (FixtureComponent::Position(_), Setting::Pan(_)) => true,
            (FixtureComponent::Position(_), Setting::Tilt(_)) => true,
            (FixtureComponent::ColorWheel(_), Setting::Wheel(_)) => true,
            (FixtureComponent::Gobo(_), Setting::Gobo(_)) => true,
            (FixtureComponent::Focus(_), Setting::Focus(_)) => true,
            (FixtureComponent::Dimmer(_), Setting::Intensity(_)) => true,
            (FixtureComponent::Color(_), Setting::Rgb(_)) => true,
            _ => false,
        }
    }

    /// Writes the setting into the component where it takes it.
    pub fn apply(&mut self, s: &Setting)
        ensures
            final(self)@ == old(self)@.with_setting(s@),
    {
        match (self, s) {
            (FixtureComponent::CustomValue(c), Setting::Named(n, v)) => {
                if same_text(c.name.as_str(), n) {
                    c.value = *v;
                }
            },
            (FixtureComponent::Position(p), Setting::Pan(v)) => {
                p.pan = *v;
            },
            (FixtureComponent::Position(p), Setting::Tilt(v)) => {
                p.tilt = *v;
            },
            (FixtureComponent::ColorWheel(c), Setting::Wheel(v)) => {
                c.index = *v;
            },
            (FixtureComponent::Gobo(g), Setting::Gobo(v)) => {
                g.index = *v;
            },
            (FixtureComponent::Focus(f), Setting::Focus(v)) => {
                f.value = *v;
            },
            (FixtureComponent::Dimmer(d), Setting::Intensity(v)) => {
                d.intensity = *v;
            },
            (FixtureComponent::Color(c), Setting::Rgb(rgb)) => {
                *c = *rgb;
            },
            _ => {},
        }
    }
}

impl Fixture {
    /// Writes the setting into every component that takes it.
    pub fn set_all(&mut self, s: &Setting)
        ensures
            final(self)@ == old(self)@.with_all(s@),
    {
        let n = self.components.len();
        let mut i: usize = 0;
        while i < n
            invariant
                i <= n,
                n == old(self).components@.len(),
                self.components@.len() == n,
                self.id == old(self).id,
                self.name == old(self).name,
                self.dmx_address == old(self).dmx_address,
                forall|k: int|
                    0 <= k < i ==> (#[trigger] self.components@[k])@ == old(
                        self,
                    ).components@[k]@.with_setting(s@),
                forall|k: int|
                    i <= k < n ==> (#[trigger] self.components@[k]) == old(self).components@[k],
            decreases n - i,
        {
            self.components[i].apply(s);
            i += 1;
        }
        assert(self@.components =~= old(self)@.with_all(s@).components);
    }

    /// Writes the setting into the first component that takes it, and says
    /// whether there was one.
    pub fn set_first(&mut self, s: &Setting) -> (found: bool)
        ensures
            final(self)@ == old(self)@.with_first(s@),
            found == old(self)@.has_taker(s@),
    {
        let n = self.components.len();
        let mut i: usize = 0;
        while i < n
            invariant
                i <= n,
                n == self.components@.len(),
                *self == *old(self),
                forall|k: int| 0 <= k < i ==> !(#[trigger] self@.components[k]).takes(s@),
            decreases n - i,
        {
            if self.components[i].takes(s) {
                self.components[i].apply(s);
                proof {
                    assert(is_first_taker(old(self)@.components, s@, i as int));
                    assert(old(self)@.components[i as int].takes(s@));
                    assert(self@.components =~= old(self)@.with_first(s@).components);
                }
                return true;
            }
            i += 1;
        }
        assert(self@.components =~= old(self)@.with_first(s@).components);
        false
    }
}

} // verus!
