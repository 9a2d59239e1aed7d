use stagelight::fixture::{
    Color, ColorWheel, CustomValue, Dimmer, Fixture, FixtureComponent, Focus, GoboWheel, Position,
    Setting,
};

fn named(name: &str, value: u8) -> FixtureComponent {
    FixtureComponent::CustomValue(CustomValue { name: name.to_string(), value })
}

fn one_of_each() -> Fixture {
    let mut f = Fixture::new(3, 10, "all kinds".to_string());
    f.add_component(FixtureComponent::Color(Color { r: 1, g: 2, b: 3 }));
    f.add_component(FixtureComponent::Dimmer(Dimmer { local: 9, intensity: 4 }));
    f.add_component(FixtureComponent::Position(Position { pan: 0x1234, tilt: 0xabcd }));
    f.add_component(FixtureComponent::Placeholder);
    f.add_component(FixtureComponent::ColorWheel(ColorWheel { index: 5 }));
    f.add_component(named("strobe", 6));
    f.add_component(FixtureComponent::Max);
    f.add_component(FixtureComponent::Zero);
    f.add_component(FixtureComponent::Gobo(GoboWheel { index: 7 }));
    f.add_component(FixtureComponent::Focus(Focus { value: 8 }));
    f
}

#[test]
fn new_fixture_is_empty() {
    let f = Fixture::new(7, 42, "spot".to_string());
    assert_eq!(f.id, 7);
    assert_eq!(f.dmx_address, 42);
    assert_eq!(f.name, "spot");
    assert!(f.components.is_empty());
    assert_eq!(f.get_dmx_values(), Vec::<u8>::new());
    assert_eq!(f.channel_count(), Some(0));
}

#[test]
fn render_concatenates_components_in_order() {
    let f = one_of_each();
    assert_eq!(
        f.get_dmx_values(),
        vec![1, 2, 3, 4, 0x12, 0x34, 0xab, 0xcd, 0, 5, 6, 255, 0, 7, 8]
    );
}

#[test]
fn render_length_is_sum_of_component_widths() {
    let f = one_of_each();
    let mut sum = 0;
    for c in f.components.iter() {
        sum += c.width();
    }
    assert_eq!(sum, 15);
    assert_eq!(f.get_dmx_values().len(), sum);
    assert_eq!(f.channel_count(), Some(sum));
}

#[test]
fn render_is_stable_across_calls() {
    let f = one_of_each();
    let first = f.get_dmx_values();
    let second = f.get_dmx_values();
    assert_eq!(first, second);
    assert_eq!(f.components.len(), 10);
}

#[test]
fn component_widths_are_fixed_per_kind() {
    assert_eq!(FixtureComponent::Color(Color { r: 0, g: 0, b: 0 }).width(), 3);
    assert_eq!(FixtureComponent::Color(Color { r: 255, g: 9, b: 1 }).width(), 3);
    assert_eq!(FixtureComponent::Position(Position { pan: 0, tilt: 0 }).width(), 4);
    assert_eq!(FixtureComponent::Position(Position { pan: 65535, tilt: 1 }).width(), 4);
    assert_eq!(FixtureComponent::Dimmer(Dimmer { local: 0, intensity: 0 }).width(), 1);
    assert_eq!(FixtureComponent::Placeholder.width(), 1);
    assert_eq!(FixtureComponent::ColorWheel(ColorWheel { index: 0 }).width(), 1);
    assert_eq!(named("x", 0).width(), 1);
    assert_eq!(FixtureComponent::Max.width(), 1);
    assert_eq!(FixtureComponent::Zero.width(), 1);
    assert_eq!(FixtureComponent::Gobo(GoboWheel { index: 0 }).width(), 1);
    assert_eq!(FixtureComponent::Focus(Focus { value: 0 }).width(), 1);
}

#[test]
fn position_is_sent_high_byte_first() {
    let c = FixtureComponent::Position(Position { pan: 258, tilt: 65535 });
    assert_eq!(c.get_dmx_values(), vec![1, 2, 255, 255]);
    let c = FixtureComponent::Position(Position { pan: 255, tilt: 256 });
    assert_eq!(c.get_dmx_values(), vec![0, 255, 1, 0]);
}

#[test]
fn dimmer_sends_intensity_not_local() {
    let c = FixtureComponent::Dimmer(Dimmer { local: 200, intensity: 17 });
    assert_eq!(c.get_dmx_values(), vec![17]);
}

#[test]
fn constants_send_their_value() {
    assert_eq!(FixtureComponent::Max.get_dmx_values(), vec![255]);
    assert_eq!(FixtureComponent::Zero.get_dmx_values(), vec![0]);
    assert_eq!(FixtureComponent::Placeholder.get_dmx_values(), vec![0]);
}

#[test]
fn fits_frame_checks_address_and_width() {
    let mut f = Fixture::new(1, 0, "zero".to_string());
    assert!(!f.fits_frame());
    f.dmx_address = 1;
    assert!(f.fits_frame());
    f.dmx_address = 512;
    f.add_component(FixtureComponent::Zero);
    assert!(f.fits_frame());
    f.add_component(FixtureComponent::Zero);
    assert!(!f.fits_frame());
    f.dmx_address = 511;
    assert!(f.fits_frame());
    f.dmx_address = 513;
    assert!(!f.fits_frame());
}

#[test]
fn set_all_writes_every_taker() {
    let mut f = Fixture::new(1, 1, "two whites".to_string());
    f.add_component(named("cool_white", 1));
    f.add_component(named("warm_white", 2));
    f.add_component(named("cool_white", 3));
    f.set_all(&Setting::Named("cool_white", 77));
    assert_eq!(f.get_dmx_values(), vec![77, 2, 77]);
}

#[test]
fn set_first_writes_the_first_taker_only() {
    let mut f = Fixture::new(1, 1, "two whites".to_string());
    f.add_component(named("warm_white", 2));
    f.add_component(named("cool_white", 1));
    f.add_component(named("cool_white", 3));
    assert!(f.set_first(&Setting::Named("cool_white", 77)));
    assert_eq!(f.get_dmx_values(), vec![2, 77, 3]);
    assert!(!f.set_first(&Setting::Named("amber", 5)));
    assert_eq!(f.get_dmx_values(), vec![2, 77, 3]);
}

#[test]
fn settings_reach_only_their_kind() {
    let mut f = one_of_each();
    f.set_all(&Setting::Pan(0x0102));
    f.set_all(&Setting::Tilt(0x0304));
    f.set_all(&Setting::Wheel(50));
    f.set_all(&Setting::Gobo(60));
    f.set_all(&Setting::Focus(70));
    f.set_all(&Setting::Intensity(80));
    f.set_all(&Setting::Rgb(Color { r: 10, g: 20, b: 30 }));
    f.set_all(&Setting::Named("strobe", 90));
    f.set_all(&Setting::Named("nothing", 99));
    assert_eq!(
        f.get_dmx_values(),
        vec![10, 20, 30, 80, 1, 2, 3, 4, 0, 50, 90, 255, 0, 60, 70]
    );
    assert_eq!(
        f.components[1],
        FixtureComponent::Dimmer(Dimmer { local: 9, intensity: 80 })
    );
}

#[test]
fn settings_keep_the_length() {
    let mut f = one_of_each();
    let before = f.get_dmx_values().len();
    f.set_all(&Setting::Pan(9));
    let _ = f.set_first(&Setting::Rgb(Color { r: 0, g: 0, b: 0 }));
    assert_eq!(f.get_dmx_values().len(), before);
    assert_eq!(f.id, 3);
    assert_eq!(f.dmx_address, 10);
}

#[test]
fn component_takes_by_kind_and_name() {
    let c = named("amber", 0);
    assert!(c.takes(&Setting::Named("amber", 1)));
    assert!(!c.takes(&Setting::Named("Amber", 1)));
    assert!(!c.takes(&Setting::Focus(1)));
    let p = FixtureComponent::Position(Position { pan: 0, tilt: 0 });
    assert!(p.takes(&Setting::Pan(1)));
    assert!(p.takes(&Setting::Tilt(1)));
    assert!(!p.takes(&Setting::Gobo(1)));
}

#[test]
fn clone_of_a_fixture_is_equal() {
    let f = one_of_each();
    let g = f.clone();
    assert_eq!(g.id, f.id);
    assert_eq!(g.name, f.name);
    assert_eq!(g.dmx_address, f.dmx_address);
    assert_eq!(g.components, f.components);
}
