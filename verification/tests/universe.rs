use stagelight::effect::{AnyEffect, ColorSwapEffect, GradientEffect};
use stagelight::fixture::{Color, CustomValue, Dimmer, Fixture, FixtureComponent, Position, Setting};
use stagelight::patching::get_universe;
use stagelight::universe::{PatchError, Universe};

fn dimmer(level: u8) -> FixtureComponent {
    FixtureComponent::Dimmer(Dimmer { local: level, intensity: level })
}

fn fixture(id: u8, address: u16, parts: Vec<FixtureComponent>) -> Fixture {
    let mut f = Fixture::new(id, address, format!("fixture {}", id));
    for p in parts {
        f.add_component(p);
    }
    f
}

#[test]
fn new_universe_is_empty_with_open_dimmer() {
    let u = Universe::new();
    assert!(u.fixtures.is_empty());
    assert!(u.effects.is_empty());
    assert_eq!(u.global_dimmer, 255);
    assert_eq!(u.get_dmx_values(), [0u8; 512]);
}

#[test]
fn serialize_single_intensity() {
    let mut u = Universe::new();
    u.add_fixture(fixture(1, 1, vec![dimmer(255)]));
    let frame = u.get_dmx_values();
    assert_eq!(frame.len(), 512);
    assert_eq!(frame[0], 255);
    for k in 1..512 {
        assert_eq!(frame[k], 0);
    }
}

#[test]
fn serialize_writes_at_address_minus_one() {
    let mut u = Universe::new();
    u.add_fixture(fixture(4, 17, vec![FixtureComponent::Color(Color { r: 1, g: 2, b: 3 })]));
    u.add_fixture(fixture(5, 510, vec![FixtureComponent::Color(Color { r: 7, g: 8, b: 9 })]));
    let frame = u.get_dmx_values();
    assert_eq!(&frame[15..20], &[0, 1, 2, 3, 0]);
    assert_eq!(&frame[508..512], &[0, 7, 8, 9]);
}

#[test]
fn overlapping_fixtures_later_wins() {
    let mut u = Universe::new();
    u.add_fixture(fixture(
        1,
        1,
        vec![FixtureComponent::Position(Position { pan: 0x0102, tilt: 0x0304 })],
    ));
    u.add_fixture(fixture(2, 3, vec![FixtureComponent::Color(Color { r: 9, g: 8, b: 7 })]));
    assert!(u.validate().is_ok());
    let frame = u.get_dmx_values();
    assert_eq!(&frame[0..6], &[1, 2, 9, 8, 7, 0]);
}

#[test]
fn overlapping_fixtures_patch_order_decides() {
    let mut u = Universe::new();
    u.add_fixture(fixture(2, 3, vec![FixtureComponent::Color(Color { r: 9, g: 8, b: 7 })]));
    u.add_fixture(fixture(
        1,
        1,
        vec![FixtureComponent::Position(Position { pan: 0x0102, tilt: 0x0304 })],
    ));
    let frame = u.get_dmx_values();
    assert_eq!(&frame[0..6], &[1, 2, 3, 4, 7, 0]);
}

#[test]
fn lookup_finds_the_first_with_the_id() {
    let mut u = Universe::new();
    u.add_fixture(fixture(5, 1, vec![dimmer(1)]));
    u.add_fixture(fixture(6, 2, vec![dimmer(2)]));
    u.add_fixture(fixture(5, 3, vec![dimmer(3)]));
    assert_eq!(u.get_fixture_by_id(5).unwrap().dmx_address, 1);
    assert_eq!(u.get_fixture_by_id(6).unwrap().dmx_address, 2);
    assert_eq!(u.position_of(5), Some(0));
    assert_eq!(u.position_of(6), Some(1));
}

#[test]
fn lookup_of_an_absent_id_is_none() {
    let mut u = Universe::new();
    assert!(u.get_fixture_by_id(1).is_none());
    assert!(u.get_fixture_by_id_mut(1).is_none());
    u.add_fixture(fixture(5, 1, vec![dimmer(1)]));
    assert!(u.get_fixture_by_id(1).is_none());
    assert!(u.get_fixture_by_id_mut(0).is_none());
    assert_eq!(u.position_of(9), None);
}

#[test]
fn lookup_for_writing_reaches_the_fixture() {
    let mut u = Universe::new();
    u.add_fixture(fixture(5, 1, vec![dimmer(1)]));
    u.add_fixture(fixture(6, 2, vec![dimmer(2)]));
    if let Some(f) = u.get_fixture_by_id_mut(6) {
        f.set_all(&Setting::Intensity(99));
    }
    assert_eq!(&u.get_dmx_values()[0..3], &[1, 99, 0]);
}

#[test]
fn validate_accepts_the_installation() {
    assert_eq!(get_universe().validate(), Ok(()));
}

#[test]
fn validate_refuses_address_zero() {
    let mut u = Universe::new();
    u.add_fixture(fixture(1, 1, vec![dimmer(1)]));
    u.add_fixture(fixture(2, 0, vec![dimmer(1)]));
    assert_eq!(u.validate(), Err(PatchError::OutOfFrame { id: 2 }));
}

#[test]
fn validate_refuses_a_fixture_beyond_the_frame() {
    let mut u = Universe::new();
    u.add_fixture(fixture(1, 510, vec![FixtureComponent::Color(Color { r: 0, g: 0, b: 0 })]));
    assert_eq!(u.validate(), Ok(()));
    u.add_fixture(fixture(2, 511, vec![FixtureComponent::Color(Color { r: 0, g: 0, b: 0 })]));
    u.add_fixture(fixture(3, 600, vec![]));
    assert_eq!(u.validate(), Err(PatchError::OutOfFrame { id: 2 }));
}

#[test]
fn validate_refuses_a_repeated_id() {
    let mut u = Universe::new();
    u.add_fixture(fixture(1, 1, vec![dimmer(1)]));
    u.add_fixture(fixture(2, 2, vec![dimmer(1)]));
    u.add_fixture(fixture(1, 3, vec![dimmer(1)]));
    u.add_fixture(fixture(2, 4, vec![dimmer(1)]));
    assert_eq!(u.validate(), Err(PatchError::DuplicateId { id: 1 }));
}

#[test]
fn validate_reports_out_of_frame_before_repeated_id() {
    let mut u = Universe::new();
    u.add_fixture(fixture(1, 1, vec![dimmer(1)]));
    u.add_fixture(fixture(1, 2, vec![dimmer(1)]));
    u.add_fixture(fixture(3, 0, vec![dimmer(1)]));
    assert_eq!(u.validate(), Err(PatchError::OutOfFrame { id: 3 }));
}

#[test]
fn validate_accepts_overlap() {
    let mut u = Universe::new();
    u.add_fixture(fixture(1, 1, vec![FixtureComponent::Color(Color { r: 0, g: 0, b: 0 })]));
    u.add_fixture(fixture(2, 2, vec![FixtureComponent::Color(Color { r: 0, g: 0, b: 0 })]));
    assert_eq!(u.validate(), Ok(()));
}

#[test]
fn write_reaches_first_or_all_takers() {
    let named = |n: &str| FixtureComponent::CustomValue(CustomValue { name: n.to_string(), value: 1 });
    let mut u = Universe::new();
    u.add_fixture(fixture(1, 1, vec![named("a"), named("a")]));
    u.add_fixture(fixture(2, 3, vec![named("a"), named("a")]));
    assert!(u.write(2, &Setting::Named("a", 9), false));
    assert_eq!(&u.get_dmx_values()[0..4], &[1, 1, 9, 1]);
    assert!(u.write(1, &Setting::Named("a", 8), true));
    assert_eq!(&u.get_dmx_values()[0..4], &[8, 8, 9, 1]);
    assert!(!u.write(3, &Setting::Named("a", 7), true));
    assert_eq!(&u.get_dmx_values()[0..4], &[8, 8, 9, 1]);
    u.write_everywhere(&Setting::Named("a", 5));
    assert_eq!(&u.get_dmx_values()[0..5], &[5, 5, 5, 5, 0]);
}

#[test]
fn insert_present_appends() {
    let mut u = Universe::new();
    u.insert_present(AnyEffect::ColorSwap(ColorSwapEffect::new(120, 7, true, false)));
    u.insert_present(AnyEffect::Gradient(GradientEffect {
        speed: 1000,
        colors: vec![[1, 2, 3]],
        position: 0,
    }));
    assert_eq!(u.effects.len(), 2);
    assert!(matches!(u.effects[0], AnyEffect::ColorSwap(_)));
    assert!(matches!(u.effects[1], AnyEffect::Gradient(_)));
}

#[test]
fn clone_copies_fixtures_and_drops_effects() {
    let mut u = get_universe();
    u.global_dimmer = 40;
    u.insert_present(AnyEffect::ColorSwap(ColorSwapEffect::new(120, 7, true, false)));
    let c = u.clone();
    assert_eq!(c.fixtures.len(), 9);
    assert_eq!(c.effects.len(), 0);
    assert_eq!(c.global_dimmer, 40);
    assert_eq!(c.get_dmx_values(), u.get_dmx_values());
    assert_eq!(u.effects.len(), 1);
}

#[test]
fn installation_patch_is_as_documented() {
    let u = get_universe();
    assert_eq!(u.fixtures.len(), 9);
    assert_eq!(u.effects.len(), 0);
    assert_eq!(u.global_dimmer, 255);
    for i in 0..7usize {
        let f = &u.fixtures[i];
        assert_eq!(f.id as usize, i + 1);
        assert_eq!(f.dmx_address as usize, 1 + 6 * i);
        assert_eq!(f.name, format!("LED PAR {}", i + 1));
        assert_eq!(f.components.len(), 6);
        assert_eq!(f.get_dmx_values(), vec![0, 0, 0, 0, 0, 255]);
    }
    let names = ["cool_white", "warm_white", "amber", "color_temp", "strobe"];
    for (k, n) in names.iter().enumerate() {
        assert_eq!(
            u.fixtures[0].components[k],
            FixtureComponent::CustomValue(CustomValue { name: n.to_string(), value: 0 })
        );
    }
    for i in 0..2usize {
        let f = &u.fixtures[7 + i];
        assert_eq!(f.id as usize, 8 + i);
        assert_eq!(f.dmx_address as usize, 100 + 16 * i);
        assert_eq!(f.name, format!("Moving Head {}", i + 1));
        assert_eq!(f.components.len(), 13);
        assert_eq!(
            f.get_dmx_values(),
            vec![0, 0, 0, 0, 0, 0, 0, 0, 0, 0, 0, 255, 255, 0, 0, 0]
        );
    }
}

#[test]
fn installation_frame() {
    let frame = get_universe().get_dmx_values();
    for k in 0..512usize {
        let par_dimmer = k < 42 && k % 6 == 5;
        let head = k == 110 || k == 111 || k == 126 || k == 127;
        let expected = if par_dimmer || head { 255 } else { 0 };
        assert_eq!(frame[k], expected, "channel index {}", k);
    }
}

#[test]
fn installation_has_no_overlap() {
    let u = get_universe();
    assert!(u.fits_frame());
    assert_eq!(u.first_overlap(), None);
}

#[test]
fn first_overlap_names_the_first_pair() {
    let color = || FixtureComponent::Color(Color { r: 0, g: 0, b: 0 });
    let mut u = Universe::new();
    u.add_fixture(fixture(1, 1, vec![color()]));
    u.add_fixture(fixture(2, 4, vec![color()]));
    assert_eq!(u.first_overlap(), None);
    u.add_fixture(fixture(3, 10, vec![]));
    u.add_fixture(fixture(4, 2, vec![]));
    assert_eq!(u.first_overlap(), None);
    u.add_fixture(fixture(5, 6, vec![color()]));
    assert_eq!(u.first_overlap(), Some((1, 4)));
    u.add_fixture(fixture(6, 3, vec![color()]));
    assert_eq!(u.first_overlap(), Some((1, 4)));
    u.fixtures.remove(4);
    assert_eq!(u.first_overlap(), Some((0, 4)));
}

#[test]
fn fits_frame_of_a_universe() {
    let mut u = Universe::new();
    assert!(u.fits_frame());
    u.add_fixture(fixture(1, 512, vec![dimmer(1)]));
    assert!(u.fits_frame());
    u.add_fixture(fixture(2, 512, vec![dimmer(1), dimmer(2)]));
    assert!(!u.fits_frame());
}
