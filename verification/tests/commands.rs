use stagelight::command::{
    handle_strobo, hex_to_rgb, read_hex_digit, read_hex_pair, Command, HexColorError,
    SwapParameter,
};
use stagelight::effect::{AnyEffect, ColorSwapEffect, GradientEffect, ParColor};
use stagelight::fixture::{Dimmer, FixtureComponent, Position};
use stagelight::patching::get_universe;
use stagelight::universe::Universe;

fn swap_of(u: &Universe, i: usize) -> &ColorSwapEffect {
    match &u.effects[i] {
        AnyEffect::ColorSwap(e) => e,
        _ => panic!("no colour swap at this place"),
    }
}

#[test]
fn strobo_down_lights_every_strobe_channel() {
    let mut u = get_universe();
    u.apply_command(&Command::Strobo { state: "down".to_string() });
    let frame = u.get_dmx_values();
    for i in 0..7usize {
        assert_eq!(&frame[6 * i..6 * i + 6], &[0, 0, 0, 0, 255, 255]);
    }
    u.apply_command(&Command::Strobo { state: "up".to_string() });
    assert_eq!(u.get_dmx_values(), get_universe().get_dmx_values());
}

#[test]
fn strobo_any_other_state_is_dark() {
    let mut u = get_universe();
    handle_strobo("down", &mut u);
    handle_strobo("Down", &mut u);
    assert_eq!(u.get_dmx_values()[4], 0);
    handle_strobo("down", &mut u);
    handle_strobo("", &mut u);
    assert_eq!(u.get_dmx_values()[4], 0);
}

#[test]
fn moving_head_commands_reach_their_fixture() {
    let mut u = get_universe();
    u.apply_command(&Command::Pan1 { pan_1: 0x1234 });
    u.apply_command(&Command::Tilt1 { tilt_1: 0x5678 });
    u.apply_command(&Command::Color1 { color_1: 11 });
    u.apply_command(&Command::Gobo1 { gobo_1: 12 });
    u.apply_command(&Command::Focus1 { focus_1: 13 });
    u.apply_command(&Command::Dimmer1 { dimmer_1: 14 });
    u.apply_command(&Command::Pan2 { pan_2: 0x9abc });
    u.apply_command(&Command::Tilt2 { tilt_2: 0xdef0 });
    u.apply_command(&Command::Color2 { color_2: 21 });
    u.apply_command(&Command::Gobo2 { gobo_2: 22 });
    u.apply_command(&Command::Focus2 { focus_2: 23 });
    u.apply_command(&Command::Dimmer2 { dimmer_2: 24 });
    let frame = u.get_dmx_values();
    assert_eq!(
        &frame[99..115],
        &[0x12, 0x34, 0x56, 0x78, 11, 12, 0, 0, 0, 0, 13, 255, 14, 0, 0, 0]
    );
    assert_eq!(
        &frame[115..131],
        &[0x9a, 0xbc, 0xde, 0xf0, 21, 22, 0, 0, 0, 0, 23, 255, 24, 0, 0, 0]
    );
    assert_eq!(&frame[0..6], &[0, 0, 0, 0, 0, 255]);
    assert_eq!(
        u.fixtures[7].components[9],
        FixtureComponent::Dimmer(Dimmer { local: 255, intensity: 14 })
    );
    assert_eq!(
        u.fixtures[8].components[0],
        FixtureComponent::Position(Position { pan: 0x9abc, tilt: 0xdef0 })
    );
}

#[test]
fn command_for_an_absent_fixture_changes_nothing() {
    let mut u = Universe::new();
    u.apply_command(&Command::Pan1 { pan_1: 7 });
    u.apply_command(&Command::Dimmer2 { dimmer_2: 7 });
    u.apply_command(&Command::Strobo { state: "down".to_string() });
    assert!(u.fixtures.is_empty());
    assert_eq!(u.get_dmx_values(), [0u8; 512]);
}

#[test]
fn commands_without_effect_on_the_universe() {
    let mut u = get_universe();
    u.insert_present(AnyEffect::ColorSwap(ColorSwapEffect::new(40, 7, true, false)));
    let before = u.get_dmx_values();
    u.apply_command(&Command::Preset { number: "3".to_string() });
    u.apply_command(&Command::InputValues { input1: "a".to_string(), input2: "b".to_string() });
    u.apply_command(&Command::Color { color: "#ff0000".to_string() });
    assert_eq!(u.get_dmx_values(), before);
    assert_eq!(u.effects.len(), 1);
    assert_eq!(swap_of(&u, 0).bpm, 40);
}

#[test]
fn parameter_commands_reach_every_color_swap() {
    let mut u = get_universe();
    u.insert_present(AnyEffect::ColorSwap(ColorSwapEffect::new(40, 7, true, false)));
    u.insert_present(AnyEffect::Gradient(GradientEffect {
        speed: 5,
        colors: vec![[1, 2, 3]],
        position: 9,
    }));
    u.insert_present(AnyEffect::ColorSwap(ColorSwapEffect::new(90, 2, false, true)));
    u.apply_command(&Command::Bpm { bpm: 128 });
    assert_eq!(swap_of(&u, 0).bpm, 128);
    assert_eq!(swap_of(&u, 2).bpm, 128);
    u.apply_command(&Command::Smooth { smooth: true });
    assert!(swap_of(&u, 0).smooth);
    assert!(swap_of(&u, 2).smooth);
    u.apply_command(&Command::Smooth { smooth: false });
    assert!(!swap_of(&u, 0).smooth);
    u.apply_command(&Command::Offset { offset: false });
    assert!(!swap_of(&u, 0).offset_pattern);
    assert_eq!(swap_of(&u, 0).current_colors(), vec![ParColor::Cool; 7]);
    u.apply_command(&Command::Offset { offset: true });
    assert_eq!(swap_of(&u, 2).current_colors(), vec![ParColor::Cool, ParColor::Warm]);
    match &u.effects[1] {
        AnyEffect::Gradient(g) => {
            assert_eq!(g.speed, 5);
            assert_eq!(g.position, 9);
        }
        _ => panic!("order of effects changed"),
    }
}

#[test]
fn tempo_command_between_ticks_keeps_the_clock() {
    let mut u = get_universe();
    u.insert_present(AnyEffect::ColorSwap(ColorSwapEffect::new(120, 7, false, false)));
    u.tick_effects(300_000_000);
    u.apply_command(&Command::Bpm { bpm: 60 });
    assert_eq!(swap_of(&u, 0).accumulated_time(), 300_000_000);
    u.tick_effects(300_000_000);
    assert_eq!(swap_of(&u, 0).accumulated_time(), 600_000_000);
    assert_eq!(swap_of(&u, 0).current_colors(), vec![ParColor::Cool; 7]);
    u.tick_effects(400_000_000);
    assert_eq!(swap_of(&u, 0).accumulated_time(), 1_000_000_000);
    assert_eq!(swap_of(&u, 0).current_colors(), vec![ParColor::Warm; 7]);
}

#[test]
fn set_swap_parameter_directly() {
    let mut u = Universe::new();
    u.insert_present(AnyEffect::ColorSwap(ColorSwapEffect::new(1, 1, false, false)));
    u.set_swap_parameter(SwapParameter::Bpm(77));
    assert_eq!(swap_of(&u, 0).bpm, 77);
}

#[test]
fn commands_keep_the_patch() {
    let mut u = get_universe();
    u.apply_command(&Command::Pan1 { pan_1: 65535 });
    u.apply_command(&Command::Strobo { state: "down".to_string() });
    assert!(u.validate().is_ok());
    assert_eq!(u.fixtures.len(), 9);
    assert_eq!(u.fixtures[7].get_dmx_values().len(), 16);
}

#[test]
fn interleaved_commands_and_reads_see_whole_positions() {
    let mut u = get_universe();
    let mut seed: u64 = 0x2545_f491_4f6c_dd1d;
    let mut pan: u16 = 0;
    let mut tilt: u16 = 0;
    for _ in 0..2000 {
        seed = seed.wrapping_mul(6364136223846793005).wrapping_add(1442695040888963407);
        let pick = (seed >> 33) % 3;
        let value = (seed >> 40) as u16;
        if pick == 0 {
            pan = value;
            u.apply_command(&Command::Pan1 { pan_1: value });
        } else if pick == 1 {
            tilt = value;
            u.apply_command(&Command::Tilt1 { tilt_1: value });
        } else {
            let snapshot = u.clone().get_dmx_values();
            let frame = u.get_dmx_values();
            assert_eq!(frame, snapshot);
            assert_eq!(frame[99], (pan >> 8) as u8);
            assert_eq!(frame[100], (pan & 0xff) as u8);
            assert_eq!(frame[101], (tilt >> 8) as u8);
            assert_eq!(frame[102], (tilt & 0xff) as u8);
        }
    }
}

#[test]
fn hex_colors() {
    assert_eq!(hex_to_rgb("#ff8000"), Ok((255, 128, 0)));
    assert_eq!(hex_to_rgb("#000000"), Ok((0, 0, 0)));
    assert_eq!(hex_to_rgb("#FFFFFF"), Ok((255, 255, 255)));
    assert_eq!(hex_to_rgb("#1a2B3c"), Ok((0x1a, 0x2b, 0x3c)));
    assert_eq!(hex_to_rgb("x0102030"), Ok((1, 2, 3)));
    assert_eq!(hex_to_rgb("#010203ff and more"), Ok((1, 2, 3)));
}

#[test]
fn hex_color_with_a_plus_sign() {
    assert_eq!(hex_to_rgb("#+f+0+a"), Ok((15, 0, 10)));
    assert_eq!(hex_to_rgb("#f+0000"), Err(HexColorError::InvalidDigit));
    assert_eq!(hex_to_rgb("#++0000"), Err(HexColorError::InvalidDigit));
    assert_eq!(hex_to_rgb("#-10000"), Err(HexColorError::InvalidDigit));
}

#[test]
fn hex_color_too_short() {
    assert_eq!(hex_to_rgb(""), Err(HexColorError::TooShort));
    assert_eq!(hex_to_rgb("#"), Err(HexColorError::TooShort));
    assert_eq!(hex_to_rgb("#ff800"), Err(HexColorError::TooShort));
    assert_eq!(hex_to_rgb("ff8000"), Err(HexColorError::TooShort));
}

#[test]
fn hex_color_invalid_digit() {
    assert_eq!(hex_to_rgb("#gg0000"), Err(HexColorError::InvalidDigit));
    assert_eq!(hex_to_rgb("#00 000"), Err(HexColorError::InvalidDigit));
    assert_eq!(hex_to_rgb("#0000_0"), Err(HexColorError::InvalidDigit));
    assert_eq!(hex_to_rgb("#00000\u{e9}"), Err(HexColorError::InvalidDigit));
    assert_eq!(hex_to_rgb("\u{e9}00000"), Err(HexColorError::InvalidDigit));
}

#[test]
fn hex_digits_and_pairs() {
    assert_eq!(read_hex_digit(b'0'), Some(0));
    assert_eq!(read_hex_digit(b'9'), Some(9));
    assert_eq!(read_hex_digit(b'a'), Some(10));
    assert_eq!(read_hex_digit(b'f'), Some(15));
    assert_eq!(read_hex_digit(b'A'), Some(10));
    assert_eq!(read_hex_digit(b'F'), Some(15));
    assert_eq!(read_hex_digit(b'g'), None);
    assert_eq!(read_hex_digit(b'G'), None);
    assert_eq!(read_hex_digit(b'/'), None);
    assert_eq!(read_hex_digit(b':'), None);
    assert_eq!(read_hex_digit(b'@'), None);
    assert_eq!(read_hex_digit(b'`'), None);
    assert_eq!(read_hex_pair(b'7', b'f'), Some(127));
    assert_eq!(read_hex_pair(b'+', b'7'), Some(7));
    assert_eq!(read_hex_pair(b'7', b'+'), None);
}
