use stagelight::artnet::ARTNET_PORT;
use stagelight::command::Command;
use stagelight::dmx::{
    frame_for_line, LineAction, SenderStep, BAUD_RATE, BREAK_MICROS, DATA_BITS, MARK_MICROS,
    FRAME_PERIOD_MICROS, MIN_BREAK_MICROS, MIN_MARK_MICROS, STOP_BITS, WRITE_TIMEOUT_MILLIS,
};
use stagelight::patching::get_universe;
use stagelight::sweep::{
    degree_to_16_bit, pan_tilt_sweep, AxisState, AxisSweep, Direction, SweepOutput,
};
use stagelight::text::{digit_text, numbered, same_text};
use stagelight::universe::Universe;

#[test]
fn artnet_packet_wraps_the_frame() {
    let mut u = get_universe();
    u.apply_command(&Command::Pan1 { pan_1: 0x0708 });
    let packet = u.artnet_packet().unwrap();
    assert_eq!(packet.len(), 530);
    assert_eq!(
        &packet[0..18],
        &[65, 114, 116, 45, 78, 101, 116, 0, 0, 0x50, 0, 14, 0, 0, 1, 0, 2, 0]
    );
    assert_eq!(&packet[18..], &u.get_dmx_values()[..]);
    assert_eq!(packet[18 + 99], 7);
    assert_eq!(packet[18 + 100], 8);
}

#[test]
fn artnet_packet_of_an_empty_universe() {
    let packet = Universe::new().artnet_packet().unwrap();
    assert_eq!(packet.len(), 530);
    assert_eq!(&packet[0..8], b"Art-Net\0");
    assert!(packet[18..].iter().all(|b| *b == 0));
}

#[test]
fn artnet_port() {
    assert_eq!(ARTNET_PORT, 6454);
}

#[test]
fn dmx_line_frame_starts_with_the_start_code() {
    let mut u = get_universe();
    u.apply_command(&Command::Strobo { state: "down".to_string() });
    let line = u.dmx_line_frame();
    assert_eq!(line.len(), 513);
    assert_eq!(line[0], 0);
    assert_eq!(&line[1..], &u.get_dmx_values()[..]);
    assert_eq!(line[5], 255);
}

#[test]
fn frame_for_line_shifts_by_one() {
    let mut values = [0u8; 512];
    for k in 0..512 {
        values[k] = (k % 251) as u8 + 1;
    }
    let line = frame_for_line(&values);
    assert_eq!(line[0], 0);
    for k in 0..512 {
        assert_eq!(line[k + 1], values[k]);
    }
}

#[test]
fn sender_round() {
    let s = SenderStep::first();
    assert_eq!(s, SenderStep::Break);
    let (a, s) = s.advance(0);
    assert_eq!(a, LineAction::SetBreak { hold_micros: 120 });
    assert_eq!(s, SenderStep::Mark);
    let (a, s) = s.advance(125);
    assert_eq!(a, LineAction::ClearBreak { hold_micros: 12 });
    assert_eq!(s, SenderStep::Data);
    let (a, s) = s.advance(140);
    assert_eq!(a, LineAction::WriteFrame);
    assert_eq!(s, SenderStep::Flush);
    let (a, s) = s.advance(22_700);
    assert_eq!(a, LineAction::Flush);
    assert_eq!(s, SenderStep::Rest);
    let (a, s) = s.advance(22_712);
    assert_eq!(a, LineAction::Sleep { micros: 2_288 });
    assert_eq!(s, SenderStep::Break);
}

#[test]
fn rest_is_what_is_left_of_the_frame_period() {
    let rest = |spent: u64| SenderStep::Rest.advance(spent).0;
    assert_eq!(rest(0), LineAction::Sleep { micros: 25_000 });
    assert_eq!(rest(132), LineAction::Sleep { micros: 24_868 });
    assert_eq!(rest(24_999), LineAction::Sleep { micros: 1 });
    assert_eq!(rest(25_000), LineAction::Sleep { micros: 0 });
    assert_eq!(rest(25_001), LineAction::Sleep { micros: 0 });
    assert_eq!(rest(u64::MAX), LineAction::Sleep { micros: 0 });
}

#[test]
fn only_the_rest_depends_on_the_time() {
    for step in [SenderStep::Break, SenderStep::Mark, SenderStep::Data, SenderStep::Flush] {
        assert_eq!(step.advance(0), step.advance(1_000_000));
    }
    for step in [
        SenderStep::Break,
        SenderStep::Mark,
        SenderStep::Data,
        SenderStep::Flush,
        SenderStep::Rest,
    ] {
        assert_eq!(step.advance(0).1, step.advance(u64::MAX).1);
    }
}

#[test]
fn line_timing_and_settings() {
    assert!(BREAK_MICROS >= MIN_BREAK_MICROS);
    assert!(MARK_MICROS >= MIN_MARK_MICROS);
    assert_eq!(MIN_BREAK_MICROS, 88);
    assert_eq!(MIN_MARK_MICROS, 8);
    assert_eq!(BREAK_MICROS, 120);
    assert_eq!(MARK_MICROS, 12);
    assert_eq!(FRAME_PERIOD_MICROS, 25_000);
    assert_eq!(1_000_000 / FRAME_PERIOD_MICROS, 40);
    assert_eq!(BAUD_RATE, 250_000);
    assert_eq!(DATA_BITS, 8);
    assert_eq!(STOP_BITS, 2);
    assert_eq!(WRITE_TIMEOUT_MILLIS, 10);
}

#[test]
fn degrees_scale_to_sixteen_bits() {
    assert_eq!(degree_to_16_bit(0, 540), 0);
    assert_eq!(degree_to_16_bit(540, 540), 65535);
    assert_eq!(degree_to_16_bit(270, 540), 32767);
    assert_eq!(degree_to_16_bit(90, 270), 21845);
    assert_eq!(degree_to_16_bit(1, 540), 121);
    assert_eq!(degree_to_16_bit(65537, 1), 4294967295);
}

#[test]
fn axis_turns_at_its_limits() {
    let axis = AxisSweep { start: 10, end: 20, speed: 4 };
    let mut s = axis.begin().unwrap();
    assert_eq!(s, AxisState { current: 10, direction: Direction::Forward });
    let mut seen = Vec::new();
    for _ in 0..8 {
        seen.push(s.current);
        s = axis.step(s);
    }
    assert_eq!(seen, vec![10, 14, 18, 22, 18, 14, 10, 14]);
    assert_eq!((AxisSweep { start: u32::MAX, end: 0, speed: 0 }).begin(), None);
}

#[test]
fn sweep_round() {
    let pan = AxisSweep { start: 0, end: 540, speed: 270 };
    let tilt = AxisSweep { start: 90, end: 180, speed: 90 };
    let p = pan.begin().unwrap();
    let t = tilt.begin().unwrap();
    let (out, p, t) = pan_tilt_sweep(&pan, &tilt, p, t);
    assert_eq!(out, SweepOutput { pan: 0, tilt: 21845 });
    assert_eq!(p, AxisState { current: 270, direction: Direction::Forward });
    assert_eq!(t, AxisState { current: 180, direction: Direction::Forward });
    let (out, p, t) = pan_tilt_sweep(&pan, &tilt, p, t);
    assert_eq!(out, SweepOutput { pan: 32767, tilt: 43690 });
    assert_eq!(p, AxisState { current: 540, direction: Direction::Forward });
    assert_eq!(t, AxisState { current: 90, direction: Direction::Backward });
    let (out, p, _) = pan_tilt_sweep(&pan, &tilt, p, t);
    assert_eq!(out, SweepOutput { pan: 65535, tilt: 21845 });
    assert_eq!(p, AxisState { current: 270, direction: Direction::Backward });
}

#[test]
fn texts_compare_by_characters() {
    assert!(same_text("strobe", "strobe"));
    assert!(same_text("", ""));
    assert!(!same_text("strobe", "strobo"));
    assert!(!same_text("strobe", "strob"));
    assert!(!same_text("strobe", "Strobe"));
    assert!(same_text("gr\u{fc}n", "gr\u{fc}n"));
    assert!(!same_text("gr\u{fc}n", "grun"));
}

#[test]
fn numbered_names() {
    assert_eq!(numbered("LED PAR ", 1), "LED PAR 1");
    assert_eq!(numbered("", 0), "0");
    assert_eq!(numbered("x", 9), "x9");
    assert_eq!(numbered("x", 10), "x10");
    assert_eq!(numbered("x", 99), "x99");
    assert_eq!(numbered("x", 100), "x100");
    assert_eq!(numbered("x", 205), "x205");
    assert_eq!(numbered("x", 255), "x255");
    for d in 0..10u8 {
        assert_eq!(digit_text(d), d.to_string());
    }
}
