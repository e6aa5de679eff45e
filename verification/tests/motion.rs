use ergohaven::arith::{clamp_to_i8, elapsed, low_byte, low_byte_of_negated};
use ergohaven::event::{displacement, Axis, AxisEvent, Event, MouseReport, ProcessResult};
use ergohaven::motion::{Mode, Motion};

fn axis(axis: Axis, value: i16) -> AxisEvent {
    AxisEvent { axis, value }
}

fn ball(dx: i16, dy: i16) -> Event {
    Event::Joystick([axis(Axis::X, dx), axis(Axis::Y, dy), axis(Axis::Other, 99)])
}

fn scroll_report(wheel: i8, pan: i8) -> Option<MouseReport> {
    Some(MouseReport { buttons: 0, x: 0, y: 0, wheel, pan })
}

fn point_report(buttons: u8, x: i8, y: i8) -> Option<MouseReport> {
    Some(MouseReport { buttons, x, y, wheel: 0, pan: 0 })
}

#[test]
fn numbers_are_cut_to_a_byte() {
    assert_eq!(low_byte(300), 44);
    assert_eq!(low_byte(-129), 127);
    assert_eq!(low_byte(256), 0);
    assert_eq!(low_byte_of_negated(5), -5);
    assert_eq!(low_byte_of_negated(128), -128);
    assert_eq!(low_byte_of_negated(i32::MIN), 0);
    assert_eq!(clamp_to_i8(300), 127);
    assert_eq!(clamp_to_i8(-300), -128);
    assert_eq!(clamp_to_i8(-7), -7);
}

#[test]
fn elapsed_time_wraps() {
    assert_eq!(elapsed(1_250, 1_000), 250);
    assert_eq!(elapsed(5, u32::MAX - 4), 10);
    assert_eq!(elapsed(7, 7), 0);
}

#[test]
fn last_entry_of_an_axis_counts() {
    let axes = [axis(Axis::X, 3), axis(Axis::X, -8), axis(Axis::Other, 5)];
    assert_eq!(displacement(&axes), (-8, 0));
    let axes = [axis(Axis::Y, 1), axis(Axis::X, 2), axis(Axis::Y, 3)];
    assert_eq!(displacement(&axes), (2, 3));
}

#[test]
fn defaults_at_power_on() {
    let motion = Motion::new();
    assert_eq!(motion.scroll_divisor, 5);
    assert_eq!(motion.sniper_divisor, 4);
    assert_eq!(motion.mouse_buttons, 0);
    assert_eq!(motion.last_normal_report_ms, 0);
}

#[test]
fn scrolling_divides_and_keeps_the_rest() {
    let mut motion = Motion::new();
    assert_eq!(motion.scroll(12, -7), scroll_report(1, 2));
    assert_eq!(motion.scroll_accum_x.load(), 2);
    assert_eq!(motion.scroll_accum_y.load(), -2);
    assert_eq!(motion.scroll(2, -2), None);
    assert_eq!(motion.scroll_accum_x.load(), 4);
    assert_eq!(motion.scroll_accum_y.load(), -4);
    assert_eq!(motion.scroll(1, 0), scroll_report(0, 1));
    assert_eq!(motion.scroll_accum_x.load(), 0);
    assert_eq!(motion.scroll_accum_y.load(), -4);
}

#[test]
fn scrolling_loses_no_motion() {
    let mut motion = Motion::new();
    let ways: [(i16, i16); 6] = [(3, 4), (3, -9), (-17, 100), (635, -635), (-1, 1), (8, 8)];
    let mut sent = (0i32, 0i32);
    let mut gone = (0i32, 0i32);
    for (dx, dy) in ways {
        if let Some(report) = motion.scroll(dx, dy) {
            sent = (sent.0 + report.pan as i32, sent.1 + report.wheel as i32);
        }
        gone = (gone.0 + dx as i32, gone.1 + dy as i32);
        assert_eq!(5 * sent.0 + motion.scroll_accum_x.load(), gone.0);
        assert_eq!(-5 * sent.1 + motion.scroll_accum_y.load(), gone.1);
        assert!(motion.scroll_accum_x.load().abs() < 5);
        assert!(motion.scroll_accum_y.load().abs() < 5);
    }
}

#[test]
fn scrolling_loses_no_motion_when_the_divisor_moves() {
    let mut motion = Motion::new();
    let mut sent = 0i32;
    let mut gone = 0i32;
    for (i, dx) in [13i16, -4, 639, -700, 7, 7, 2].into_iter().enumerate() {
        if let Some(report) = motion.scroll(dx, 0) {
            sent += motion.scroll_divisor as i32 * report.pan as i32;
        }
        gone += dx as i32;
        assert_eq!(sent + motion.scroll_accum_x.load(), gone);
        motion.snipe(50, 50);
        motion.point(-3, 9, 20 * i as u32);
        motion.adjust(if i % 3 == 0 { 9 } else { 8 });
    }
}

#[test]
fn pointing_wraps_a_sum_beyond_32_bits() {
    let mut motion = Motion::new();
    motion.normal_accum_x.store(i32::MAX);
    assert_eq!(motion.point(1, 0, 100), point_report(0, -128, 0));
}

#[test]
fn scroll_beyond_a_byte_is_cut() {
    let mut motion = Motion::new();
    motion.scroll_divisor = 1;
    assert_eq!(motion.scroll(300, 0), scroll_report(0, 44));
    assert_eq!(motion.scroll_accum_x.load(), 0);
    assert_eq!(motion.scroll(256, 0), None);
    assert_eq!(motion.scroll_accum_x.load(), 256);
}

#[test]
fn sniping_divides_towards_zero() {
    let mut motion = Motion::new();
    motion.mouse_buttons = 1;
    assert_eq!(motion.snipe(9, -9), point_report(1, 2, -2));
    assert_eq!(motion.snipe(3, -3), None);
    assert_eq!(motion.snipe(0, 4), point_report(1, 0, 1));
    assert_eq!(motion.snipe(i16::MAX, i16::MIN), point_report(1, 127, -128));
}

#[test]
fn sniping_by_one_changes_nothing() {
    let mut motion = Motion::new();
    motion.sniper_divisor = 1;
    assert_eq!(motion.snipe(-128, 127), point_report(0, -128, 127));
}

#[test]
fn pointing_waits_for_the_interval() {
    let mut motion = Motion::new();
    motion.mouse_buttons = 4;
    assert_eq!(motion.point(10, -3, 15), None);
    assert_eq!(motion.normal_accum_x.load(), 10);
    assert_eq!(motion.point(5, -3, 16), point_report(4, 15, -6));
    assert_eq!(motion.normal_accum_x.load(), 0);
    assert_eq!(motion.last_normal_report_ms, 16);
    assert_eq!(motion.point(1, 1, 31), None);
    assert_eq!(motion.point(-1, -1, 32), None);
    assert_eq!(motion.last_normal_report_ms, 16);
    assert_eq!(motion.point(0, 1, 33), point_report(4, 0, 1));
    assert_eq!(motion.last_normal_report_ms, 33);
}

#[test]
fn pointing_survives_a_clock_wrap() {
    let mut motion = Motion::new();
    motion.last_normal_report_ms = u32::MAX - 5;
    assert_eq!(motion.point(1, 0, 9), None);
    assert_eq!(motion.point(1, 0, 10), point_report(0, 2, 0));
}

#[test]
fn pointing_is_clamped() {
    let mut motion = Motion::new();
    assert_eq!(motion.point(300, -300, 100), point_report(0, 127, -128));
    assert_eq!(motion.normal_accum_x.load(), 0);
}

#[test]
fn settings_stop_at_their_limits() {
    let mut motion = Motion::new();
    for _ in 0..40 {
        motion.adjust(8);
        motion.adjust(10);
    }
    assert_eq!((motion.scroll_divisor, motion.sniper_divisor), (32, 16));
    for _ in 0..40 {
        motion.adjust(9);
        motion.adjust(11);
    }
    assert_eq!((motion.scroll_divisor, motion.sniper_divisor), (1, 1));
}

#[test]
fn settings_undo_each_other() {
    let mut motion = Motion::new();
    motion.adjust(8);
    assert_eq!(motion.scroll_divisor, 6);
    motion.adjust(9);
    assert_eq!(motion.scroll_divisor, 5);
    motion.adjust(11);
    assert_eq!(motion.sniper_divisor, 3);
    motion.adjust(10);
    assert_eq!(motion.sniper_divisor, 4);
    motion.adjust(7);
    motion.adjust(12);
    assert_eq!((motion.scroll_divisor, motion.sniper_divisor), (5, 4));
}

#[test]
fn modes_pick_the_report() {
    let mut motion = Motion::new();
    motion.mouse_buttons = 1;
    assert_eq!(
        motion.process(Mode::Scroll, ball(5, 5), 100),
        (ProcessResult::Stop, scroll_report(-1, 1))
    );
    assert_eq!(
        motion.process(Mode::Sniper, ball(8, 0), 100),
        (ProcessResult::Stop, point_report(1, 2, 0))
    );
    assert_eq!(
        motion.process(Mode::Normal, ball(8, -2), 100),
        (ProcessResult::Stop, point_report(1, 8, -2))
    );
    assert_eq!(
        motion.process(Mode::Normal, Event::Other, 200),
        (ProcessResult::Continue, None)
    );
}
