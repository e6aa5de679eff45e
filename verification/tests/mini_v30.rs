use ergohaven::click::Gesture;
use ergohaven::event::{
    Action, Axis, AxisEvent, ControllerEvent, Event, KeyAction, KeyCode, MouseReport, TickEvent,
};
use ergohaven::mini_v30::{
    trackball_tick_at, trackball_tick_resume, trackball_tick_task, TickState, TrackballProcessor,
};

struct Ball {
    p: TrackballProcessor,
    t: TickState,
}

impl Ball {
    fn new() -> Self {
        Ball { p: TrackballProcessor::new(), t: TickState::new() }
    }

    /// A key message, carried through to the end.
    fn key(&mut self, kc: KeyCode, now: u32) -> Gesture {
        let gesture = self.key_only(kc, now);
        trackball_tick_resume(&mut self.p, &mut self.t);
        gesture
    }

    fn key_only(&mut self, kc: KeyCode, now: u32) -> Gesture {
        let event = TickEvent::Message(ControllerEvent::Key(KeyAction::Single(Action::Key(kc))));
        trackball_tick_at(&mut self.p, &mut self.t, event, now)
    }

    /// Both buttons down and up again, User12 first; what the first release asks for.
    fn combo_tap(&mut self, now: u32) -> Gesture {
        self.key(MB1, now);
        self.key(MB2, now + 10);
        let gesture = self.key(MB2, now + 50);
        self.key(MB1, now + 60);
        gesture
    }

    /// Both buttons down and up again in the given order; what each release asks for.
    fn combo(&mut self, first_up: KeyCode, now: u32) -> (Gesture, Gesture) {
        self.key(MB1, now);
        self.key(MB2, now + 40);
        let first = self.key(first_up, now + 100);
        let second = self.key(if first_up == MB1 { MB2 } else { MB1 }, now + 150);
        (first, second)
    }

    fn in_adjust() -> Self {
        let mut b = Ball::new();
        b.combo_tap(5_000);
        b.combo_tap(5_200);
        assert!(b.p.mode_adjust);
        b
    }

    fn modes(&self) -> (bool, bool, bool) {
        (self.p.mode_scroll, self.p.mode_sniper, self.p.mode_adjust)
    }
}

const MB1: KeyCode = KeyCode::MouseBtn1;
const MB2: KeyCode = KeyCode::User12;
const BT0: Gesture = Gesture::VirtualKey { row: 0, col: 2 };
const BT_NEXT: Gesture = Gesture::VirtualKey { row: 0, col: 3 };

fn motion(dx: i16, dy: i16) -> Event {
    Event::Joystick([
        AxisEvent { axis: Axis::X, value: dx },
        AxisEvent { axis: Axis::Y, value: dy },
        AxisEvent { axis: Axis::Other, value: 0 },
    ])
}

#[test]
fn v30_user12_tap_and_hold() {
    let mut b = Ball::new();
    assert_eq!(b.key(MB2, 1_000), Gesture::Nothing);
    assert_eq!(b.modes(), (false, true, false));
    assert_eq!(b.key(MB2, 1_249), Gesture::Mb2Click);
    assert_eq!(b.modes(), (false, false, false));
    b.key(MB2, 2_000);
    assert_eq!(b.key(MB2, 2_250), Gesture::Nothing);
}

#[test]
fn v30_mb1_alone_is_only_a_button() {
    let mut b = Ball::new();
    assert_eq!(b.key(MB1, 10), Gesture::Nothing);
    assert_eq!(b.p.motion.mouse_buttons, 1);
    assert_eq!(b.key(MB1, 20), Gesture::Nothing);
    assert_eq!(b.p.motion.mouse_buttons, 0);
    assert_eq!(b.modes(), (false, false, false));
}

#[test]
fn v30_first_combo_tap_is_a_middle_click() {
    let mut b = Ball::new();
    assert_eq!(b.combo_tap(5_000), Gesture::Mb3Click);
    assert_eq!(b.modes(), (false, false, false));
    assert_eq!(b.t.last_combo_tap_time, Some(5_050));
}

#[test]
fn v30_combo_tap_sends_one_click_whatever_the_order() {
    for first_up in [MB1, MB2] {
        let mut b = Ball::new();
        assert_eq!(b.combo(first_up, 1_000), (Gesture::Mb3Click, Gesture::Nothing));
        assert_eq!(b.modes(), (false, false, false));
        assert_eq!(b.p.motion.mouse_buttons, 0);
    }
}

#[test]
fn v30_double_tap_sends_no_key_whatever_the_order() {
    for first_up in [MB1, MB2] {
        for second_up in [MB1, MB2] {
            let mut b = Ball::new();
            assert_eq!(b.combo(first_up, 1_000), (Gesture::Mb3Click, Gesture::Nothing));
            assert_eq!(b.combo(second_up, 1_200), (Gesture::Nothing, Gesture::Nothing));
            assert_eq!(b.modes(), (false, false, true));
            assert_eq!(b.p.motion.mouse_buttons, 0);
            b.key(MB1, 3_000);
            assert_eq!(b.key(MB1, 3_050), BT0);
            b.key(MB2, 4_000);
            assert_eq!(b.key(MB2, 4_050), BT_NEXT);
        }
    }
}

#[test]
fn v30_leaving_adjust_sends_nothing_whatever_the_order() {
    for first_up in [MB1, MB2] {
        let mut b = Ball::in_adjust();
        assert_eq!(b.combo(first_up, 6_000), (Gesture::Nothing, Gesture::Nothing));
        assert_eq!(b.modes(), (false, false, false));
        assert_eq!(b.p.motion.mouse_buttons, 0);
        b.key(MB2, 7_000);
        assert_eq!(b.key(MB2, 7_050), Gesture::Mb2Click);
    }
}

#[test]
fn v30_first_combo_tap_right_after_start_is_a_middle_click() {
    let mut b = Ball::new();
    assert_eq!(b.combo_tap(100), Gesture::Mb3Click);
    assert!(!b.p.mode_adjust);
}

#[test]
fn v30_second_combo_tap_enters_adjust() {
    let mut b = Ball::new();
    b.combo_tap(5_000);
    assert_eq!(b.combo_tap(5_399), Gesture::Nothing);
    assert_eq!(b.modes(), (false, false, true));
    assert_eq!(b.t.last_combo_tap_time, None);
}

#[test]
fn v30_second_combo_tap_too_late_is_a_middle_click() {
    let mut b = Ball::new();
    b.combo_tap(5_000);
    assert_eq!(b.combo_tap(5_400), Gesture::Mb3Click);
    assert!(!b.p.mode_adjust);
}

#[test]
fn v30_held_combo_uses_up_a_tap() {
    let mut b = Ball::new();
    b.combo_tap(5_000);
    b.key(MB1, 5_070);
    b.key(MB2, 5_080);
    assert_eq!(b.modes(), (true, false, false));
    assert_eq!(b.key(MB2, 5_330), Gesture::Nothing);
    b.key(MB1, 5_335);
    assert_eq!(b.combo_tap(5_340), Gesture::Mb3Click);
}

#[test]
fn v30_combo_hold_scrolls_then_snipes() {
    let mut b = Ball::new();
    b.key(MB2, 1_000);
    b.key(MB1, 1_099);
    assert_eq!(
        b.p.process_at(motion(5, 0), 1_150).1,
        Some(MouseReport { buttons: 0, x: 0, y: 0, wheel: 0, pan: 1 })
    );
    assert_eq!(b.key_only(MB1, 1_349), Gesture::Nothing);
    assert_eq!(b.modes(), (false, true, false));
}

#[test]
fn v30_sniper_returns_after_the_middle_click() {
    let mut b = Ball::new();
    b.key(MB1, 1_000);
    b.key(MB2, 1_010);
    assert_eq!(b.key_only(MB1, 1_100), Gesture::Mb3Click);
    assert_eq!(b.modes(), (false, false, false));
    trackball_tick_resume(&mut b.p, &mut b.t);
    assert_eq!(b.modes(), (false, true, false));
}

#[test]
fn v30_late_second_press_is_no_combo() {
    let mut b = Ball::new();
    b.key(MB1, 1_000);
    b.key(MB2, 1_100);
    assert_eq!(b.modes(), (false, true, false));
}

#[test]
fn v30_adjust_taps_trigger_bluetooth_keys() {
    let mut b = Ball::in_adjust();
    assert_eq!(b.key(MB1, 6_000), Gesture::Nothing);
    assert_eq!(b.p.motion.mouse_buttons, 0);
    assert_eq!(b.key(MB1, 6_249), BT0);
    assert_eq!(b.key(MB2, 7_000), Gesture::Nothing);
    assert_eq!(b.modes(), (false, false, true));
    assert_eq!(b.key(MB2, 7_249), BT_NEXT);
    assert_eq!(b.modes(), (false, false, true));
}

#[test]
fn v30_adjust_long_presses_do_nothing() {
    let mut b = Ball::in_adjust();
    b.key(MB1, 6_000);
    assert_eq!(b.key(MB1, 6_250), Gesture::Nothing);
    b.key(MB2, 7_000);
    assert_eq!(b.key(MB2, 7_250), Gesture::Nothing);
    assert_eq!(b.modes(), (false, false, true));
}

#[test]
fn v30_combo_leaves_adjust() {
    let mut b = Ball::in_adjust();
    b.key(MB1, 6_000);
    assert_eq!(b.key(MB2, 6_099), Gesture::Nothing);
    assert_eq!(b.modes(), (false, false, false));
    assert!(!b.t.combo_active);
    let mut b = Ball::in_adjust();
    b.key(MB2, 6_000);
    b.key(MB1, 6_050);
    assert_eq!(b.modes(), (false, false, false));
}

#[test]
fn v30_bluetooth_keys_pass_through() {
    let mut b = Ball::new();
    for kc in [KeyCode::User0, KeyCode::User3, KeyCode::User5, KeyCode::User6] {
        assert_eq!(b.key(kc, 10), Gesture::Nothing);
    }
    assert_eq!(b.t, TickState::new());
    assert_eq!(b.modes(), (false, false, false));
}

#[test]
fn v30_setting_keys_move_the_divisors() {
    let mut b = Ball::new();
    b.key(KeyCode::User8, 0);
    b.key(KeyCode::User11, 0);
    assert_eq!((b.p.motion.scroll_divisor, b.p.motion.sniper_divisor), (6, 3));
    b.key(KeyCode::User9, 0);
    b.key(KeyCode::User10, 0);
    assert_eq!((b.p.motion.scroll_divisor, b.p.motion.sniper_divisor), (5, 4));
}

#[test]
fn v30_quiet_interval_drops_leftover_scroll() {
    let mut b = Ball::new();
    b.p.motion.scroll_accum_x.store(-4);
    trackball_tick_at(&mut b.p, &mut b.t, TickEvent::Timeout, 0);
    assert_eq!(b.p.motion.scroll_accum_x.load(), 0);
}

#[test]
fn v30_modes_exclude_each_other_at_all_times() {
    let mut b = Ball::new();
    let keys = [MB1, MB2, MB2, MB1, MB1, MB2, MB1, MB2, MB2, MB1, MB1, MB2, MB2, MB1];
    for (i, kc) in keys.into_iter().enumerate() {
        b.key(kc, 1_000 + 60 * i as u32);
        let on = b.p.mode_scroll as u8 + b.p.mode_sniper as u8 + b.p.mode_adjust as u8;
        assert!(on <= 1);
        assert_eq!(b.p.mode_scroll, b.t.combo_active);
    }
}

#[test]
fn v30_report_carries_the_motion_from_before_sniping() {
    let mut b = Ball::new();
    let point = |x, y| Some(MouseReport { buttons: 0, x, y, wheel: 0, pan: 0 });
    assert_eq!(b.p.process_at(motion(100, 0), 1_000).1, point(100, 0));
    assert_eq!(b.p.process_at(motion(100, 5), 1_010).1, None);
    b.key(MB2, 1_011);
    assert_eq!(b.p.process_at(motion(-8, 8), 1_012).1, point(-2, 2));
    b.key(MB2, 1_013);
    assert_eq!(b.p.process_at(motion(100, 5), 1_020).1, point(127, 10));
}

#[test]
fn v30_task_reads_the_clock() {
    let mut b = Ball::new();
    let event = TickEvent::Message(ControllerEvent::Key(KeyAction::Single(Action::Key(MB1))));
    let before = ergohaven::clock::now_ms();
    assert_eq!(trackball_tick_task(&mut b.p, &mut b.t, event), Gesture::Nothing);
    assert!(b.t.mb1_press_time.wrapping_sub(before) < 10_000);
    b.p.motion.last_normal_report_ms = before.wrapping_sub(60_000);
    assert_eq!(
        b.p.process(motion(0, 9)).1,
        Some(MouseReport { buttons: 1, x: 0, y: 9, wheel: 0, pan: 0 })
    );
}
