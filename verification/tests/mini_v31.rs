use ergohaven::click::{Gesture, Step};
use ergohaven::event::{
    Action, Axis, AxisEvent, ControllerEvent, Event, KeyAction, KeyCode, MouseReport, TickEvent,
};
use ergohaven::mini_v31::{
    handle_user_keycode, trackball_tick_at, trackball_tick_resume, trackball_tick_task, TickState,
    TrackballProcessor,
};

struct Ball {
    p: TrackballProcessor,
    t: TickState,
}

impl Ball {
    fn new() -> Self {
        Ball { p: TrackballProcessor::new(), t: TickState::new() }
    }

    /// A key message, carried through to the end.
    fn key(&mut self, kc: KeyCode, now: u32) -> Gesture {
        let gesture = self.key_only(kc, now);
        trackball_tick_resume(&mut self.p, &mut self.t);
        gesture
    }

    fn key_only(&mut self, kc: KeyCode, now: u32) -> Gesture {
        let event = TickEvent::Message(ControllerEvent::Key(KeyAction::Single(Action::Key(kc))));
        trackball_tick_at(&mut self.p, &mut self.t, event, now)
    }

    /// Key messages in order; the buttons of all reports that their gestures send.
    fn buttons_sent(&mut self, keys: &[(KeyCode, u32)]) -> Vec<u8> {
        let mut sent = Vec::new();
        for (kc, now) in keys {
            if let Some(steps) = self.key(*kc, *now).steps() {
                for step in steps {
                    if let Step::Report(report) = step {
                        sent.push(report.buttons);
                    }
                }
            }
        }
        sent
    }

    fn modes(&self) -> (bool, bool) {
        (self.p.mode_scroll, self.p.mode_sniper)
    }
}

const MB1: KeyCode = KeyCode::MouseBtn1;
const MB2: KeyCode = KeyCode::User12;

fn motion(dx: i16, dy: i16) -> Event {
    Event::Joystick([
        AxisEvent { axis: Axis::X, value: dx },
        AxisEvent { axis: Axis::Y, value: dy },
        AxisEvent { axis: Axis::Other, value: 0 },
    ])
}

#[test]
fn v31_user12_tap_is_a_right_click() {
    let mut b = Ball::new();
    assert_eq!(b.key(MB2, 1_000), Gesture::Nothing);
    assert_eq!(b.modes(), (false, true));
    assert_eq!(b.key(MB2, 1_249), Gesture::Mb2Click);
    assert_eq!(b.modes(), (false, false));
}

#[test]
fn v31_user12_hold_is_sniper_only() {
    let mut b = Ball::new();
    b.key(MB2, 1_000);
    assert_eq!(
        b.p.process_at(motion(40, -8), 1_100).1,
        Some(MouseReport { buttons: 0, x: 10, y: -2, wheel: 0, pan: 0 })
    );
    assert_eq!(b.key(MB2, 1_250), Gesture::Nothing);
    assert_eq!(b.modes(), (false, false));
}

#[test]
fn v31_mb1_alone_is_only_a_button() {
    let mut b = Ball::new();
    assert_eq!(b.key(MB1, 10), Gesture::Nothing);
    assert_eq!(b.p.motion.mouse_buttons, 1);
    assert_eq!(b.modes(), (false, false));
    assert_eq!(b.key(MB1, 20), Gesture::Nothing);
    assert_eq!(b.p.motion.mouse_buttons, 0);
}

#[test]
fn v31_combo_hold_scrolls() {
    let mut b = Ball::new();
    b.key(MB1, 1_000);
    assert_eq!(b.key(MB2, 1_099), Gesture::Nothing);
    assert_eq!(b.modes(), (true, false));
    assert_eq!(
        b.p.process_at(motion(0, 10), 1_200).1,
        Some(MouseReport { buttons: 0, x: 0, y: 0, wheel: -2, pan: 0 })
    );
    b.p.process_at(motion(3, 3), 1_210);
    assert_eq!(b.key(MB2, 1_349), Gesture::Nothing);
    assert_eq!(b.modes(), (false, false));
    assert_eq!(b.p.motion.scroll_accum_x.load(), 0);
}

#[test]
fn v31_combo_tap_is_a_middle_click() {
    let mut b = Ball::new();
    b.key(MB2, 1_000);
    assert_eq!(b.modes(), (false, true));
    b.key(MB1, 1_050);
    assert_eq!(b.modes(), (true, false));
    assert_eq!(b.key(MB2, 1_299), Gesture::Mb3Click);
    assert_eq!(b.modes(), (false, false));
    assert_eq!(b.key(MB1, 1_310), Gesture::Nothing);
}

#[test]
fn v31_combo_tap_sends_one_click_whatever_the_order() {
    for presses in [[MB1, MB2], [MB2, MB1]] {
        for releases in [[MB1, MB2], [MB2, MB1]] {
            let mut b = Ball::new();
            let keys = [
                (presses[0], 1_000),
                (presses[1], 1_040),
                (releases[0], 1_100),
                (releases[1], 1_150),
            ];
            assert_eq!(b.buttons_sent(&keys), [0b100, 0]);
            assert_eq!(b.modes(), (false, false));
            assert_eq!(b.p.motion.mouse_buttons, 0);
        }
    }
}

#[test]
fn v31_late_combo_release_sends_nothing() {
    let mut b = Ball::new();
    let keys = [(MB2, 1_000), (MB1, 1_090), (MB1, 1_340), (MB2, 1_345)];
    assert_eq!(b.buttons_sent(&keys), []);
    assert_eq!(b.modes(), (false, false));
}

#[test]
fn v31_tap_after_a_combo_is_a_right_click_again() {
    let mut b = Ball::new();
    let keys = [(MB1, 1_000), (MB2, 1_040), (MB1, 1_100), (MB2, 1_150), (MB2, 2_000), (MB2, 2_050)];
    assert_eq!(b.buttons_sent(&keys), [0b100, 0, 0b010, 0]);
}

#[test]
fn v31_sniper_returns_after_the_middle_click() {
    let mut b = Ball::new();
    b.key(MB1, 1_000);
    b.key(MB2, 1_010);
    assert_eq!(b.key_only(MB1, 1_100), Gesture::Mb3Click);
    assert_eq!(b.modes(), (false, false));
    trackball_tick_resume(&mut b.p, &mut b.t);
    assert_eq!(b.modes(), (false, true));
    assert_eq!(b.p.motion.mouse_buttons, 0);
    assert_eq!(b.key(MB2, 1_150), Gesture::Nothing);
    assert_eq!(b.modes(), (false, false));
}

#[test]
fn v31_sniper_returns_at_once_after_scrolling() {
    let mut b = Ball::new();
    b.key(MB1, 1_000);
    b.key(MB2, 1_010);
    assert_eq!(b.key_only(MB1, 2_000), Gesture::Nothing);
    assert_eq!(b.modes(), (false, true));
}

#[test]
fn v31_late_second_press_is_no_combo() {
    let mut b = Ball::new();
    b.key(MB1, 1_000);
    b.key(MB2, 1_100);
    assert_eq!(b.modes(), (false, true));
    let mut b = Ball::new();
    b.key(MB2, 1_000);
    b.key(MB1, 1_100);
    assert_eq!(b.modes(), (false, true));
    assert_eq!(b.p.motion.mouse_buttons, 1);
}

#[test]
fn v31_press_times_survive_a_clock_wrap() {
    let mut b = Ball::new();
    b.key(MB2, u32::MAX - 20);
    assert_eq!(b.key(MB2, 100), Gesture::Mb2Click);
}

#[test]
fn v31_setting_keys_move_the_divisors() {
    let mut b = Ball::new();
    b.key(KeyCode::User8, 0);
    b.key(KeyCode::User10, 0);
    assert_eq!((b.p.motion.scroll_divisor, b.p.motion.sniper_divisor), (6, 5));
    b.key(KeyCode::User9, 0);
    b.key(KeyCode::User11, 0);
    assert_eq!((b.p.motion.scroll_divisor, b.p.motion.sniper_divisor), (5, 4));
    handle_user_keycode(&mut b.p, 10);
    assert_eq!(b.p.motion.sniper_divisor, 5);
    assert_eq!(b.key(KeyCode::MouseBtn2, 0), Gesture::Nothing);
    assert_eq!(b.p.motion.mouse_buttons, 0);
}

#[test]
fn v31_quiet_interval_drops_leftover_scroll() {
    let mut b = Ball::new();
    b.p.motion.scroll_accum_y.store(3);
    trackball_tick_at(&mut b.p, &mut b.t, TickEvent::Timeout, 0);
    assert_eq!(b.p.motion.scroll_accum_y.load(), 0);
    b.key(MB1, 1_000);
    b.key(MB2, 1_010);
    b.p.process_at(motion(0, 3), 1_020);
    trackball_tick_at(&mut b.p, &mut b.t, TickEvent::Timeout, 1_500);
    assert_eq!(b.p.motion.scroll_accum_y.load(), 3);
}

#[test]
fn v31_modes_exclude_each_other_at_all_times() {
    let mut b = Ball::new();
    let keys = [MB1, MB2, MB2, MB1, MB2, MB1, MB1, MB2, MB1, MB2, MB1, MB2];
    for (i, kc) in keys.into_iter().enumerate() {
        b.key(kc, 60 * i as u32);
        assert!(!(b.p.mode_scroll && b.p.mode_sniper));
        assert_eq!(b.p.mode_scroll, b.t.combo_active);
        assert_eq!(b.p.mode_sniper, b.t.mb2_held && !b.t.combo_active);
        assert_eq!(b.p.motion.mouse_buttons, b.t.mb1_held as u8);
    }
}

#[test]
fn v31_report_carries_the_motion_from_before_a_scroll() {
    let mut b = Ball::new();
    let point = |x, y| Some(MouseReport { buttons: 0, x, y, wheel: 0, pan: 0 });
    assert_eq!(b.p.process_at(motion(1, 1), 1_000).1, point(1, 1));
    assert_eq!(b.p.process_at(motion(7, -2), 1_005).1, None);
    b.key(MB1, 1_006);
    b.key(MB2, 1_007);
    assert_eq!(
        b.p.process_at(motion(50, 0), 1_008).1,
        Some(MouseReport { buttons: 0, x: 0, y: 0, wheel: 0, pan: 10 })
    );
    b.key(MB2, 1_009);
    b.key(MB1, 1_010);
    assert_eq!(b.p.process_at(motion(3, 3), 1_015).1, None);
    assert_eq!(b.p.process_at(motion(-20, 0), 1_016).1, point(-10, 1));
}

#[test]
fn v31_task_reads_the_clock() {
    let mut b = Ball::new();
    let event = TickEvent::Message(ControllerEvent::Key(KeyAction::Single(Action::Key(MB2))));
    let before = ergohaven::clock::now_ms();
    assert_eq!(trackball_tick_task(&mut b.p, &mut b.t, event), Gesture::Nothing);
    assert!(b.p.mode_sniper);
    assert!(b.t.mb2_press_time.wrapping_sub(before) < 10_000);
    assert_eq!(
        b.p.process(motion(8, 0)).1,
        Some(MouseReport { buttons: 0, x: 2, y: 0, wheel: 0, pan: 0 })
    );
}
