use ergohaven::event::{
    Action, Axis, AxisEvent, ControllerEvent, Event, KeyAction, KeyCode, MouseReport,
    ProcessResult, TickEvent,
};
use ergohaven::royale::{handle_user_keycode, trackball_tick_task, TrackballProcessor};

fn ball(dx: i16, dy: i16) -> Event {
    Event::Joystick([
        AxisEvent { axis: Axis::X, value: dx },
        AxisEvent { axis: Axis::Y, value: dy },
        AxisEvent { axis: Axis::Other, value: 0 },
    ])
}

fn key(kc: KeyCode) -> TickEvent {
    TickEvent::Message(ControllerEvent::Key(KeyAction::Single(Action::Key(kc))))
}

fn layer(layer: u8) -> TickEvent {
    TickEvent::Message(ControllerEvent::Layer(layer))
}

#[test]
fn royale_layers_pick_the_mode() {
    let mut p = TrackballProcessor::new();
    trackball_tick_task(&mut p, layer(1));
    assert_eq!(
        p.process_at(ball(10, 0), 1_000).1,
        Some(MouseReport { buttons: 0, x: 0, y: 0, wheel: 0, pan: 2 })
    );
    trackball_tick_task(&mut p, layer(2));
    assert_eq!(
        p.process_at(ball(10, 0), 1_000).1,
        Some(MouseReport { buttons: 0, x: 2, y: 0, wheel: 0, pan: 0 })
    );
    for other in [0, 3, 200] {
        let mut p = TrackballProcessor::new();
        trackball_tick_task(&mut p, layer(other));
        assert_eq!(
            p.process_at(ball(10, 0), 1_000).1,
            Some(MouseReport { buttons: 0, x: 10, y: 0, wheel: 0, pan: 0 })
        );
    }
}

#[test]
fn royale_buttons_toggle() {
    let mut p = TrackballProcessor::new();
    let all = [
        KeyCode::MouseBtn1,
        KeyCode::MouseBtn2,
        KeyCode::MouseBtn3,
        KeyCode::MouseBtn4,
        KeyCode::MouseBtn5,
    ];
    for kc in all {
        trackball_tick_task(&mut p, key(kc));
    }
    assert_eq!(p.motion.mouse_buttons, 0b11111);
    trackball_tick_task(&mut p, key(KeyCode::MouseBtn3));
    assert_eq!(p.motion.mouse_buttons, 0b11011);
    trackball_tick_task(&mut p, key(KeyCode::MouseBtn3));
    assert_eq!(p.motion.mouse_buttons, 0b11111);
}

#[test]
fn royale_drag_keeps_the_button() {
    let mut p = TrackballProcessor::new();
    trackball_tick_task(&mut p, key(KeyCode::MouseBtn1));
    let (result, report) = p.process_at(ball(-3, 4), 50);
    assert_eq!(result, ProcessResult::Stop);
    assert_eq!(report, Some(MouseReport { buttons: 1, x: -3, y: 4, wheel: 0, pan: 0 }));
}

#[test]
fn royale_setting_keys_move_the_divisors() {
    let mut p = TrackballProcessor::new();
    trackball_tick_task(&mut p, key(KeyCode::User8));
    trackball_tick_task(&mut p, key(KeyCode::User8));
    trackball_tick_task(&mut p, key(KeyCode::User11));
    assert_eq!((p.motion.scroll_divisor, p.motion.sniper_divisor), (7, 3));
    trackball_tick_task(&mut p, key(KeyCode::User9));
    trackball_tick_task(&mut p, key(KeyCode::User10));
    assert_eq!((p.motion.scroll_divisor, p.motion.sniper_divisor), (6, 4));
    handle_user_keycode(&mut p, 9);
    handle_user_keycode(&mut p, 0);
    assert_eq!((p.motion.scroll_divisor, p.motion.sniper_divisor), (5, 4));
}

#[test]
fn royale_layer_change_drops_leftover_scroll() {
    let mut p = TrackballProcessor::new();
    trackball_tick_task(&mut p, layer(1));
    assert_eq!(p.process_at(ball(4, 3), 0).1, None);
    trackball_tick_task(&mut p, TickEvent::Timeout);
    assert_eq!(p.motion.scroll_accum_x.load(), 4);
    trackball_tick_task(&mut p, layer(0));
    assert_eq!(p.motion.scroll_accum_x.load(), 0);
    assert_eq!(p.motion.scroll_accum_y.load(), 0);
    p.motion.scroll_accum_x.store(3);
    trackball_tick_task(&mut p, TickEvent::Timeout);
    assert_eq!(p.motion.scroll_accum_x.load(), 0);
}

#[test]
fn royale_ignores_other_messages() {
    let mut p = TrackballProcessor::new();
    trackball_tick_task(&mut p, key(KeyCode::User12));
    trackball_tick_task(&mut p, TickEvent::Message(ControllerEvent::Battery(80)));
    trackball_tick_task(&mut p, TickEvent::Message(ControllerEvent::Key(KeyAction::Other)));
    assert_eq!(p.active_layer, 0);
    assert_eq!(p.motion.mouse_buttons, 0);
    assert_eq!((p.motion.scroll_divisor, p.motion.sniper_divisor), (5, 4));
}

#[test]
fn royale_reads_the_clock() {
    let mut p = TrackballProcessor::new();
    p.motion.last_normal_report_ms = ergohaven::clock::now_ms().wrapping_sub(60_000);
    let (result, report) = p.process(ball(7, 0));
    assert_eq!(result, ProcessResult::Stop);
    assert_eq!(report, Some(MouseReport { buttons: 0, x: 7, y: 0, wheel: 0, pan: 0 }));
    assert!(ergohaven::clock::now_ms().wrapping_sub(p.motion.last_normal_report_ms) < 10_000);
    assert_eq!(p.process(Event::Other), (ProcessResult::Continue, None));
}

#[test]
fn royale_report_carries_the_motion_from_before_a_layer_change() {
    let mut p = TrackballProcessor::new();
    let point = |x, y| Some(MouseReport { buttons: 0, x, y, wheel: 0, pan: 0 });
    assert_eq!(p.process_at(ball(4, 0), 1_000).1, point(4, 0));
    assert_eq!(p.process_at(ball(6, -1), 1_015).1, None);
    trackball_tick_task(&mut p, layer(1));
    assert_eq!(
        p.process_at(ball(0, 35), 1_020).1,
        Some(MouseReport { buttons: 0, x: 0, y: 0, wheel: -7, pan: 0 })
    );
    trackball_tick_task(&mut p, layer(0));
    assert_eq!(p.process_at(ball(1, 0), 1_030).1, point(7, -1));
}
