use ergohaven::click::{send_mb2_click, send_mb3_click, send_virtual_key};
use ergohaven::click::{Gesture, KeyboardEvent, Step};
use ergohaven::event::MouseReport;

fn buttons(buttons: u8) -> Step {
    Step::Report(MouseReport { buttons, x: 0, y: 0, wheel: 0, pan: 0 })
}

#[test]
fn right_click_is_pressed_and_released() {
    assert_eq!(send_mb2_click(), [buttons(2), Step::Delay(10), buttons(0)]);
}

#[test]
fn middle_click_is_pressed_and_released() {
    assert_eq!(send_mb3_click(), [buttons(4), Step::Delay(10), buttons(0)]);
}

#[test]
fn virtual_key_is_pressed_and_released() {
    let key = |pressed| Step::Key(KeyboardEvent { row: 7, col: 9, pressed });
    assert_eq!(send_virtual_key(7, 9), [key(true), Step::Delay(50), key(false)]);
}

#[test]
fn gestures_have_their_steps() {
    assert_eq!(Gesture::Nothing.steps(), None);
    assert_eq!(Gesture::Mb2Click.steps(), Some(send_mb2_click()));
    assert_eq!(Gesture::Mb3Click.steps(), Some(send_mb3_click()));
    assert_eq!(
        Gesture::VirtualKey { row: 0, col: 3 }.steps(),
        Some(send_virtual_key(0, 3))
    );
}
