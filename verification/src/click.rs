//! Clicks and key taps that the firmware makes up itself.

use crate::event::MouseReport;
use vstd::prelude::*;

verus! {

/// How long a made-up click stays pressed.
pub const CLICK_HOLD_MS: u64 = 10;

/// How long a made-up key stays pressed.
pub const KEY_HOLD_MS: u64 = 50;

/// A key event at a position of the key matrix.
#[derive(Clone, Copy, Debug, PartialEq, Eq, Structural)]
pub struct KeyboardEvent {
    pub row: u8,
    pub col: u8,
    pub pressed: bool,
}

/// One thing for the firmware to do.
#[derive(Clone, Copy, Debug, PartialEq, Eq, Structural)]
pub enum Step {
    /// Send the report to the host.
    Report(MouseReport),
    /// Feed the key event into the keymap.
    Key(KeyboardEvent),
    /// Wait for this many milliseconds.
    Delay(u64),
}

/// What the background task wants done before it waits again.
#[derive(Clone, Copy, Debug, PartialEq, Eq, Structural)]
pub enum Gesture {
    Nothing,
    /// A click of the right mouse button.
    Mb2Click,
    /// A click of the middle mouse button.
    Mb3Click,
    /// A tap on a key of the matrix that has no switch.
    VirtualKey { row: u8, col: u8 },
}

/// A report that only says which buttons are down.
pub open spec fn buttons_report(buttons: u8) -> MouseReport {
    MouseReport { buttons, x: 0, y: 0, wheel: 0, pan: 0 }
}

/// Press, hold, release everything.
pub open spec fn click_steps(buttons: u8) -> Seq<Step> {
    seq![
        Step::Report(buttons_report(buttons)),
        Step::Delay(CLICK_HOLD_MS),
        Step::Report(buttons_report(0)),
    ]
}

/// Press, hold, release one key.
pub open spec fn key_steps(row: u8, col: u8) -> Seq<Step> {
    seq![
        Step::Key(KeyboardEvent { row, col, pressed: true }),
        Step::Delay(KEY_HOLD_MS),
        Step::Key(KeyboardEvent { row, col, pressed: false }),
    ]
}

/// The steps of a gesture.
pub open spec fn gesture_steps(gesture: Gesture) -> Seq<Step> {
    match gesture {
        Gesture::Nothing => seq![],
        Gesture::Mb2Click => click_steps(0b010),
        Gesture::Mb3Click => click_steps(0b100),
        Gesture::VirtualKey { row, col } => key_steps(row, col),
    }
}

/// A click of the right mouse button.
pub fn send_mb2_click() -> (steps: [Step; 3])
    ensures
        steps@ == click_steps(0b010),
{
    let press = MouseReport { buttons: 0b010, x: 0, y: 0, wheel: 0, pan: 0 };
    let release = MouseReport { buttons: 0, x: 0, y: 0, wheel: 0, pan: 0 };
    [Step::Report(press), Step::Delay(CLICK_HOLD_MS), Step::Report(release)]
}

/// A click of the middle mouse button.
pub fn send_mb3_click() -> (steps: [Step; 3])
    ensures
        steps@ == click_steps(0b100),
{
    let press = MouseReport { buttons: 0b100, x: 0, y: 0, wheel: 0, pan: 0 };
    let release = MouseReport { buttons: 0, x: 0, y: 0, wheel: 0, pan: 0 };
    [Step::Report(press), Step::Delay(CLICK_HOLD_MS), Step::Report(release)]
}

/// A tap on the key at `row` and `col`.
pub fn send_virtual_key(row: u8, col: u8) -> (steps: [Step; 3])
    ensures
        steps@ == key_steps(row, col),
{
    [
        Step::Key(KeyboardEvent { row, col, pressed: true }),
        Step::Delay(KEY_HOLD_MS),
        Step::Key(KeyboardEvent { row, col, pressed: false }),
    ]
}

impl Gesture {
    /// The steps of the gesture, in order; `None` where there is nothing to do.
    pub fn steps(self) -> (steps: Option<[Step; 3]>)
        ensures
            match steps {
                Some(s) => s@ == gesture_steps(self) && self != Gesture::Nothing,
                None => self == Gesture::Nothing,
            },
    {
        match self {
            Gesture::Nothing => None,
            Gesture::Mb2Click => Some(send_mb2_click()),
            Gesture::Mb3Click => Some(send_mb3_click()),
            Gesture::VirtualKey { row, col } => Some(send_virtual_key(row, col)),
        }
    }
}

/// Whatever a gesture presses it also lets go of: a click ends with a report of no
/// buttons, a key tap with the release of the key it pressed.
pub proof fn law_gestures_release(gesture: Gesture)
    requires
        gesture != Gesture::Nothing,
    ensures
        gesture_steps(gesture).len() == 3,
        match gesture_steps(gesture).first() {
            Step::Report(press) => gesture_steps(gesture).last() == Step::Report(
                buttons_report(0),
            ) && press.buttons != 0,
            Step::Key(press) => press.pressed && gesture_steps(gesture).last() == Step::Key(
                KeyboardEvent { pressed: false, ..press },
            ),
            Step::Delay(_) => false,
        },
        gesture_steps(gesture)[1] is Delay,
{
}

/// A click moves neither cursor nor wheel and holds exactly its own button, the second or
/// the third one; a key tap acts on the position it was asked for. Both last as long as they
/// should.
pub proof fn law_gestures_press_the_right_thing(gesture: Gesture)
    ensures
        gesture == Gesture::Nothing <==> gesture_steps(gesture).len() == 0,
        gesture == Gesture::Mb2Click || gesture == Gesture::Mb3Click ==> {
            let steps = gesture_steps(gesture);
            &&& steps.len() == 3
            &&& steps[0] matches Step::Report(press)
            &&& press.x == 0 && press.y == 0 && press.wheel == 0 && press.pan == 0
            &&& press.buttons == if gesture == Gesture::Mb2Click {
                2u8
            } else {
                4u8
            }
            &&& steps[1] == Step::Delay(10)
            &&& steps[2] matches Step::Report(release)
            &&& release.x == 0 && release.y == 0 && release.wheel == 0 && release.pan == 0
            &&& release.buttons == 0
        },
        gesture matches Gesture::VirtualKey { row, col } ==> {
            let steps = gesture_steps(gesture);
            &&& steps.len() == 3
            &&& steps[0] matches Step::Key(press)
            &&& press.row == row && press.col == col && press.pressed
            &&& steps[1] == Step::Delay(50)
            &&& steps[2] matches Step::Key(release)
            &&& release.row == row && release.col == col && !release.pressed
        },
{
}

} // verus!
