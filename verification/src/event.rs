//! What the firmware hands to the logic, and what it gets back.

use vstd::prelude::*;

verus! {

/// An axis of a pointing device.
#[derive(Clone, Copy, Debug, PartialEq, Eq, Structural)]
pub enum Axis {
    X,
    Y,
    Other,
}

/// A displacement along one axis.
#[derive(Clone, Copy, Debug, PartialEq, Eq, Structural)]
pub struct AxisEvent {
    pub axis: Axis,
    pub value: i16,
}

/// An input event. Only motion matters here; everything else is passed on.
#[derive(Clone, Copy, Debug)]
pub enum Event {
    Joystick([AxisEvent; 3]),
    Other,
}

/// Whether the next input processor gets to see the event.
#[derive(Clone, Copy, Debug, PartialEq, Eq, Structural)]
pub enum ProcessResult {
    Continue,
    Stop,
}

/// A HID mouse report.
#[derive(Clone, Copy, Debug, PartialEq, Eq, Structural)]
pub struct MouseReport {
    pub buttons: u8,
    pub x: i8,
    pub y: i8,
    pub wheel: i8,
    pub pan: i8,
}

/// The keycodes that the trackballs react to.
#[derive(Clone, Copy, Debug, PartialEq, Eq, Structural)]
pub enum KeyCode {
    MouseBtn1,
    MouseBtn2,
    MouseBtn3,
    MouseBtn4,
    MouseBtn5,
    User0,
    User3,
    User5,
    User6,
    User8,
    User9,
    User10,
    User11,
    User12,
    Other,
}

/// A single action of the keymap.
#[derive(Clone, Copy, Debug, PartialEq, Eq, Structural)]
pub enum Action {
    Key(KeyCode),
    Other,
}

/// What the keymap binds to a key.
#[derive(Clone, Copy, Debug, PartialEq, Eq, Structural)]
pub enum KeyAction {
    Single(Action),
    Other,
}

/// A message on the controller channel.
#[derive(Clone, Copy, Debug, PartialEq, Eq, Structural)]
pub enum ControllerEvent {
    Key(KeyAction),
    Battery(u8),
    ChargingState(bool),
    Layer(u8),
    ConnectionType(u8),
    BleProfile(u8),
    SplitPeripheral(usize, bool),
    Sleep(bool),
    Other,
}

/// What ended a wait of the background task: nothing happened for
/// [`TICK_INTERVAL_MS`], or a message came in.
#[derive(Clone, Copy, Debug, PartialEq, Eq, Structural)]
pub enum TickEvent {
    Timeout,
    Message(ControllerEvent),
}

/// Anything that can happen to a trackball, and when.
#[derive(Clone, Copy, Debug)]
pub enum Input {
    /// The ball moves.
    Motion(Event, u32),
    /// A wait of the background task ends.
    Tick(TickEvent, u32),
    /// The background task has performed the gesture it was asked for.
    Resume,
}

/// How long the background task waits for a message.
pub const TICK_INTERVAL_MS: u64 = 500;

/// The keycode that a message is about, if the message is a key bound to a single
/// keycode.
pub open spec fn message_keycode(event: TickEvent) -> Option<KeyCode> {
    match event {
        TickEvent::Message(ControllerEvent::Key(KeyAction::Single(Action::Key(kc)))) => Some(kc),
        _ => None,
    }
}

/// The keycode that a message is about, if the message is a key bound to a single
/// keycode.
pub fn keycode_of(event: TickEvent) -> (kc: Option<KeyCode>)
    ensures
        kc == message_keycode(event),
{
    match event {
        TickEvent::Message(ControllerEvent::Key(KeyAction::Single(Action::Key(kc)))) => Some(kc),
        _ => None,
    }
}

/// The value of the last entry for `axis`, or 0 where there is none.
pub open spec fn last_value(axes: Seq<AxisEvent>, axis: Axis) -> i16
    decreases axes.len(),
{
    if axes.len() == 0 {
        0
    } else if axes.last().axis == axis {
        axes.last().value
    } else {
        last_value(axes.drop_last(), axis)
    }
}

/// The displacement along X and along Y. Where an axis occurs twice the last entry
/// counts.
pub fn displacement(axes: &[AxisEvent; 3]) -> (d: (i16, i16))
    ensures
        d.0 == last_value(axes@, Axis::X),
        d.1 == last_value(axes@, Axis::Y),
{
    let mut dx: i16 = 0;
    let mut dy: i16 = 0;
    let mut i: usize = 0;
    while i < 3
        invariant
            i <= 3,
            axes@.len() == 3,
            dx == last_value(axes@.take(i as int), Axis::X),
            dy == last_value(axes@.take(i as int), Axis::Y),
        decreases 3 - i,
    {
        match axes[i].axis {
            Axis::X => {
                dx = axes[i].value;
            },
            Axis::Y => {
                dy = axes[i].value;
            },
            Axis::Other => {},
        }
        assert(axes@.take(i + 1).drop_last() =~= axes@.take(i as int));
        i += 1;
    }
    assert(axes@.take(3) =~= axes@);
    (dx, dy)
}

/// The last entry of an axis counts, wherever it stands; without one the ball has not moved
/// along that axis.
pub proof fn law_last_entry_counts(axes: Seq<AxisEvent>, axis: Axis, i: int)
    ensures
        0 <= i < axes.len() && axes[i].axis == axis && (forall|j: int|
            i < j < axes.len() ==> (#[trigger] axes[j]).axis != axis) ==> last_value(axes, axis)
            == axes[i].value,
        (forall|j: int| 0 <= j < axes.len() ==> (#[trigger] axes[j]).axis != axis) ==> last_value(
            axes,
            axis,
        ) == 0,
    decreases axes.len(),
{
    if axes.len() > 0 {
        let front = axes.drop_last();
        law_last_entry_counts(front, axis, i);
        if axes.last().axis != axis {
            assert(axes[axes.len() - 1] == axes.last());
            if 0 <= i < axes.len() && axes[i].axis == axis && (forall|j: int|
                i < j < axes.len() ==> (#[trigger] axes[j]).axis != axis) {
                assert(front[i] == axes[i]);
                assert forall|j: int| i < j < front.len() implies (#[trigger] front[j]).axis
                    != axis by {
                    assert(front[j] == axes[j]);
                }
            }
            if forall|j: int| 0 <= j < axes.len() ==> (#[trigger] axes[j]).axis != axis {
                assert forall|j: int| 0 <= j < front.len() implies (#[trigger] front[j]).axis
                    != axis by {
                    assert(front[j] == axes[j]);
                }
            }
        } else {
            assert(axes[axes.len() - 1] == axes.last());
        }
    }
}

/// A message is about a keycode exactly if it is a key that is bound to that keycode alone.
pub proof fn law_message_keycode(event: TickEvent, kc: KeyCode)
    ensures
        message_keycode(event) == Some(kc) <==> event == TickEvent::Message(
            ControllerEvent::Key(KeyAction::Single(Action::Key(kc))),
        ),
{
}

} // verus!
