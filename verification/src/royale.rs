//! Trackball Royale: the active keymap layer picks the mode.
//!
//! - Layer 1 (Scroll): the ball turns the wheel.
//! - Layer 2 (Sniper): the cursor moves slowly.
//! - All other layers: normal pointing.
//!
//! The mouse buttons are followed so that a drag keeps its button, and the keys
//! User8 to User11 move the divisors.

use crate::arith::{clamp_i8, elapsed_ms, wrap_i32};
use crate::clock::now_ms;
use crate::event::{keycode_of, message_keycode};
use crate::event::{Action, AxisEvent, ControllerEvent, Event, Input, KeyAction, KeyCode};
use crate::event::{MouseReport, ProcessResult, TickEvent};
use crate::history;
use crate::history::{way, Change};
use crate::motion::process_result;
use crate::motion::{Mode, Motion, MotionView, NORMAL_REPORT_INTERVAL_MS};
use vstd::prelude::*;

verus! {

pub const LAYER_SCROLL: u8 = 1;

pub const LAYER_SNIPER: u8 = 2;

/// The state of the trackball.
pub struct TrackballProcessor {
    pub active_layer: u8,
    pub motion: Motion,
}

/// A [`TrackballProcessor`] in numbers.
pub struct ProcessorView {
    pub active_layer: u8,
    pub motion: MotionView,
}

impl View for TrackballProcessor {
    type V = ProcessorView;

    open spec fn view(&self) -> ProcessorView {
        ProcessorView { active_layer: self.active_layer, motion: self.motion@ }
    }
}

/// The bit of a mouse button in a report; 0 for any other key.
pub open spec fn button_bit(kc: KeyCode) -> u8 {
    match kc {
        KeyCode::MouseBtn1 => 0b00001,
        KeyCode::MouseBtn2 => 0b00010,
        KeyCode::MouseBtn3 => 0b00100,
        KeyCode::MouseBtn4 => 0b01000,
        KeyCode::MouseBtn5 => 0b10000,
        _ => 0,
    }
}

/// The number of a setting key; 0 for any other key.
pub open spec fn setting_number(kc: KeyCode) -> u8 {
    match kc {
        KeyCode::User8 => 8,
        KeyCode::User9 => 9,
        KeyCode::User10 => 10,
        KeyCode::User11 => 11,
        _ => 0,
    }
}

impl ProcessorView {
    /// The divisors are within their limits, and only the five mouse buttons are ever
    /// down.
    pub open spec fn wf(self) -> bool {
        &&& self.motion.wf()
        &&& self.motion.mouse_buttons < 0b100000
    }

    /// The state at power-on.
    pub open spec fn initial() -> ProcessorView {
        ProcessorView { active_layer: 0, motion: MotionView::initial() }
    }

    /// The mode that the active layer stands for.
    pub open spec fn mode(self) -> Mode {
        if self.active_layer == LAYER_SCROLL {
            Mode::Scroll
        } else if self.active_layer == LAYER_SNIPER {
            Mode::Sniper
        } else {
            Mode::Normal
        }
    }

    /// The state after an input event.
    pub open spec fn processed(self, event: Event, now: u32) -> ProcessorView {
        ProcessorView { motion: self.motion.processed(self.mode(), event, now), ..self }
    }

    /// The report for an input event.
    pub open spec fn process_report(self, event: Event, now: u32) -> Option<MouseReport> {
        self.motion.process_report(self.mode(), event, now)
    }

    /// The state after a key message. The keyboard sends one for the press and one for
    /// the release, so each flips the button.
    pub open spec fn keyed(self, kc: KeyCode) -> ProcessorView {
        if button_bit(kc) != 0 {
            ProcessorView {
                motion: self.motion.with_buttons(self.motion.mouse_buttons ^ button_bit(kc)),
                ..self
            }
        } else {
            ProcessorView { motion: self.motion.adjusted(setting_number(kc)), ..self }
        }
    }

    /// The state after one wait of the background task.
    pub open spec fn ticked(self, event: TickEvent) -> ProcessorView {
        match event {
            TickEvent::Timeout => if self.mode() == Mode::Scroll {
                self
            } else {
                ProcessorView { motion: self.motion.scroll_cleared(), ..self }
            },
            TickEvent::Message(ControllerEvent::Layer(layer)) => ProcessorView {
                active_layer: layer,
                motion: self.motion.scroll_cleared(),
            },
            TickEvent::Message(_) => match message_keycode(event) {
                Some(kc) => self.keyed(kc),
                None => self,
            },
        }
    }

    /// The state after anything that can happen.
    pub open spec fn happened(self, input: Input) -> ProcessorView {
        match input {
            Input::Motion(event, now) => self.processed(event, now),
            Input::Tick(event, _) => self.ticked(event),
            Input::Resume => self,
        }
    }

    /// The state after a series of things that can happen.
    pub open spec fn happened_all(self, inputs: Seq<Input>) -> ProcessorView
        decreases inputs.len(),
    {
        if inputs.len() == 0 {
            self
        } else {
            self.happened_all(inputs.drop_last()).happened(inputs.last())
        }
    }
}

/// Moves a divisor by the setting key with number `keycode_idx`: User8 and User9 for
/// scrolling, User10 and User11 for sniping. Other numbers change nothing.
pub fn handle_user_keycode(processor: &mut TrackballProcessor, keycode_idx: u8)
    requires
        old(processor)@.wf(),
    ensures
        final(processor)@ == (ProcessorView {
            motion: old(processor)@.motion.adjusted(keycode_idx),
            ..old(processor)@
        }),
        final(processor)@.wf(),
{
    processor.motion.adjust(keycode_idx);
}

impl TrackballProcessor {
    /// The trackball at power-on.
    pub fn new() -> (processor: Self)
        ensures
            processor@ == ProcessorView::initial(),
            processor@.wf(),
    {
        TrackballProcessor { active_layer: 0, motion: Motion::new() }
    }

    /// The mode that the active layer stands for.
    fn mode(&self) -> (mode: Mode)
        ensures
            mode == self@.mode(),
    {
        match self.active_layer {
            LAYER_SCROLL => Mode::Scroll,
            LAYER_SNIPER => Mode::Sniper,
            _ => Mode::Normal,
        }
    }

    /// Handles an input event that came in at time `now`.
    pub fn process_at(&mut self, event: Event, now: u32) -> (out: (
        ProcessResult,
        Option<MouseReport>,
    ))
        requires
            old(self)@.wf(),
        ensures
            final(self)@ == old(self)@.processed(event, now),
            out.0 == process_result(event),
            out.1 == old(self)@.process_report(event, now),
            final(self)@.wf(),
    {
        let mode = self.mode();
        self.motion.process(mode, event, now)
    }

    /// Handles an input event that came in just now.
    pub fn process(&mut self, event: Event) -> (out: (ProcessResult, Option<MouseReport>))
        requires
            old(self)@.wf(),
        ensures
            exists|now: u32|
                {
                    &&& final(self)@ == #[trigger] old(self)@.processed(event, now)
                    &&& out.1 == old(self)@.process_report(event, now)
                },
            out.0 == process_result(event),
            final(self)@.wf(),
    {
        let now: u32 = now_ms();
        self.process_at(event, now)
    }
}

/// One round of the background task: takes what ended the wait into account.
pub fn trackball_tick_task(processor: &mut TrackballProcessor, event: TickEvent)
    requires
        old(processor)@.wf(),
    ensures
        final(processor)@ == old(processor)@.ticked(event),
        final(processor)@.wf(),
{
    match event {
        TickEvent::Timeout => {
            if processor.active_layer != LAYER_SCROLL {
                processor.motion.clear_scroll();
            }
        },
        TickEvent::Message(ControllerEvent::Layer(layer)) => {
            processor.active_layer = layer;
            processor.motion.clear_scroll();
        },
        TickEvent::Message(_) => {
            if let Some(kc) = keycode_of(event) {
                let btn_bit: Option<u8> = match kc {
                    KeyCode::MouseBtn1 => Some(0b00001),
                    KeyCode::MouseBtn2 => Some(0b00010),
                    KeyCode::MouseBtn3 => Some(0b00100),
                    KeyCode::MouseBtn4 => Some(0b01000),
                    KeyCode::MouseBtn5 => Some(0b10000),
                    _ => None,
                };
                if let Some(bit) = btn_bit {
                    let cur: u8 = processor.motion.mouse_buttons;
                    assert(cur ^ bit < 0b100000) by (bit_vector)
                        requires
                            cur < 0b100000,
                            bit < 0b100000,
                    ;
                    processor.motion.mouse_buttons = cur ^ bit;
                }
                let id: Option<u8> = match kc {
                    KeyCode::User8 => Some(8),
                    KeyCode::User9 => Some(9),
                    KeyCode::User10 => Some(10),
                    KeyCode::User11 => Some(11),
                    _ => None,
                };
                if let Some(id) = id {
                    handle_user_keycode(processor, id);
                }
            }
        },
    }
}

/// Whatever happens after power-on, the divisors stay within their limits and only the
/// five mouse buttons are ever down.
pub proof fn law_always_well_formed(inputs: Seq<Input>)
    ensures
        ProcessorView::initial().happened_all(inputs).wf(),
{
    law_history(ProcessorView::initial(), inputs);
}

proof fn lemma_ticked_wf(p: ProcessorView, event: TickEvent)
    requires
        p.wf(),
    ensures
        p.ticked(event).wf(),
{
    match message_keycode(event) {
        Some(kc) => {
            let cur = p.motion.mouse_buttons;
            let bit = button_bit(kc);
            assert(cur ^ bit < 0b100000) by (bit_vector)
                requires
                    cur < 0b100000,
                    bit < 0b100000,
            ;
        },
        None => {},
    }
}

/// The message for a button's press and the one for its release cancel out, and
/// between them exactly that button has changed.
pub proof fn law_press_then_release(p: ProcessorView, kc: KeyCode)
    requires
        button_bit(kc) != 0,
    ensures
        p.keyed(kc).keyed(kc) == p,
        p.keyed(kc).motion.mouse_buttons & button_bit(kc) != p.motion.mouse_buttons & button_bit(
            kc,
        ),
        p.keyed(kc).motion.mouse_buttons & !button_bit(kc) == p.motion.mouse_buttons & !button_bit(
            kc,
        ),
{
    let cur = p.motion.mouse_buttons;
    let bit = button_bit(kc);
    assert((cur ^ bit) ^ bit == cur) by (bit_vector);
    assert((cur ^ bit) & bit != cur & bit) by (bit_vector)
        requires
            bit != 0,
    ;
    assert((cur ^ bit) & !bit == cur & !bit) by (bit_vector);
}

/// Leaving the scroll layer leaves no scroll motion behind: a change of layer drops
/// it, and so does each quiet interval outside the scroll layer.
pub proof fn law_no_leftover_scroll(p: ProcessorView, layer: u8)
    ensures
        p.ticked(TickEvent::Message(ControllerEvent::Layer(layer))).motion.scroll_x == 0,
        p.ticked(TickEvent::Message(ControllerEvent::Layer(layer))).motion.scroll_y == 0,
        p.active_layer != LAYER_SCROLL ==> p.ticked(TickEvent::Timeout).motion.scroll_x == 0
            && p.ticked(TickEvent::Timeout).motion.scroll_y == 0,
{
}

impl ProcessorView {
    /// What happens, as a step in the history of the motion state.
    pub open spec fn change(self, input: Input) -> Change {
        match input {
            Input::Motion(event, now) => Change::Handled(self.mode(), event, now),
            _ => Change::between(self.motion, self.happened(input).motion),
        }
    }

    /// A series of things that happen, as a history of the motion state.
    pub open spec fn changes(self, inputs: Seq<Input>) -> Seq<Change>
        decreases inputs.len(),
    {
        if inputs.len() == 0 {
            Seq::empty()
        } else {
            let front = inputs.drop_last();
            self.changes(front).push(self.happened_all(front).change(inputs.last()))
        }
    }
}

proof fn lemma_happened(p: ProcessorView, input: Input)
    requires
        p.wf(),
    ensures
        p.happened(input).wf(),
        p.happened(input).motion == p.motion.changed(p.change(input)),
        p.change(input).valid(),
{
    match input {
        Input::Tick(event, _) => lemma_ticked_wf(p, event),
        _ => {},
    }
}

/// What happens to the trackball is a history of its motion state, one step for each input.
pub proof fn law_history(p: ProcessorView, inputs: Seq<Input>)
    requires
        p.wf(),
    ensures
        p.happened_all(inputs).wf(),
        p.happened_all(inputs).motion == p.motion.changed_all(p.changes(inputs)),
        p.changes(inputs).len() == inputs.len(),
        forall|i: int|
            0 <= i < inputs.len() ==> (#[trigger] p.changes(inputs)[i]).valid(),
    decreases inputs.len(),
{
    if inputs.len() > 0 {
        let front = inputs.drop_last();
        law_history(p, front);
        let before = p.happened_all(front);
        lemma_happened(before, inputs.last());
        assert(p.changes(inputs).drop_last() == p.changes(front));
    }
}

/// Scrolling loses nothing: as long as a report can carry the motion there is and nothing
/// makes the trackball forget it, the notches sent and the rest that is kept add up to the
/// way that the ball has gone in scroll mode.
pub proof fn law_scroll_keeps_all_motion(p: ProcessorView, inputs: Seq<Input>)
    requires
        p.wf(),
        p.motion.carries_all(p.changes(inputs)),
    ensures
        ({
            let changes = p.changes(inputs);
            let sent = p.motion.way_scrolled(changes);
            let gone = way(changes, Mode::Scroll);
            let end = p.happened_all(inputs).motion;
            &&& sent.0 + end.scroll_x == p.motion.scroll_x + gone.0
            &&& sent.1 + end.scroll_y == p.motion.scroll_y + gone.1
        }),
{
    law_history(p, inputs);
    history::law_scroll_keeps_all_motion(p.motion, p.changes(inputs));
}

/// Normal mode sends its reports at least the interval apart, and each of them carries all
/// the motion of normal mode since the last one, as far as it fits. Keys, gestures and
/// other modes in between do not matter. The sum is kept in 32 bits.
pub proof fn law_normal_reports(
    p: ProcessorView,
    first: (Event, u32),
    between: Seq<Input>,
    second: (Event, u32),
)
    requires
        p.wf(),
        ({
            let after = p.happened(Input::Motion(first.0, first.1));
            let state = after.happened_all(between);
            &&& p.mode() == Mode::Normal
            &&& p.process_report(first.0, first.1) is Some
            &&& after.motion.all_quiet(after.changes(between))
            &&& state.mode() == Mode::Normal
            &&& state.process_report(second.0, second.1) is Some
        }),
    ensures
        ({
            let after = p.happened(Input::Motion(first.0, first.1));
            let state = after.happened_all(between);
            let changes = after.changes(between).push(
                state.change(Input::Motion(second.0, second.1)),
            );
            let report = state.process_report(second.0, second.1)->0;
            let (x, y) = way(changes, Mode::Normal);
            &&& elapsed_ms(second.1, first.1) >= NORMAL_REPORT_INTERVAL_MS
            &&& report.x == clamp_i8(wrap_i32(x))
            &&& report.y == clamp_i8(wrap_i32(y))
            &&& i32::MIN <= x <= i32::MAX ==> report.x == clamp_i8(x)
            &&& i32::MIN <= y <= i32::MAX ==> report.y == clamp_i8(y)
        }),
{
    let after = p.happened(Input::Motion(first.0, first.1));
    lemma_happened(p, Input::Motion(first.0, first.1));
    law_history(after, between);
    history::law_normal_reports(p.motion, first, after.changes(between), second);
}

/// After a report of normal mode the next one is owed as soon as the interval is over and the
/// motion of normal mode since then leads anywhere: the first motion that comes then sends
/// it, and no motion before. Keys, gestures and other modes in between do not matter.
pub proof fn law_normal_report_is_owed(
    p: ProcessorView,
    first: (Event, u32),
    between: Seq<Input>,
    axes: [AxisEvent; 3],
    now: u32,
)
    requires
        p.wf(),
        ({
            let after = p.happened(Input::Motion(first.0, first.1));
            &&& p.mode() == Mode::Normal
            &&& p.process_report(first.0, first.1) is Some
            &&& after.motion.all_quiet(after.changes(between))
            &&& after.happened_all(between).mode() == Mode::Normal
        }),
    ensures
        ({
            let after = p.happened(Input::Motion(first.0, first.1));
            let state = after.happened_all(between);
            let changes = after.changes(between).push(
                state.change(Input::Motion(Event::Joystick(axes), now)),
            );
            let (x, y) = way(changes, Mode::Normal);
            state.process_report(Event::Joystick(axes), now) is Some <==> elapsed_ms(now, first.1)
                >= NORMAL_REPORT_INTERVAL_MS && (x % 0x1_0000_0000 != 0 || y % 0x1_0000_0000 != 0)
        }),
{
    let after = p.happened(Input::Motion(first.0, first.1));
    lemma_happened(p, Input::Motion(first.0, first.1));
    law_history(after, between);
    history::law_normal_report_is_owed(p.motion, first, after.changes(between), axes, now);
}

/// The layer alone picks the mode: 1 scrolls, 2 snipes, every other one points. What the ball
/// does is handled in that mode, and neither layer, buttons nor settings change by it.
pub proof fn law_layer_picks_the_mode(p: ProcessorView, event: Event, now: u32)
    ensures
        p.mode() == Mode::Scroll <==> p.active_layer == 1,
        p.mode() == Mode::Sniper <==> p.active_layer == 2,
        p.process_report(event, now) == p.motion.process_report(p.mode(), event, now),
        ({
            let q = p.happened(Input::Motion(event, now));
            &&& q.active_layer == p.active_layer
            &&& q.motion == p.motion.processed(p.mode(), event, now)
            &&& q.motion.mouse_buttons == p.motion.mouse_buttons
            &&& q.motion.scroll_divisor == p.motion.scroll_divisor
            &&& q.motion.sniper_divisor == p.motion.sniper_divisor
        }),
{
}

/// A layer message makes that layer the active one, whatever came before, and drops the
/// scroll motion that is left over. Buttons, settings and the motion for the next report of
/// normal mode stay.
pub proof fn law_layer_message(p: ProcessorView, layer: u8)
    ensures
        ({
            let q = p.ticked(TickEvent::Message(ControllerEvent::Layer(layer)));
            &&& q.active_layer == layer
            &&& q.motion.scroll_x == 0 && q.motion.scroll_y == 0
            &&& q.motion.normal_x == p.motion.normal_x && q.motion.normal_y == p.motion.normal_y
            &&& q.motion.last_report_ms == p.motion.last_report_ms
            &&& q.motion.mouse_buttons == p.motion.mouse_buttons
            &&& q.motion.scroll_divisor == p.motion.scroll_divisor
            &&& q.motion.sniper_divisor == p.motion.sniper_divisor
        }),
{
}

/// The message for mouse button 1 to 5 changes the report by that button's weight, 1, 2, 4, 8
/// or 16: up if it was not in, down if it was. No other key touches the buttons.
pub proof fn law_button_weights(p: ProcessorView, kc: KeyCode)
    ensures
        ({
            let before = p.motion.mouse_buttons;
            let after = p.keyed(kc).motion.mouse_buttons;
            let weight: u8 = match kc {
                KeyCode::MouseBtn1 => 1,
                KeyCode::MouseBtn2 => 2,
                KeyCode::MouseBtn3 => 4,
                KeyCode::MouseBtn4 => 8,
                KeyCode::MouseBtn5 => 16,
                _ => 0,
            };
            &&& weight == 0 ==> after == before
            &&& weight != 0 && (before / weight) % 2 == 0 ==> after == before + weight
            &&& weight != 0 && (before / weight) % 2 == 1 ==> after == before - weight
        }),
{
    let b = p.motion.mouse_buttons;
    assert(if (b / 1u8) % 2 == 0 { b ^ 1u8 == b + 1 } else { b ^ 1u8 == b - 1 }) by (bit_vector);
    assert(if (b / 2u8) % 2 == 0 { b ^ 2u8 == b + 2 } else { b ^ 2u8 == b - 2 }) by (bit_vector);
    assert(if (b / 4u8) % 2 == 0 { b ^ 4u8 == b + 4 } else { b ^ 4u8 == b - 4 }) by (bit_vector);
    assert(if (b / 8u8) % 2 == 0 { b ^ 8u8 == b + 8 } else { b ^ 8u8 == b - 8 }) by (bit_vector);
    assert(if (b / 16u8) % 2 == 0 { b ^ 16u8 == b + 16 } else { b ^ 16u8 == b - 16 })
        by (bit_vector);
}

/// User8 and User10 raise the scroll and the sniper divisor by one, User9 and User11 lower
/// them by one, within the limits. No other key touches a divisor, and no key touches the
/// layer or the motion.
pub proof fn law_keys_move_the_divisors(p: ProcessorView, kc: KeyCode)
    requires
        p.wf(),
    ensures
        ({
            let q = p.keyed(kc);
            &&& q.motion.scroll_divisor - p.motion.scroll_divisor == if kc == KeyCode::User8
                && p.motion.scroll_divisor != 32 {
                1int
            } else if kc == KeyCode::User9 && p.motion.scroll_divisor != 1 {
                -1
            } else {
                0
            }
            &&& q.motion.sniper_divisor - p.motion.sniper_divisor == if kc == KeyCode::User10
                && p.motion.sniper_divisor != 16 {
                1int
            } else if kc == KeyCode::User11 && p.motion.sniper_divisor != 1 {
                -1
            } else {
                0
            }
            &&& q.active_layer == p.active_layer
            &&& q.motion.scroll_x == p.motion.scroll_x && q.motion.scroll_y == p.motion.scroll_y
            &&& q.motion.normal_x == p.motion.normal_x && q.motion.normal_y == p.motion.normal_y
            &&& q.motion.last_report_ms == p.motion.last_report_ms
        }),
{
}

/// A key message counts for its key alone, a quiet interval does nothing but drop the scroll
/// motion outside the scroll layer, and messages that are neither keys nor layers do nothing.
pub proof fn law_messages(p: ProcessorView, event: ControllerEvent, kc: KeyCode)
    ensures
        p.ticked(
            TickEvent::Message(ControllerEvent::Key(KeyAction::Single(Action::Key(kc)))),
        ) == p.keyed(kc),
        !(event is Key) && !(event is Layer) ==> p.ticked(TickEvent::Message(event)) == p,
        p.ticked(TickEvent::Message(ControllerEvent::Key(KeyAction::Other))) == p,
        p.ticked(TickEvent::Message(ControllerEvent::Key(KeyAction::Single(Action::Other)))) == p,
        p.active_layer == 1 ==> p.ticked(TickEvent::Timeout) == p,
        ({
            let q = p.ticked(TickEvent::Timeout);
            &&& p.active_layer != 1 ==> q.motion.scroll_x == 0 && q.motion.scroll_y == 0
            &&& q.active_layer == p.active_layer
            &&& q.motion.normal_x == p.motion.normal_x && q.motion.normal_y == p.motion.normal_y
            &&& q.motion.last_report_ms == p.motion.last_report_ms
            &&& q.motion.mouse_buttons == p.motion.mouse_buttons
            &&& q.motion.scroll_divisor == p.motion.scroll_divisor
            &&& q.motion.sniper_divisor == p.motion.sniper_divisor
        }),
        p.happened(Input::Resume) == p,
{
}

} // verus!
