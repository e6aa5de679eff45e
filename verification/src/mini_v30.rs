//! Trackball Mini v3.0: two buttons pick the mode.
//!
//! - MB1: left click, passed on by the keyboard.
//! - User12 held: Sniper mode. User12 tapped: a right click.
//! - MB1 and User12 held together: Scroll mode. Tapped together: a middle click.
//! - MB1 and User12 tapped together twice: Adjust mode.
//! - User8 to User11 move the divisors.
//!
//! The release of a button that was pressed together with the other one is no tap of its
//! own.
//!
//! In Adjust mode a tap on MB1 selects the first Bluetooth profile and a tap on User12
//! the next one, both through keys of the matrix that have no switch. Pressing the
//! buttons together leaves Adjust mode.

use crate::arith::{clamp_i8, elapsed, elapsed_ms, lemma_lowest_bit, wrap_i32};
use crate::click::Gesture;
use crate::clock::now_ms;
use crate::event::{keycode_of, message_keycode};
use crate::event::{Action, AxisEvent, ControllerEvent, Event, Input, KeyAction, KeyCode};
use crate::event::{MouseReport, ProcessResult, TickEvent};
use crate::history;
use crate::history::{way, Change};
use crate::motion::process_result;
use crate::motion::{Mode, Motion, MotionView, NORMAL_REPORT_INTERVAL_MS};
use vstd::prelude::*;

verus! {

/// Two presses less than this apart make a combo.
pub const COMBO_WINDOW_MS: u32 = 100;

/// A press shorter than this is a tap.
pub const COMBO_TAP_MS: u32 = 250;

/// Two combo taps less than this apart make a double tap.
pub const DOUBLE_TAP_MS: u32 = 400;

/// The matrix row of the keys that have no switch.
pub const VIRTUAL_ROW: u8 = 0;

/// The column of the key that selects the first Bluetooth profile.
pub const BT0_COL: u8 = 2;

/// The column of the key that selects the next Bluetooth profile.
pub const BT_NEXT_COL: u8 = 3;

/// The state that motion handling and the background task share.
pub struct TrackballProcessor {
    pub motion: Motion,
    pub mode_scroll: bool,
    pub mode_sniper: bool,
    pub mode_adjust: bool,
}

/// A [`TrackballProcessor`] in numbers.
pub struct ProcessorView {
    pub motion: MotionView,
    pub mode_scroll: bool,
    pub mode_sniper: bool,
    pub mode_adjust: bool,
}

impl View for TrackballProcessor {
    type V = ProcessorView;

    open spec fn view(&self) -> ProcessorView {
        ProcessorView {
            motion: self.motion@,
            mode_scroll: self.mode_scroll,
            mode_sniper: self.mode_sniper,
            mode_adjust: self.mode_adjust,
        }
    }
}

/// What the background task remembers of the buttons.
#[derive(Clone, Copy, Debug, PartialEq, Eq, Structural)]
pub struct TickState {
    pub mb1_held: bool,
    pub mb2_held: bool,
    pub mb1_press_time: u32,
    pub mb2_press_time: u32,
    /// MB1 was last pressed together with User12, so its release is no tap of its own.
    pub mb1_in_combo: bool,
    /// User12 was last pressed together with MB1, so its release is no tap of its own.
    pub mb2_in_combo: bool,
    /// The buttons were pressed together and neither has been released.
    pub combo_active: bool,
    pub combo_start_time: u32,
    /// When a combo was last tapped, unless that tap has been used up.
    pub last_combo_tap_time: Option<u32>,
    /// A middle click is being sent; [`trackball_tick_resume`] is still to come.
    pub click_pending: bool,
}

impl ProcessorView {
    /// The divisors are within their limits.
    pub open spec fn wf(self) -> bool {
        self.motion.wf()
    }

    /// The state at power-on.
    pub open spec fn initial() -> ProcessorView {
        ProcessorView {
            motion: MotionView::initial(),
            mode_scroll: false,
            mode_sniper: false,
            mode_adjust: false,
        }
    }

    /// The mode that the flags stand for.
    pub open spec fn mode(self) -> Mode {
        if self.mode_scroll {
            Mode::Scroll
        } else if self.mode_sniper {
            Mode::Sniper
        } else {
            Mode::Normal
        }
    }

    /// The state after an input event.
    pub open spec fn processed(self, event: Event, now: u32) -> ProcessorView {
        ProcessorView { motion: self.motion.processed(self.mode(), event, now), ..self }
    }

    /// The report for an input event.
    pub open spec fn process_report(self, event: Event, now: u32) -> Option<MouseReport> {
        self.motion.process_report(self.mode(), event, now)
    }

    /// The state with MB1 down in every report.
    pub open spec fn mb1_down(self) -> ProcessorView {
        ProcessorView {
            motion: self.motion.with_buttons(self.motion.mouse_buttons | 1),
            ..self
        }
    }

    /// The state with MB1 up in every report.
    pub open spec fn mb1_up(self) -> ProcessorView {
        ProcessorView {
            motion: self.motion.with_buttons(self.motion.mouse_buttons & !1u8),
            ..self
        }
    }

    /// The state with Scroll mode switched on or off and no scroll motion left over.
    pub open spec fn scroll(self, on: bool) -> ProcessorView {
        ProcessorView { motion: self.motion.scroll_cleared(), mode_scroll: on, ..self }
    }

    /// The state with Sniper mode switched on or off.
    pub open spec fn sniper(self, on: bool) -> ProcessorView {
        ProcessorView { mode_sniper: on, ..self }
    }

    /// The state with Adjust mode switched on or off.
    pub open spec fn adjust(self, on: bool) -> ProcessorView {
        ProcessorView { mode_adjust: on, ..self }
    }
}

/// Both halves of the state, and the gesture that a step asks for.
pub struct Tick {
    pub processor: ProcessorView,
    pub state: TickState,
    pub gesture: Gesture,
}

impl TickState {
    /// No button has been touched yet.
    pub open spec fn initial() -> TickState {
        TickState {
            mb1_held: false,
            mb2_held: false,
            mb1_press_time: 0,
            mb2_press_time: 0,
            mb1_in_combo: false,
            mb2_in_combo: false,
            combo_active: false,
            combo_start_time: 0,
            last_combo_tap_time: None,
            click_pending: false,
        }
    }
}

impl Tick {
    /// Power-on.
    pub open spec fn initial() -> Tick {
        Tick {
            processor: ProcessorView::initial(),
            state: TickState::initial(),
            gesture: Gesture::Nothing,
        }
    }

    /// The buttons have come down together: Scroll mode.
    pub open spec fn combo_started(self, now: u32) -> Tick {
        Tick {
            processor: self.processor.scroll(true).sniper(false),
            state: TickState { combo_active: true, combo_start_time: now, ..self.state },
            gesture: Gesture::Nothing,
        }
    }

    /// Is a combo tap at time `now` the second one of a double tap?
    pub open spec fn second_tap(self, now: u32) -> bool {
        match self.state.last_combo_tap_time {
            Some(first) => elapsed_ms(now, first) < DOUBLE_TAP_MS,
            None => false,
        }
    }

    /// One button of a combo has come up: the end of Scroll mode. A tap is a middle
    /// click, a second tap soon after the first one is the way into Adjust mode.
    pub open spec fn combo_ended(self, now: u32) -> Tick {
        let after = Tick {
            processor: self.processor.scroll(false),
            state: TickState { combo_active: false, last_combo_tap_time: None, ..self.state },
            gesture: Gesture::Nothing,
        };
        if elapsed_ms(now, self.state.combo_start_time) >= COMBO_TAP_MS {
            after.back_to_sniper()
        } else if self.second_tap(now) {
            Tick { processor: after.processor.adjust(true), ..after }
        } else {
            Tick {
                state: TickState {
                    last_combo_tap_time: Some(now),
                    click_pending: true,
                    ..after.state
                },
                gesture: Gesture::Mb3Click,
                ..after
            }
        }
    }

    /// A combo is over: Sniper mode again while User12 is still down, but not in Adjust
    /// mode.
    pub open spec fn back_to_sniper(self) -> Tick {
        if self.state.mb2_held && !self.processor.mode_adjust {
            Tick { processor: self.processor.sniper(true), ..self }
        } else {
            self
        }
    }

    /// Both buttons are down in time: a combo, or the way out of Adjust mode.
    pub open spec fn pressed_together(self, now: u32) -> Tick {
        let together = Tick {
            state: TickState { mb1_in_combo: true, mb2_in_combo: true, ..self.state },
            ..self
        };
        if self.processor.mode_adjust {
            Tick { processor: self.processor.adjust(false), ..together }
        } else {
            together.combo_started(now)
        }
    }

    pub open spec fn mb1_pressed(self, now: u32) -> Tick {
        let down = Tick {
            processor: if self.processor.mode_adjust {
                self.processor
            } else {
                self.processor.mb1_down()
            },
            state: TickState {
                mb1_held: true,
                mb1_press_time: now,
                mb1_in_combo: false,
                ..self.state
            },
            gesture: Gesture::Nothing,
        };
        if self.state.mb2_held && elapsed_ms(now, self.state.mb2_press_time) < COMBO_WINDOW_MS {
            down.pressed_together(now)
        } else {
            down
        }
    }

    pub open spec fn mb1_released(self, now: u32) -> Tick {
        let up = Tick {
            processor: self.processor.mb1_up(),
            state: TickState { mb1_held: false, ..self.state },
            gesture: Gesture::Nothing,
        };
        if self.state.combo_active {
            up.combo_ended(now)
        } else if self.processor.mode_adjust && elapsed_ms(now, self.state.mb1_press_time)
            < COMBO_TAP_MS && !self.state.mb1_in_combo {
            Tick { gesture: Gesture::VirtualKey { row: VIRTUAL_ROW, col: BT0_COL }, ..up }
        } else {
            up
        }
    }

    pub open spec fn user12_pressed(self, now: u32) -> Tick {
        let down = Tick {
            state: TickState {
                mb2_held: true,
                mb2_press_time: now,
                mb2_in_combo: false,
                ..self.state
            },
            gesture: Gesture::Nothing,
            ..self
        };
        if self.state.mb1_held && elapsed_ms(now, self.state.mb1_press_time) < COMBO_WINDOW_MS {
            down.pressed_together(now)
        } else if self.processor.mode_adjust {
            down
        } else {
            Tick { processor: down.processor.sniper(true), ..down }
        }
    }

    pub open spec fn user12_released(self, now: u32) -> Tick {
        let up = Tick {
            state: TickState { mb2_held: false, ..self.state },
            gesture: Gesture::Nothing,
            ..self
        };
        let tapped = elapsed_ms(now, self.state.mb2_press_time) < COMBO_TAP_MS
            && !self.state.mb2_in_combo;
        if self.state.combo_active {
            up.combo_ended(now)
        } else if self.processor.mode_adjust {
            Tick {
                gesture: if tapped {
                    Gesture::VirtualKey { row: VIRTUAL_ROW, col: BT_NEXT_COL }
                } else {
                    Gesture::Nothing
                },
                ..up
            }
        } else {
            Tick {
                processor: up.processor.sniper(false),
                gesture: if tapped {
                    Gesture::Mb2Click
                } else {
                    Gesture::Nothing
                },
                ..up
            }
        }
    }

    /// The outcome of a key message. The keyboard sends one for the press and one for
    /// the release.
    pub open spec fn keyed(self, kc: KeyCode, now: u32) -> Tick {
        match kc {
            KeyCode::MouseBtn1 => if self.state.mb1_held {
                self.mb1_released(now)
            } else {
                self.mb1_pressed(now)
            },
            KeyCode::User12 => if self.state.mb2_held {
                self.user12_released(now)
            } else {
                self.user12_pressed(now)
            },
            KeyCode::User8 => self.adjusted(8),
            KeyCode::User9 => self.adjusted(9),
            KeyCode::User10 => self.adjusted(10),
            KeyCode::User11 => self.adjusted(11),
            _ => Tick { gesture: Gesture::Nothing, ..self },
        }
    }

    /// The outcome of a setting key.
    pub open spec fn adjusted(self, keycode_idx: u8) -> Tick {
        Tick {
            processor: ProcessorView {
                motion: self.processor.motion.adjusted(keycode_idx),
                ..self.processor
            },
            gesture: Gesture::Nothing,
            ..self
        }
    }

    /// The outcome of one wait of the background task.
    pub open spec fn ticked(self, event: TickEvent, now: u32) -> Tick {
        match event {
            TickEvent::Timeout => Tick {
                processor: if self.processor.mode_scroll {
                    self.processor
                } else {
                    self.processor.scroll(false)
                },
                gesture: Gesture::Nothing,
                ..self
            },
            TickEvent::Message(_) => match message_keycode(event) {
                Some(kc) => self.keyed(kc, now),
                None => Tick { gesture: Gesture::Nothing, ..self },
            },
        }
    }

    /// The outcome once the gesture of a step has been performed.
    pub open spec fn resumed(self) -> Tick {
        let done = Tick {
            state: TickState { click_pending: false, ..self.state },
            gesture: Gesture::Nothing,
            ..self
        };
        if self.state.click_pending {
            done.back_to_sniper()
        } else {
            done
        }
    }
}

impl TrackballProcessor {
    /// The trackball at power-on.
    pub fn new() -> (processor: Self)
        ensures
            processor@ == ProcessorView::initial(),
            processor@.wf(),
    {
        TrackballProcessor {
            motion: Motion::new(),
            mode_scroll: false,
            mode_sniper: false,
            mode_adjust: false,
        }
    }

    /// The mode that the flags stand for.
    fn mode(&self) -> (mode: Mode)
        ensures
            mode == self@.mode(),
    {
        if self.mode_scroll {
            Mode::Scroll
        } else if self.mode_sniper {
            Mode::Sniper
        } else {
            Mode::Normal
        }
    }

    /// Handles an input event that came in at time `now`.
    pub fn process_at(&mut self, event: Event, now: u32) -> (out: (
        ProcessResult,
        Option<MouseReport>,
    ))
        requires
            old(self)@.wf(),
        ensures
            final(self)@ == old(self)@.processed(event, now),
            out.0 == process_result(event),
            out.1 == old(self)@.process_report(event, now),
            final(self)@.wf(),
    {
        let mode = self.mode();
        self.motion.process(mode, event, now)
    }

    /// Handles an input event that came in just now.
    pub fn process(&mut self, event: Event) -> (out: (ProcessResult, Option<MouseReport>))
        requires
            old(self)@.wf(),
        ensures
            exists|now: u32|
                {
                    &&& final(self)@ == #[trigger] old(self)@.processed(event, now)
                    &&& out.1 == old(self)@.process_report(event, now)
                },
            out.0 == process_result(event),
            final(self)@.wf(),
    {
        let now: u32 = now_ms();
        self.process_at(event, now)
    }

    /// Switches Scroll mode and drops the scroll motion that is left over.
    fn set_scroll(&mut self, on: bool)
        ensures
            final(self)@ == old(self)@.scroll(on),
    {
        self.mode_scroll = on;
        self.motion.clear_scroll();
    }
}

/// A step of the background task as seen from outside: the state that it left and the
/// gesture that it asked for.
pub open spec fn tick_of(
    processor: TrackballProcessor,
    state: TickState,
    gesture: Gesture,
) -> Tick {
    Tick { processor: processor@, state, gesture }
}

impl TickState {
    /// No button has been touched yet.
    pub fn new() -> (state: Self)
        ensures
            state == TickState::initial(),
    {
        TickState {
            mb1_held: false,
            mb2_held: false,
            mb1_press_time: 0,
            mb2_press_time: 0,
            mb1_in_combo: false,
            mb2_in_combo: false,
            combo_active: false,
            combo_start_time: 0,
            last_combo_tap_time: None,
            click_pending: false,
        }
    }

    fn start_combo(&mut self, processor: &mut TrackballProcessor, now: u32)
        requires
            old(processor)@.wf(),
        ensures
            tick_of(*final(processor), *final(self), Gesture::Nothing) == tick_of(
                *old(processor),
                *old(self),
                Gesture::Nothing,
            ).combo_started(now),
    {
        self.combo_active = true;
        self.combo_start_time = now;
        processor.set_scroll(true);
        processor.mode_sniper = false;
    }

    fn end_combo(&mut self, processor: &mut TrackballProcessor, now: u32) -> (gesture: Gesture)
        requires
            old(processor)@.wf(),
        ensures
            tick_of(*final(processor), *final(self), gesture) == tick_of(
                *old(processor),
                *old(self),
                Gesture::Nothing,
            ).combo_ended(now),
    {
        let held: u32 = elapsed(now, self.combo_start_time);
        let double_tap = match self.last_combo_tap_time {
            Some(first) => elapsed(now, first) < DOUBLE_TAP_MS,
            None => false,
        };
        self.combo_active = false;
        self.last_combo_tap_time = None;
        processor.set_scroll(false);
        if held >= COMBO_TAP_MS {
            if self.mb2_held && !processor.mode_adjust {
                processor.mode_sniper = true;
            }
            Gesture::Nothing
        } else if double_tap {
            processor.mode_adjust = true;
            Gesture::Nothing
        } else {
            self.last_combo_tap_time = Some(now);
            self.click_pending = true;
            Gesture::Mb3Click
        }
    }

    fn press_together(&mut self, processor: &mut TrackballProcessor, now: u32)
        requires
            old(processor)@.wf(),
        ensures
            tick_of(*final(processor), *final(self), Gesture::Nothing) == tick_of(
                *old(processor),
                *old(self),
                Gesture::Nothing,
            ).pressed_together(now),
    {
        self.mb1_in_combo = true;
        self.mb2_in_combo = true;
        if processor.mode_adjust {
            processor.mode_adjust = false;
        } else {
            self.start_combo(processor, now);
        }
    }

    fn mouse_btn1(&mut self, processor: &mut TrackballProcessor, now: u32) -> (gesture: Gesture)
        requires
            old(processor)@.wf(),
        ensures
            tick_of(*final(processor), *final(self), gesture) == tick_of(
                *old(processor),
                *old(self),
                Gesture::Nothing,
            ).keyed(KeyCode::MouseBtn1, now),
    {
        self.mb1_held = !self.mb1_held;
        if self.mb1_held {
            self.mb1_press_time = now;
            self.mb1_in_combo = false;
            if !processor.mode_adjust {
                processor.motion.mouse_buttons = processor.motion.mouse_buttons | 1;
            }
            if self.mb2_held && elapsed(now, self.mb2_press_time) < COMBO_WINDOW_MS {
                self.press_together(processor, now);
            }
            Gesture::Nothing
        } else {
            processor.motion.mouse_buttons = processor.motion.mouse_buttons & !1u8;
            if self.combo_active {
                self.end_combo(processor, now)
            } else if processor.mode_adjust && elapsed(now, self.mb1_press_time) < COMBO_TAP_MS
                && !self.mb1_in_combo {
                Gesture::VirtualKey { row: VIRTUAL_ROW, col: BT0_COL }
            } else {
                Gesture::Nothing
            }
        }
    }

    fn user12(&mut self, processor: &mut TrackballProcessor, now: u32) -> (gesture: Gesture)
        requires
            old(processor)@.wf(),
        ensures
            tick_of(*final(processor), *final(self), gesture) == tick_of(
                *old(processor),
                *old(self),
                Gesture::Nothing,
            ).keyed(KeyCode::User12, now),
    {
        self.mb2_held = !self.mb2_held;
        if self.mb2_held {
            self.mb2_press_time = now;
            self.mb2_in_combo = false;
            if self.mb1_held && elapsed(now, self.mb1_press_time) < COMBO_WINDOW_MS {
                self.press_together(processor, now);
            } else if !processor.mode_adjust {
                processor.mode_sniper = true;
            }
            Gesture::Nothing
        } else if self.combo_active {
            self.end_combo(processor, now)
        } else {
            let tapped = elapsed(now, self.mb2_press_time) < COMBO_TAP_MS && !self.mb2_in_combo;
            if processor.mode_adjust {
                if tapped {
                    Gesture::VirtualKey { row: VIRTUAL_ROW, col: BT_NEXT_COL }
                } else {
                    Gesture::Nothing
                }
            } else {
                processor.mode_sniper = false;
                if tapped {
                    Gesture::Mb2Click
                } else {
                    Gesture::Nothing
                }
            }
        }
    }
}

/// One round of the background task at time `now`: takes what ended the wait into
/// account and says what gesture to perform. Once it has been performed,
/// [`trackball_tick_resume`] finishes the round.
pub fn trackball_tick_at(
    processor: &mut TrackballProcessor,
    state: &mut TickState,
    event: TickEvent,
    now: u32,
) -> (gesture: Gesture)
    requires
        old(processor)@.wf(),
    ensures
        tick_of(*final(processor), *final(state), gesture) == tick_of(
            *old(processor),
            *old(state),
            Gesture::Nothing,
        ).ticked(event, now),
        final(processor)@.wf(),
{
    match event {
        TickEvent::Timeout => {
            if !processor.mode_scroll {
                processor.motion.clear_scroll();
            }
            Gesture::Nothing
        },
        TickEvent::Message(_) => match keycode_of(event) {
            Some(KeyCode::MouseBtn1) => state.mouse_btn1(processor, now),
            Some(KeyCode::User12) => state.user12(processor, now),
            Some(KeyCode::User8) => {
                processor.motion.adjust(8);
                Gesture::Nothing
            },
            Some(KeyCode::User9) => {
                processor.motion.adjust(9);
                Gesture::Nothing
            },
            Some(KeyCode::User10) => {
                processor.motion.adjust(10);
                Gesture::Nothing
            },
            Some(KeyCode::User11) => {
                processor.motion.adjust(11);
                Gesture::Nothing
            },
            _ => Gesture::Nothing,
        },
    }
}

/// One round of the background task, right now; see [`trackball_tick_at`].
pub fn trackball_tick_task(
    processor: &mut TrackballProcessor,
    state: &mut TickState,
    event: TickEvent,
) -> (gesture: Gesture)
    requires
        old(processor)@.wf(),
    ensures
        exists|now: u32|
            tick_of(*final(processor), *final(state), gesture) == #[trigger] tick_of(
                *old(processor),
                *old(state),
                Gesture::Nothing,
            ).ticked(event, now),
        final(processor)@.wf(),
{
    let now: u32 = now_ms();
    trackball_tick_at(processor, state, event, now)
}

/// Finishes a round of the background task once its gesture has been performed.
pub fn trackball_tick_resume(processor: &mut TrackballProcessor, state: &mut TickState)
    requires
        old(processor)@.wf(),
    ensures
        tick_of(*final(processor), *final(state), Gesture::Nothing) == tick_of(
            *old(processor),
            *old(state),
            Gesture::Nothing,
        ).resumed(),
        final(processor)@.wf(),
{
    if state.click_pending {
        state.click_pending = false;
        if state.mb2_held && !processor.mode_adjust {
            processor.mode_sniper = true;
        }
    }
}

impl Tick {
    /// How flags, buttons and combo hang together at every moment: Scroll mode is on
    /// exactly during a combo, Sniper mode only while User12 is down without one, Adjust
    /// mode excludes both, and a report carries no button but MB1, and that only while
    /// it is down.
    pub open spec fn coherent(self) -> bool {
        &&& self.processor.wf()
        &&& self.processor.mode_scroll == self.state.combo_active
        &&& self.processor.mode_sniper ==> self.state.mb2_held && !self.state.combo_active
            && !self.processor.mode_adjust
        &&& self.state.combo_active ==> self.state.mb1_in_combo && self.state.mb2_in_combo
        &&& self.state.combo_active ==> self.state.mb1_held && self.state.mb2_held
            && !self.processor.mode_adjust
        &&& self.state.click_pending ==> !self.state.combo_active && !self.processor.mode_sniper
            && !self.processor.mode_adjust
        &&& self.processor.motion.mouse_buttons == 0 || self.processor.motion.mouse_buttons == 1
        &&& self.processor.motion.mouse_buttons == 1 ==> self.state.mb1_held
    }

    /// No button is down and no gesture is under way.
    pub open spec fn idle(self) -> bool {
        &&& self.coherent()
        &&& !self.state.mb1_held
        &&& !self.state.mb2_held
        &&& !self.state.click_pending
    }

    /// The state after anything that can happen. While it performs a gesture the
    /// background task takes no message.
    pub open spec fn happened(self, input: Input) -> Tick {
        match input {
            Input::Motion(event, now) => Tick {
                processor: self.processor.processed(event, now),
                ..self
            },
            Input::Tick(event, now) => if self.state.click_pending {
                self
            } else {
                self.ticked(event, now)
            },
            Input::Resume => self.resumed(),
        }
    }

    /// The state after a series of things that can happen.
    pub open spec fn happened_all(self, inputs: Seq<Input>) -> Tick
        decreases inputs.len(),
    {
        if inputs.len() == 0 {
            self
        } else {
            self.happened_all(inputs.drop_last()).happened(inputs.last())
        }
    }
}

/// Whatever happens after power-on, flags, buttons and combo hang together.
pub proof fn law_always_coherent(inputs: Seq<Input>)
    ensures
        Tick::initial().happened_all(inputs).coherent(),
{
    law_history(Tick::initial(), inputs);
}

/// At most one of Scroll, Sniper and Adjust mode is on.
pub proof fn law_modes_exclude_each_other(inputs: Seq<Input>)
    ensures
        ({
            let p = Tick::initial().happened_all(inputs).processor;
            &&& !(p.mode_scroll && p.mode_sniper)
            &&& !(p.mode_scroll && p.mode_adjust)
            &&& !(p.mode_sniper && p.mode_adjust)
        }),
{
    law_always_coherent(inputs);
}

/// User12 pressed alone switches Sniper mode on for as long as it is down. Letting go of
/// it soon is a right click, letting go of it late is none.
pub proof fn law_user12_alone(t: Tick, press: u32, release: u32)
    requires
        t.idle(),
        !t.processor.mode_adjust,
    ensures
        t.keyed(KeyCode::User12, press).processor.mode() == Mode::Sniper,
        t.keyed(KeyCode::User12, press).gesture == Gesture::Nothing,
        t.keyed(KeyCode::User12, press).keyed(KeyCode::User12, release).gesture == if elapsed_ms(
            release,
            press,
        ) < COMBO_TAP_MS {
            Gesture::Mb2Click
        } else {
            Gesture::Nothing
        },
        t.keyed(KeyCode::User12, press).keyed(KeyCode::User12, release).processor == t.processor,
        t.keyed(KeyCode::User12, press).keyed(KeyCode::User12, release).idle(),
{
}

/// MB1 alone leaves mode and gestures alone; it is down in the reports between its
/// press and its release.
pub proof fn law_mb1_alone(t: Tick, press: u32, release: u32)
    requires
        t.idle(),
        !t.processor.mode_adjust,
    ensures
        t.keyed(KeyCode::MouseBtn1, press).processor.mode() == Mode::Normal,
        t.keyed(KeyCode::MouseBtn1, press).processor.motion.mouse_buttons == 1,
        t.keyed(KeyCode::MouseBtn1, press).gesture == Gesture::Nothing,
        t.keyed(KeyCode::MouseBtn1, press).keyed(KeyCode::MouseBtn1, release).gesture
            == Gesture::Nothing,
        t.keyed(KeyCode::MouseBtn1, press).keyed(KeyCode::MouseBtn1, release).processor
            == t.processor,
        t.keyed(KeyCode::MouseBtn1, press).keyed(KeyCode::MouseBtn1, release).idle(),
{
    lemma_lowest_bit();
}

/// Is `a` one of the two buttons and `b` the other one?
pub open spec fn both_buttons(a: KeyCode, b: KeyCode) -> bool {
    ||| a == KeyCode::MouseBtn1 && b == KeyCode::User12
    ||| a == KeyCode::User12 && b == KeyCode::MouseBtn1
}

/// Both buttons pressed within the combo window, in either order, switch to Scroll mode,
/// which ends with the release of either one. A late release asks for nothing and uses
/// up an earlier tap. An early one is a tap: the second of a double tap leads to Adjust
/// mode, any other is a middle click. Sniper mode follows if User12 is still down,
/// except in Adjust mode.
pub proof fn law_combo(
    t: Tick,
    a: KeyCode,
    b: KeyCode,
    up: KeyCode,
    press_a: u32,
    press_b: u32,
    release: u32,
)
    requires
        t.idle(),
        !t.processor.mode_adjust,
        both_buttons(a, b),
        up == a || up == b,
        elapsed_ms(press_b, press_a) < COMBO_WINDOW_MS,
    ensures
        t.keyed(a, press_a).keyed(b, press_b).processor.mode() == Mode::Scroll,
        t.keyed(a, press_a).keyed(b, press_b).gesture == Gesture::Nothing,
        ({
            let tap = elapsed_ms(release, press_b) < COMBO_TAP_MS;
            let end = t.keyed(a, press_a).keyed(b, press_b).keyed(up, release);
            &&& end.gesture == if tap && !t.second_tap(release) {
                Gesture::Mb3Click
            } else {
                Gesture::Nothing
            }
            &&& end.processor.mode_adjust == (tap && t.second_tap(release))
            &&& end.state.last_combo_tap_time == if tap && !t.second_tap(release) {
                Some(release)
            } else {
                None
            }
            &&& end.resumed().processor.mode() == if up == KeyCode::MouseBtn1
                && !end.processor.mode_adjust {
                Mode::Sniper
            } else {
                Mode::Normal
            }
            &&& end.resumed().processor.motion.scroll_x == 0
            &&& end.resumed().processor.motion.scroll_y == 0
        }),
{
    lemma_lowest_bit();
}

/// Pressing both buttons together and letting go of both, in any order and however late,
/// asks for nothing beyond what the first release asks for: the second release is no tap
/// of its own, and it leaves Adjust mode on if the first one has entered it. In the end
/// everything else is as it was, with no scroll motion left over.
pub proof fn law_whole_combo(
    t: Tick,
    a: KeyCode,
    b: KeyCode,
    c: KeyCode,
    d: KeyCode,
    press_a: u32,
    press_b: u32,
    release_c: u32,
    release_d: u32,
)
    requires
        t.idle(),
        !t.processor.mode_adjust,
        both_buttons(a, b),
        both_buttons(c, d),
        elapsed_ms(press_b, press_a) < COMBO_WINDOW_MS,
    ensures
        ({
            let tap = elapsed_ms(release_c, press_b) < COMBO_TAP_MS;
            let first = t.keyed(a, press_a).keyed(b, press_b).keyed(c, release_c);
            let end = first.resumed().keyed(d, release_d);
            &&& first.gesture == if tap && !t.second_tap(release_c) {
                Gesture::Mb3Click
            } else {
                Gesture::Nothing
            }
            &&& end.gesture == Gesture::Nothing
            &&& end.processor.mode() == Mode::Normal
            &&& end.processor == t.processor.scroll(false).adjust(tap && t.second_tap(release_c))
            &&& end.state.last_combo_tap_time == first.state.last_combo_tap_time
            &&& end.idle()
        }),
{
    lemma_lowest_bit();
}

/// A first combo tap is a middle click and nothing else. A second one within the
/// double-tap time leads to Adjust mode, without a click and without a key; one that comes
/// later is a middle click again.
///
/// `a` and `b` come down and `c` and `d` come up in the first tap, `e` and `f` come down
/// and `g` and `h` come up in the second.
pub proof fn law_double_tap(
    t: Tick,
    a: (KeyCode, u32),
    b: (KeyCode, u32),
    c: (KeyCode, u32),
    d: (KeyCode, u32),
    e: (KeyCode, u32),
    f: (KeyCode, u32),
    g: (KeyCode, u32),
    h: (KeyCode, u32),
)
    requires
        t.idle(),
        !t.processor.mode_adjust,
        t.state.last_combo_tap_time is None,
        both_buttons(a.0, b.0),
        both_buttons(c.0, d.0),
        both_buttons(e.0, f.0),
        both_buttons(g.0, h.0),
        elapsed_ms(b.1, a.1) < COMBO_WINDOW_MS,
        elapsed_ms(c.1, b.1) < COMBO_TAP_MS,
        elapsed_ms(f.1, e.1) < COMBO_WINDOW_MS,
        elapsed_ms(g.1, f.1) < COMBO_TAP_MS,
    ensures
        ({
            let first = t.keyed(a.0, a.1).keyed(b.0, b.1).keyed(c.0, c.1);
            let between = first.resumed().keyed(d.0, d.1);
            let second = between.keyed(e.0, e.1).keyed(f.0, f.1).keyed(g.0, g.1);
            let end = second.resumed().keyed(h.0, h.1);
            let double = elapsed_ms(g.1, c.1) < DOUBLE_TAP_MS;
            &&& first.gesture == Gesture::Mb3Click
            &&& between.gesture == Gesture::Nothing
            &&& !between.processor.mode_adjust
            &&& second.gesture == if double {
                Gesture::Nothing
            } else {
                Gesture::Mb3Click
            }
            &&& end.gesture == Gesture::Nothing
            &&& end.processor.mode_adjust == double
            &&& end.processor.mode() == Mode::Normal
            &&& end.idle()
        }),
{
    law_whole_combo(t, a.0, b.0, c.0, d.0, a.1, b.1, c.1, d.1);
    let between = t.keyed(a.0, a.1).keyed(b.0, b.1).keyed(c.0, c.1).resumed().keyed(d.0, d.1);
    assert(between.state.last_combo_tap_time == Some(c.1)) by {
        law_combo(t, a.0, b.0, c.0, a.1, b.1, c.1);
    }
    law_whole_combo(between, e.0, f.0, g.0, h.0, e.1, f.1, g.1, h.1);
}

/// In Adjust mode a tap on MB1 or on User12 taps the key for its Bluetooth action, a
/// longer press does nothing, and the ball goes on as usual with no button down.
pub proof fn law_adjust_taps(t: Tick, kc: KeyCode, press: u32, release: u32)
    requires
        t.idle(),
        t.processor.mode_adjust,
        kc == KeyCode::MouseBtn1 || kc == KeyCode::User12,
    ensures
        ({
            let down = t.keyed(kc, press);
            let up = down.keyed(kc, release);
            &&& down.gesture == Gesture::Nothing
            &&& down.processor == t.processor
            &&& down.processor.mode() == Mode::Normal
            &&& down.processor.motion.mouse_buttons == 0
            &&& up.gesture == if elapsed_ms(release, press) >= COMBO_TAP_MS {
                Gesture::Nothing
            } else if kc == KeyCode::MouseBtn1 {
                Gesture::VirtualKey { row: VIRTUAL_ROW, col: BT0_COL }
            } else {
                Gesture::VirtualKey { row: VIRTUAL_ROW, col: BT_NEXT_COL }
            }
            &&& up.processor == t.processor
            &&& up.idle()
        }),
{
    lemma_lowest_bit();
}

/// Pressing both buttons together leaves Adjust mode, back to normal pointing. Letting go
/// of them, in any order and however late, asks for nothing.
pub proof fn law_combo_leaves_adjust(
    t: Tick,
    a: KeyCode,
    b: KeyCode,
    c: KeyCode,
    d: KeyCode,
    press_a: u32,
    press_b: u32,
    release_c: u32,
    release_d: u32,
)
    requires
        t.idle(),
        t.processor.mode_adjust,
        both_buttons(a, b),
        both_buttons(c, d),
        elapsed_ms(press_b, press_a) < COMBO_WINDOW_MS,
    ensures
        ({
            let one = t.keyed(a, press_a);
            let both = one.keyed(b, press_b);
            let first = both.keyed(c, release_c);
            let end = first.keyed(d, release_d);
            &&& one.processor.mode_adjust && one.gesture == Gesture::Nothing
            &&& both.gesture == Gesture::Nothing
            &&& both.processor == t.processor.adjust(false)
            &&& both.processor.mode() == Mode::Normal
            &&& first.gesture == Gesture::Nothing
            &&& first.processor == both.processor
            &&& end.gesture == Gesture::Nothing
            &&& end.processor == both.processor
            &&& end.idle()
        }),
{
    lemma_lowest_bit();
}

/// A second press that comes too late makes no combo: the first button keeps its
/// meaning, User12 means Sniper mode, and MB1 is down in the reports.
pub proof fn law_late_second_press(t: Tick, a: KeyCode, b: KeyCode, press_a: u32, press_b: u32)
    requires
        t.idle(),
        !t.processor.mode_adjust,
        both_buttons(a, b),
        elapsed_ms(press_b, press_a) >= COMBO_WINDOW_MS,
    ensures
        t.keyed(a, press_a).keyed(b, press_b).processor.mode() == Mode::Sniper,
        t.keyed(a, press_a).keyed(b, press_b).gesture == Gesture::Nothing,
        !t.keyed(a, press_a).keyed(b, press_b).state.combo_active,
        t.keyed(a, press_a).keyed(b, press_b).processor.motion.mouse_buttons == 1,
{
    lemma_lowest_bit();
}

/// Outside Scroll mode a quiet interval drops whatever scroll motion is left.
pub proof fn law_no_leftover_scroll(t: Tick, now: u32)
    requires
        t.processor.mode() != Mode::Scroll,
    ensures
        t.ticked(TickEvent::Timeout, now).processor.motion.scroll_x == 0,
        t.ticked(TickEvent::Timeout, now).processor.motion.scroll_y == 0,
{
}

impl Tick {
    /// What happens, as a step in the history of the motion state.
    pub open spec fn change(self, input: Input) -> Change {
        match input {
            Input::Motion(event, now) => Change::Handled(self.processor.mode(), event, now),
            _ => Change::between(self.processor.motion, self.happened(input).processor.motion),
        }
    }

    /// A series of things that happen, as a history of the motion state.
    pub open spec fn changes(self, inputs: Seq<Input>) -> Seq<Change>
        decreases inputs.len(),
    {
        if inputs.len() == 0 {
            Seq::empty()
        } else {
            let front = inputs.drop_last();
            self.changes(front).push(self.happened_all(front).change(inputs.last()))
        }
    }
}

proof fn lemma_happened(t: Tick, input: Input)
    requires
        t.coherent(),
    ensures
        t.happened(input).coherent(),
        t.happened(input).processor.motion == t.processor.motion.changed(t.change(input)),
        t.change(input).valid(),
{
    lemma_lowest_bit();
}

/// What happens to the trackball is a history of its motion state, one step for each input.
pub proof fn law_history(t: Tick, inputs: Seq<Input>)
    requires
        t.coherent(),
    ensures
        t.happened_all(inputs).coherent(),
        t.happened_all(inputs).processor.motion == t.processor.motion.changed_all(t.changes(inputs)),
        t.changes(inputs).len() == inputs.len(),
        forall|i: int|
            0 <= i < inputs.len() ==> (#[trigger] t.changes(inputs)[i]).valid(),
    decreases inputs.len(),
{
    if inputs.len() > 0 {
        let front = inputs.drop_last();
        law_history(t, front);
        let before = t.happened_all(front);
        lemma_happened(before, inputs.last());
        assert(t.changes(inputs).drop_last() == t.changes(front));
    }
}

/// Scrolling loses nothing: as long as a report can carry the motion there is and nothing
/// makes the trackball forget it, the notches sent and the rest that is kept add up to the
/// way that the ball has gone in scroll mode.
pub proof fn law_scroll_keeps_all_motion(t: Tick, inputs: Seq<Input>)
    requires
        t.coherent(),
        t.processor.motion.carries_all(t.changes(inputs)),
    ensures
        ({
            let changes = t.changes(inputs);
            let sent = t.processor.motion.way_scrolled(changes);
            let gone = way(changes, Mode::Scroll);
            let end = t.happened_all(inputs).processor.motion;
            &&& sent.0 + end.scroll_x == t.processor.motion.scroll_x + gone.0
            &&& sent.1 + end.scroll_y == t.processor.motion.scroll_y + gone.1
        }),
{
    law_history(t, inputs);
    history::law_scroll_keeps_all_motion(t.processor.motion, t.changes(inputs));
}

/// Normal mode sends its reports at least the interval apart, and each of them carries all
/// the motion of normal mode since the last one, as far as it fits. Keys, gestures and
/// other modes in between do not matter. The sum is kept in 32 bits.
pub proof fn law_normal_reports(
    t: Tick,
    first: (Event, u32),
    between: Seq<Input>,
    second: (Event, u32),
)
    requires
        t.coherent(),
        ({
            let after = t.happened(Input::Motion(first.0, first.1));
            let state = after.happened_all(between);
            &&& t.processor.mode() == Mode::Normal
            &&& t.processor.process_report(first.0, first.1) is Some
            &&& after.processor.motion.all_quiet(after.changes(between))
            &&& state.processor.mode() == Mode::Normal
            &&& state.processor.process_report(second.0, second.1) is Some
        }),
    ensures
        ({
            let after = t.happened(Input::Motion(first.0, first.1));
            let state = after.happened_all(between);
            let changes = after.changes(between).push(
                state.change(Input::Motion(second.0, second.1)),
            );
            let report = state.processor.process_report(second.0, second.1)->0;
            let (x, y) = way(changes, Mode::Normal);
            &&& elapsed_ms(second.1, first.1) >= NORMAL_REPORT_INTERVAL_MS
            &&& report.x == clamp_i8(wrap_i32(x))
            &&& report.y == clamp_i8(wrap_i32(y))
            &&& i32::MIN <= x <= i32::MAX ==> report.x == clamp_i8(x)
            &&& i32::MIN <= y <= i32::MAX ==> report.y == clamp_i8(y)
        }),
{
    let after = t.happened(Input::Motion(first.0, first.1));
    lemma_happened(t, Input::Motion(first.0, first.1));
    law_history(after, between);
    history::law_normal_reports(t.processor.motion, first, after.changes(between), second);
}

/// After a report of normal mode the next one is owed as soon as the interval is over and the
/// motion of normal mode since then leads anywhere: the first motion that comes then sends
/// it, and no motion before. Keys, gestures and other modes in between do not matter.
pub proof fn law_normal_report_is_owed(
    t: Tick,
    first: (Event, u32),
    between: Seq<Input>,
    axes: [AxisEvent; 3],
    now: u32,
)
    requires
        t.coherent(),
        ({
            let after = t.happened(Input::Motion(first.0, first.1));
            &&& t.processor.mode() == Mode::Normal
            &&& t.processor.process_report(first.0, first.1) is Some
            &&& after.processor.motion.all_quiet(after.changes(between))
            &&& after.happened_all(between).processor.mode() == Mode::Normal
        }),
    ensures
        ({
            let after = t.happened(Input::Motion(first.0, first.1));
            let state = after.happened_all(between);
            let changes = after.changes(between).push(
                state.change(Input::Motion(Event::Joystick(axes), now)),
            );
            let (x, y) = way(changes, Mode::Normal);
            state.processor.process_report(Event::Joystick(axes), now) is Some <==> elapsed_ms(now, first.1)
                >= NORMAL_REPORT_INTERVAL_MS && (x % 0x1_0000_0000 != 0 || y % 0x1_0000_0000 != 0)
        }),
{
    let after = t.happened(Input::Motion(first.0, first.1));
    lemma_happened(t, Input::Motion(first.0, first.1));
    law_history(after, between);
    history::law_normal_report_is_owed(t.processor.motion, first, after.changes(between), axes, now);
}

/// Scroll mode goes before Sniper mode, and with neither the ball points. What the ball does
/// is handled in that mode; it changes no mode, no button and no setting, and asks for
/// nothing.
pub proof fn law_flags_pick_the_mode(t: Tick, event: Event, now: u32)
    ensures
        t.processor.mode() == Mode::Scroll <==> t.processor.mode_scroll,
        t.processor.mode() == Mode::Sniper <==> !t.processor.mode_scroll
            && t.processor.mode_sniper,
        t.processor.process_report(event, now) == t.processor.motion.process_report(
            t.processor.mode(),
            event,
            now,
        ),
        ({
            let u = t.happened(Input::Motion(event, now));
            &&& u.state == t.state && u.gesture == t.gesture
            &&& u.processor.mode_scroll == t.processor.mode_scroll
            &&& u.processor.mode_sniper == t.processor.mode_sniper
            &&& u.processor.mode_adjust == t.processor.mode_adjust
            &&& u.processor.motion == t.processor.motion.processed(t.processor.mode(), event, now)
            &&& u.processor.motion.mouse_buttons == t.processor.motion.mouse_buttons
            &&& u.processor.motion.scroll_divisor == t.processor.motion.scroll_divisor
            &&& u.processor.motion.sniper_divisor == t.processor.motion.sniper_divisor
        }),
{
}

/// User8 and User10 raise the scroll and the sniper divisor by one, User9 and User11 lower
/// them by one, within the limits. No other key touches a divisor, and no key touches the
/// motion that normal mode has summed up.
pub proof fn law_keys_move_the_divisors(t: Tick, kc: KeyCode, now: u32)
    requires
        t.processor.wf(),
    ensures
        ({
            let m = t.processor.motion;
            let n = t.keyed(kc, now).processor.motion;
            &&& n.scroll_divisor - m.scroll_divisor == if kc == KeyCode::User8
                && m.scroll_divisor != 32 {
                1int
            } else if kc == KeyCode::User9 && m.scroll_divisor != 1 {
                -1
            } else {
                0
            }
            &&& n.sniper_divisor - m.sniper_divisor == if kc == KeyCode::User10
                && m.sniper_divisor != 16 {
                1int
            } else if kc == KeyCode::User11 && m.sniper_divisor != 1 {
                -1
            } else {
                0
            }
            &&& n.normal_x == m.normal_x && n.normal_y == m.normal_y
            &&& n.last_report_ms == m.last_report_ms
        }),
{
}

/// Keys other than MB1 and User12 ask for nothing, change no mode and no button, and leave
/// the scroll motion alone.
pub proof fn law_other_keys(t: Tick, kc: KeyCode, now: u32)
    requires
        kc != KeyCode::MouseBtn1,
        kc != KeyCode::User12,
    ensures
        ({
            let u = t.keyed(kc, now);
            &&& u.gesture == Gesture::Nothing
            &&& u.state == t.state
            &&& u.processor.mode_scroll == t.processor.mode_scroll
            &&& u.processor.mode_sniper == t.processor.mode_sniper
            &&& u.processor.mode_adjust == t.processor.mode_adjust
            &&& u.processor.motion.mouse_buttons == t.processor.motion.mouse_buttons
            &&& u.processor.motion.scroll_x == t.processor.motion.scroll_x
            &&& u.processor.motion.scroll_y == t.processor.motion.scroll_y
        }),
{
}

/// A key message counts for its key alone, a quiet interval does nothing but drop the scroll
/// motion outside Scroll mode, and all other messages do nothing.
pub proof fn law_messages(t: Tick, event: ControllerEvent, kc: KeyCode, now: u32)
    requires
        t.gesture == Gesture::Nothing,
    ensures
        t.ticked(
            TickEvent::Message(ControllerEvent::Key(KeyAction::Single(Action::Key(kc)))),
            now,
        ) == t.keyed(kc, now),
        !(event is Key) ==> t.ticked(TickEvent::Message(event), now) == t,
        t.ticked(TickEvent::Message(ControllerEvent::Key(KeyAction::Other)), now) == t,
        t.ticked(
            TickEvent::Message(ControllerEvent::Key(KeyAction::Single(Action::Other))),
            now,
        ) == t,
        t.processor.mode_scroll ==> t.ticked(TickEvent::Timeout, now) == t,
        ({
            let u = t.ticked(TickEvent::Timeout, now);
            let m = t.processor.motion;
            let n = u.processor.motion;
            &&& !t.processor.mode_scroll ==> n.scroll_x == 0 && n.scroll_y == 0
            &&& u.gesture == Gesture::Nothing && u.state == t.state
            &&& u.processor.mode_scroll == t.processor.mode_scroll
            &&& u.processor.mode_sniper == t.processor.mode_sniper
            &&& u.processor.mode_adjust == t.processor.mode_adjust
            &&& n.normal_x == m.normal_x && n.normal_y == m.normal_y
            &&& n.last_report_ms == m.last_report_ms
            &&& n.mouse_buttons == m.mouse_buttons
            &&& n.scroll_divisor == m.scroll_divisor
            &&& n.sniper_divisor == m.sniper_divisor
        }),
{
}

/// The end of a middle click brings Sniper mode back if User12 is still down outside Adjust
/// mode, and
/// changes nothing else. The end of any other gesture changes nothing at all.
pub proof fn law_resume(t: Tick)
    ensures
        ({
            let u = t.resumed();
            &&& u.gesture == Gesture::Nothing
            &&& u.state == (TickState { click_pending: false, ..t.state })
            &&& u.processor.motion == t.processor.motion
            &&& u.processor.mode_scroll == t.processor.mode_scroll
            &&& u.processor.mode_adjust == t.processor.mode_adjust
            &&& u.processor.mode_sniper == (t.processor.mode_sniper || (t.state.click_pending
                && t.state.mb2_held && !t.processor.mode_adjust))
        }),
{
}

/// Every message of a button stands for its next press or release: only its own messages
/// change whether it is down, and a press is remembered with its time.
pub proof fn law_buttons_are_followed(t: Tick, kc: KeyCode, now: u32)
    ensures
        ({
            let u = t.keyed(kc, now).state;
            &&& u.mb1_held != t.state.mb1_held <==> kc == KeyCode::MouseBtn1
            &&& u.mb2_held != t.state.mb2_held <==> kc == KeyCode::User12
            &&& u.mb1_press_time == if kc == KeyCode::MouseBtn1 && u.mb1_held {
                now
            } else {
                t.state.mb1_press_time
            }
            &&& u.mb2_press_time == if kc == KeyCode::User12 && u.mb2_held {
                now
            } else {
                t.state.mb2_press_time
            }
        }),
{
}

/// Is this a message of MB1?
pub open spec fn is_mb1_message(input: Input) -> bool {
    input matches Input::Tick(event, _) && event == TickEvent::Message(
        ControllerEvent::Key(KeyAction::Single(Action::Key(KeyCode::MouseBtn1))),
    )
}

/// Nothing but a message of MB1 changes whether MB1 is down, and in the reports.
pub proof fn law_only_mb1_moves_mb1(t: Tick, inputs: Seq<Input>)
    requires
        forall|i: int| 0 <= i < inputs.len() ==> !is_mb1_message(#[trigger] inputs[i]),
    ensures
        t.happened_all(inputs).state.mb1_held == t.state.mb1_held,
        t.happened_all(inputs).processor.motion.mouse_buttons == t.processor.motion.mouse_buttons,
    decreases inputs.len(),
{
    if inputs.len() > 0 {
        let front = inputs.drop_last();
        assert forall|i: int| 0 <= i < front.len() implies !is_mb1_message(#[trigger] front[i]) by {
            assert(front[i] == inputs[i]);
        }
        law_only_mb1_moves_mb1(t, front);
        assert(!is_mb1_message(inputs[inputs.len() - 1]));
    }
}

/// A report carries MB1 from a press outside Adjust mode to its release, in every mode and
/// whatever else happens in between, so that a drag goes on. A press in Adjust mode is never
/// in a report.
pub proof fn law_drag_goes_on(t: Tick, press: u32, inputs: Seq<Input>, event: Event, now: u32)
    requires
        t.coherent(),
        !t.state.mb1_held,
        forall|i: int| 0 <= i < inputs.len() ==> !is_mb1_message(#[trigger] inputs[i]),
    ensures
        ({
            let u = t.keyed(KeyCode::MouseBtn1, press).happened_all(inputs);
            let buttons: u8 = if t.processor.mode_adjust {
                0
            } else {
                1
            };
            &&& u.state.mb1_held
            &&& u.processor.motion.mouse_buttons == buttons
            &&& u.processor.mode() != Mode::Scroll ==> (u.processor.process_report(
                event,
                now,
            ) matches Some(report) ==> report.buttons == buttons)
            &&& u.keyed(KeyCode::MouseBtn1, now).processor.motion.mouse_buttons == 0
        }),
{
    lemma_lowest_bit();
    law_only_mb1_moves_mb1(t.keyed(KeyCode::MouseBtn1, press), inputs);
}

/// A middle click is asked for by the release that ends a combo soon after it began, unless
/// that is the second tap of a double tap, and by nothing else. The release of User12 soon
/// after its press, if that was not part of a combo, asks for a right click outside Adjust
/// mode and for the next Bluetooth profile in it. That of MB1 asks for the first profile in
/// Adjust mode and for nothing outside, whatever User12 does. No other key is ever asked for.
pub proof fn law_who_asks_for_what(t: Tick, kc: KeyCode, now: u32)
    ensures
        ({
            let s = t.state;
            let gesture = t.keyed(kc, now).gesture;
            let released = (kc == KeyCode::MouseBtn1 && s.mb1_held) || (kc == KeyCode::User12
                && s.mb2_held);
            let double = s.last_combo_tap_time matches Some(first) && elapsed_ms(now, first) < 400;
            &&& gesture == Gesture::Mb3Click <==> released && s.combo_active && elapsed_ms(
                now,
                s.combo_start_time,
            ) < 250 && !double
            &&& gesture == Gesture::Mb2Click <==> kc == KeyCode::User12 && s.mb2_held
                && !s.combo_active && !s.mb2_in_combo && !t.processor.mode_adjust && elapsed_ms(
                now,
                s.mb2_press_time,
            ) < 250
            &&& gesture == (Gesture::VirtualKey { row: 0, col: 2 }) <==> kc == KeyCode::MouseBtn1
                && s.mb1_held && !s.combo_active && !s.mb1_in_combo && t.processor.mode_adjust
                && elapsed_ms(now, s.mb1_press_time) < 250
            &&& gesture == (Gesture::VirtualKey { row: 0, col: 3 }) <==> kc == KeyCode::User12
                && s.mb2_held && !s.combo_active && !s.mb2_in_combo && t.processor.mode_adjust
                && elapsed_ms(now, s.mb2_press_time) < 250
            &&& gesture matches Gesture::VirtualKey { row, col } ==> row == 0 && (col == 2 || col
                == 3)
            &&& t.keyed(kc, now).state.click_pending == (s.click_pending || gesture
                == Gesture::Mb3Click)
        }),
{
}

/// Pressing one button less than 100 ms after the other one, which is still down, begins a
/// combo, or leaves Adjust mode. A combo lasts until a button is released. Adjust mode begins
/// with the second tap of a double tap. Both buttons are part of what was pressed together
/// until they are pressed again. The last tap is remembered unless a combo ended otherwise.
pub proof fn law_when_a_combo_is_on(t: Tick, kc: KeyCode, now: u32)
    requires
        t.coherent(),
    ensures
        ({
            let s = t.state;
            let u = t.keyed(kc, now).state;
            let adjust = t.processor.mode_adjust;
            let pressed = (kc == KeyCode::MouseBtn1 && !s.mb1_held) || (kc == KeyCode::User12
                && !s.mb2_held);
            let released = (kc == KeyCode::MouseBtn1 && s.mb1_held) || (kc == KeyCode::User12
                && s.mb2_held);
            let together = pressed && u.mb1_held && u.mb2_held && elapsed_ms(
                now,
                if kc == KeyCode::MouseBtn1 {
                    s.mb2_press_time
                } else {
                    s.mb1_press_time
                },
            ) < 100;
            let ends = s.combo_active && released;
            let tap = ends && elapsed_ms(now, s.combo_start_time) < 250;
            let double = s.last_combo_tap_time matches Some(first) && elapsed_ms(now, first) < 400;
            &&& u.combo_active <==> (together && !adjust) || (s.combo_active && !released)
            &&& u.combo_start_time == if together && !adjust {
                now
            } else {
                s.combo_start_time
            }
            &&& t.keyed(kc, now).processor.mode_adjust <==> (adjust && !together) || (tap && double)
            &&& u.mb1_in_combo <==> together || (s.mb1_in_combo && !(pressed && kc
                == KeyCode::MouseBtn1))
            &&& u.mb2_in_combo <==> together || (s.mb2_in_combo && !(pressed && kc
                == KeyCode::User12))
            &&& u.last_combo_tap_time == if !ends {
                s.last_combo_tap_time
            } else if tap && !double {
                Some(now)
            } else {
                None
            }
        }),
{
}

/// Scroll mode is on during a combo. Sniper mode begins with a press of User12 outside Adjust
/// mode, or with the late end of a combo that leaves User12 down; it ends with the release of
/// User12 or with a combo. A report carries MB1 from a press outside Adjust mode to the
/// release. Where a combo begins or ends no scroll motion is left; otherwise the buttons leave
/// it alone.
pub proof fn law_what_the_buttons_mean(t: Tick, kc: KeyCode, now: u32)
    requires
        t.coherent(),
        !t.state.click_pending,
    ensures
        ({
            let s = t.state;
            let u = t.keyed(kc, now);
            let m = t.processor.motion;
            let n = u.processor.motion;
            let late = elapsed_ms(now, s.combo_start_time) >= 250;
            &&& u.processor.mode_scroll == u.state.combo_active
            &&& u.processor.mode_sniper <==> u.state.mb2_held && !u.state.combo_active && (
            t.processor.mode_sniper || (kc == KeyCode::User12 && !t.processor.mode_adjust) || (
            s.combo_active && late))
            &&& n.mouse_buttons == if kc != KeyCode::MouseBtn1 {
                m.mouse_buttons
            } else if u.state.mb1_held && !t.processor.mode_adjust {
                1
            } else {
                0
            }
            &&& u.state.combo_active != s.combo_active ==> n.scroll_x == 0 && n.scroll_y == 0
            &&& u.state.combo_active == s.combo_active ==> n.scroll_x == m.scroll_x && n.scroll_y
                == m.scroll_y
        }),
{
    lemma_lowest_bit();
}

/// MB1 pressed and released in Sniper mode, too late after User12 to make a combo, is a left
/// click: it asks for nothing and ends where it began.
pub proof fn law_left_click_while_sniping(t: Tick, press: u32, release: u32)
    requires
        t.coherent(),
        !t.state.mb1_held,
        t.processor.mode_sniper,
        elapsed_ms(press, t.state.mb2_press_time) >= COMBO_WINDOW_MS,
    ensures
        ({
            let down = t.keyed(KeyCode::MouseBtn1, press);
            let up = down.keyed(KeyCode::MouseBtn1, release);
            &&& down.gesture == Gesture::Nothing && up.gesture == Gesture::Nothing
            &&& down.processor.mode() == Mode::Sniper && up.processor.mode() == Mode::Sniper
            &&& down.processor.motion.mouse_buttons == 1
            &&& up.processor == t.processor
            &&& up.state.mb2_held && up.state.mb2_press_time == t.state.mb2_press_time
        }),
{
    lemma_lowest_bit();
}

} // verus!
