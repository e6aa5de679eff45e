//! From ball motion to mouse reports: scrolling, slow and normal pointing.

use crate::arith::{clamp_to_i8, elapsed, low_byte, low_byte_of_negated};
use crate::arith::{law_division_truncates, law_quotient_is_unique, law_wrap};
use crate::arith::{
    clamp_i8, div_trunc, elapsed_ms, lemma_div_rem_trunc, rem_trunc, wrap_i32, wrap_i8,
};
use crate::atomic::AtomicI32;
use crate::event::{displacement, last_value};
use crate::event::{Axis, AxisEvent, Event, MouseReport, ProcessResult};
use vstd::prelude::*;

verus! {

/// The scroll divisor at power-on. A higher divisor scrolls slower.
pub const SCROLL_DIVISOR_DEFAULT: u32 = 5;

pub const SCROLL_DIVISOR_MIN: u32 = 1;

pub const SCROLL_DIVISOR_MAX: u32 = 32;

/// The sniper divisor at power-on. A higher divisor moves the cursor slower.
pub const SNIPER_DIVISOR_DEFAULT: u32 = 4;

pub const SNIPER_DIVISOR_MIN: u32 = 1;

pub const SNIPER_DIVISOR_MAX: u32 = 16;

/// The least time between two reports in normal mode.
pub const NORMAL_REPORT_INTERVAL_MS: u32 = 16;

/// What the ball does.
#[derive(Clone, Copy, Debug, PartialEq, Eq, Structural)]
pub enum Mode {
    /// It moves the cursor.
    Normal,
    /// It turns the wheel.
    Scroll,
    /// It moves the cursor slowly.
    Sniper,
}

/// The settings and the motion that no report has carried yet.
pub struct Motion {
    pub scroll_divisor: u32,
    pub sniper_divisor: u32,
    /// The mouse buttons that are down, one bit each.
    pub mouse_buttons: u8,
    pub scroll_accum_x: AtomicI32,
    pub scroll_accum_y: AtomicI32,
    pub normal_accum_x: AtomicI32,
    pub normal_accum_y: AtomicI32,
    /// When normal mode last sent a report.
    pub last_normal_report_ms: u32,
}

/// A [`Motion`] in numbers.
pub struct MotionView {
    pub scroll_divisor: int,
    pub sniper_divisor: int,
    pub mouse_buttons: u8,
    pub scroll_x: int,
    pub scroll_y: int,
    pub normal_x: int,
    pub normal_y: int,
    pub last_report_ms: u32,
}

impl View for Motion {
    type V = MotionView;

    open spec fn view(&self) -> MotionView {
        MotionView {
            scroll_divisor: self.scroll_divisor as int,
            sniper_divisor: self.sniper_divisor as int,
            mouse_buttons: self.mouse_buttons,
            scroll_x: self.scroll_accum_x@ as int,
            scroll_y: self.scroll_accum_y@ as int,
            normal_x: self.normal_accum_x@ as int,
            normal_y: self.normal_accum_y@ as int,
            last_report_ms: self.last_normal_report_ms,
        }
    }
}

impl MotionView {
    /// Both divisors are within their limits.
    pub open spec fn wf(self) -> bool {
        &&& SCROLL_DIVISOR_MIN <= self.scroll_divisor <= SCROLL_DIVISOR_MAX
        &&& SNIPER_DIVISOR_MIN <= self.sniper_divisor <= SNIPER_DIVISOR_MAX
    }

    /// The state at power-on.
    pub open spec fn initial() -> MotionView {
        MotionView {
            scroll_divisor: SCROLL_DIVISOR_DEFAULT as int,
            sniper_divisor: SNIPER_DIVISOR_DEFAULT as int,
            mouse_buttons: 0,
            scroll_x: 0,
            scroll_y: 0,
            normal_x: 0,
            normal_y: 0,
            last_report_ms: 0,
        }
    }

    /// The state with no scroll motion left over.
    pub open spec fn scroll_cleared(self) -> MotionView {
        MotionView { scroll_x: 0, scroll_y: 0, ..self }
    }

    /// The state with other mouse buttons down.
    pub open spec fn with_buttons(self, buttons: u8) -> MotionView {
        MotionView { mouse_buttons: buttons, ..self }
    }

    /// The state after the setting key with number `keycode_idx`: 8 and 9 move the
    /// scroll divisor up and down, 10 and 11 the sniper divisor, never past a limit.
    pub open spec fn adjusted(self, keycode_idx: u8) -> MotionView {
        if keycode_idx == 8 && self.scroll_divisor < SCROLL_DIVISOR_MAX {
            MotionView { scroll_divisor: self.scroll_divisor + 1, ..self }
        } else if keycode_idx == 9 && self.scroll_divisor > SCROLL_DIVISOR_MIN {
            MotionView { scroll_divisor: self.scroll_divisor - 1, ..self }
        } else if keycode_idx == 10 && self.sniper_divisor < SNIPER_DIVISOR_MAX {
            MotionView { sniper_divisor: self.sniper_divisor + 1, ..self }
        } else if keycode_idx == 11 && self.sniper_divisor > SNIPER_DIVISOR_MIN {
            MotionView { sniper_divisor: self.sniper_divisor - 1, ..self }
        } else {
            self
        }
    }

    /// The scroll motion that has piled up along X once `dx` came in.
    pub open spec fn piled_x(self, dx: int) -> int {
        wrap_i32(self.scroll_x + dx)
    }

    /// The scroll motion that has piled up along Y once `dy` came in.
    pub open spec fn piled_y(self, dy: int) -> int {
        wrap_i32(self.scroll_y + dy)
    }

    /// The sideways scroll of the report for a motion.
    pub open spec fn pan(self, dx: int) -> int {
        wrap_i8(div_trunc(self.piled_x(dx), self.scroll_divisor))
    }

    /// The wheel turn of the report for a motion, opposite in sign to the Y motion.
    pub open spec fn wheel(self, dy: int) -> int {
        wrap_i8(-div_trunc(self.piled_y(dy), self.scroll_divisor))
    }

    /// The report that scroll mode sends for a motion; none if it would be empty.
    pub open spec fn scroll_report(self, dx: int, dy: int) -> Option<MouseReport> {
        if self.wheel(dy) != 0 || self.pan(dx) != 0 {
            Some(
                MouseReport {
                    buttons: 0,
                    x: 0,
                    y: 0,
                    wheel: self.wheel(dy) as i8,
                    pan: self.pan(dx) as i8,
                },
            )
        } else {
            None
        }
    }

    /// The state after a motion in scroll mode: a report leaves the remainders behind,
    /// without one the motion piles up.
    pub open spec fn scrolled(self, dx: int, dy: int) -> MotionView {
        if self.scroll_report(dx, dy) is Some {
            MotionView {
                scroll_x: rem_trunc(self.piled_x(dx), self.scroll_divisor),
                scroll_y: rem_trunc(self.piled_y(dy), self.scroll_divisor),
                ..self
            }
        } else {
            MotionView { scroll_x: self.piled_x(dx), scroll_y: self.piled_y(dy), ..self }
        }
    }

    /// The report that sniper mode sends for a motion; none if the cursor would stay.
    pub open spec fn sniper_report(self, dx: int, dy: int) -> Option<MouseReport> {
        let slow_dx = div_trunc(dx, self.sniper_divisor);
        let slow_dy = div_trunc(dy, self.sniper_divisor);
        if slow_dx != 0 || slow_dy != 0 {
            Some(
                MouseReport {
                    buttons: self.mouse_buttons,
                    x: clamp_i8(slow_dx) as i8,
                    y: clamp_i8(slow_dy) as i8,
                    wheel: 0,
                    pan: 0,
                },
            )
        } else {
            None
        }
    }

    /// The report that normal mode sends for a motion at time `now`: none before the
    /// interval is over, and none if the cursor would stay.
    pub open spec fn normal_report(self, dx: int, dy: int, now: u32) -> Option<MouseReport> {
        let x = wrap_i32(self.normal_x + dx);
        let y = wrap_i32(self.normal_y + dy);
        if elapsed_ms(now, self.last_report_ms) >= NORMAL_REPORT_INTERVAL_MS && (x != 0 || y != 0) {
            Some(
                MouseReport {
                    buttons: self.mouse_buttons,
                    x: clamp_i8(x) as i8,
                    y: clamp_i8(y) as i8,
                    wheel: 0,
                    pan: 0,
                },
            )
        } else {
            None
        }
    }

    /// The state after a motion in normal mode at time `now`.
    pub open spec fn moved(self, dx: int, dy: int, now: u32) -> MotionView {
        if self.normal_report(dx, dy, now) is Some {
            MotionView { normal_x: 0, normal_y: 0, last_report_ms: now, ..self }
        } else {
            MotionView {
                normal_x: wrap_i32(self.normal_x + dx),
                normal_y: wrap_i32(self.normal_y + dy),
                ..self
            }
        }
    }

    /// The state after an input event.
    pub open spec fn processed(self, mode: Mode, event: Event, now: u32) -> MotionView {
        match event {
            Event::Joystick(axes) => {
                let dx = last_value(axes@, Axis::X) as int;
                let dy = last_value(axes@, Axis::Y) as int;
                match mode {
                    Mode::Normal => self.moved(dx, dy, now),
                    Mode::Scroll => self.scrolled(dx, dy),
                    Mode::Sniper => self,
                }
            },
            Event::Other => self,
        }
    }

    /// The report for an input event.
    pub open spec fn process_report(self, mode: Mode, event: Event, now: u32) -> Option<
        MouseReport,
    > {
        match event {
            Event::Joystick(axes) => {
                let dx = last_value(axes@, Axis::X) as int;
                let dy = last_value(axes@, Axis::Y) as int;
                match mode {
                    Mode::Normal => self.normal_report(dx, dy, now),
                    Mode::Scroll => self.scroll_report(dx, dy),
                    Mode::Sniper => self.sniper_report(dx, dy),
                }
            },
            Event::Other => None,
        }
    }
}

/// Motion events end here, all others go on to the next processor.
pub open spec fn process_result(event: Event) -> ProcessResult {
    match event {
        Event::Joystick(_) => ProcessResult::Stop,
        Event::Other => ProcessResult::Continue,
    }
}

impl Motion {
    /// The state at power-on.
    pub fn new() -> (motion: Self)
        ensures
            motion@ == MotionView::initial(),
            motion@.wf(),
    {
        Motion {
            scroll_divisor: SCROLL_DIVISOR_DEFAULT,
            sniper_divisor: SNIPER_DIVISOR_DEFAULT,
            mouse_buttons: 0,
            scroll_accum_x: AtomicI32::new(0),
            scroll_accum_y: AtomicI32::new(0),
            normal_accum_x: AtomicI32::new(0),
            normal_accum_y: AtomicI32::new(0),
            last_normal_report_ms: 0,
        }
    }

    /// Forgets the scroll motion that no report has carried.
    pub fn clear_scroll(&mut self)
        ensures
            final(self)@ == old(self)@.scroll_cleared(),
    {
        self.scroll_accum_x.store(0);
        self.scroll_accum_y.store(0);
    }

    /// Applies the setting key with number `keycode_idx`.
    pub fn adjust(&mut self, keycode_idx: u8)
        requires
            old(self)@.wf(),
        ensures
            final(self)@ == old(self)@.adjusted(keycode_idx),
            final(self)@.wf(),
    {
        match keycode_idx {
            8 => {
                self.scroll_divisor = (self.scroll_divisor + 1).min(SCROLL_DIVISOR_MAX);
            },
            9 => {
                self.scroll_divisor = self.scroll_divisor.saturating_sub(1).max(SCROLL_DIVISOR_MIN);
            },
            10 => {
                self.sniper_divisor = (self.sniper_divisor + 1).min(SNIPER_DIVISOR_MAX);
            },
            11 => {
                self.sniper_divisor = self.sniper_divisor.saturating_sub(1).max(SNIPER_DIVISOR_MIN);
            },
            _ => {},
        }
    }

    /// Turns the wheel by a motion of the ball.
    pub fn scroll(&mut self, dx: i16, dy: i16) -> (report: Option<MouseReport>)
        requires
            old(self)@.wf(),
        ensures
            final(self)@ == old(self)@.scrolled(dx as int, dy as int),
            report == old(self)@.scroll_report(dx as int, dy as int),
    {
        let divisor: i32 = self.scroll_divisor as i32;
        self.scroll_accum_x.fetch_add(dx as i32);
        self.scroll_accum_y.fetch_add(dy as i32);
        let acc_x: i32 = self.scroll_accum_x.load();
        let acc_y: i32 = self.scroll_accum_y.load();

        let wheel: i8 = low_byte_of_negated(acc_y / divisor);
        let pan: i8 = low_byte(acc_x / divisor);

        if wheel != 0 || pan != 0 {
            self.scroll_accum_x.store(acc_x % divisor);
            self.scroll_accum_y.store(acc_y % divisor);
            Some(MouseReport { buttons: 0, x: 0, y: 0, wheel, pan })
        } else {
            None
        }
    }

    /// Moves the cursor slowly by a motion of the ball.
    pub fn snipe(&self, dx: i16, dy: i16) -> (report: Option<MouseReport>)
        requires
            self@.wf(),
        ensures
            report == self@.sniper_report(dx as int, dy as int),
    {
        let divisor: i16 = self.sniper_divisor as i16;
        let slow_dx: i16 = dx / divisor;
        let slow_dy: i16 = dy / divisor;

        if slow_dx != 0 || slow_dy != 0 {
            Some(
                MouseReport {
                    buttons: self.mouse_buttons,
                    x: clamp_to_i8(slow_dx as i32),
                    y: clamp_to_i8(slow_dy as i32),
                    wheel: 0,
                    pan: 0,
                },
            )
        } else {
            None
        }
    }

    /// Moves the cursor by a motion of the ball, not more often than the interval
    /// allows.
    pub fn point(&mut self, dx: i16, dy: i16, now: u32) -> (report: Option<MouseReport>)
        ensures
            final(self)@ == old(self)@.moved(dx as int, dy as int, now),
            report == old(self)@.normal_report(dx as int, dy as int, now),
    {
        self.normal_accum_x.fetch_add(dx as i32);
        self.normal_accum_y.fetch_add(dy as i32);

        if elapsed(now, self.last_normal_report_ms) >= NORMAL_REPORT_INTERVAL_MS {
            let acc_x: i32 = self.normal_accum_x.load();
            let acc_y: i32 = self.normal_accum_y.load();
            if acc_x != 0 || acc_y != 0 {
                self.normal_accum_x.store(0);
                self.normal_accum_y.store(0);
                self.last_normal_report_ms = now;
                return Some(
                    MouseReport {
                        buttons: self.mouse_buttons,
                        x: clamp_to_i8(acc_x),
                        y: clamp_to_i8(acc_y),
                        wheel: 0,
                        pan: 0,
                    },
                );
            }
        }
        None
    }

    /// Handles an input event in the given mode at time `now`.
    pub fn process(&mut self, mode: Mode, event: Event, now: u32) -> (out: (
        ProcessResult,
        Option<MouseReport>,
    ))
        requires
            old(self)@.wf(),
        ensures
            final(self)@ == old(self)@.processed(mode, event, now),
            out.0 == process_result(event),
            out.1 == old(self)@.process_report(mode, event, now),
            final(self)@.wf(),
    {
        match event {
            Event::Other => (ProcessResult::Continue, None),
            Event::Joystick(axes) => {
                let (dx, dy): (i16, i16) = displacement(&axes);
                let report = match mode {
                    Mode::Scroll => self.scroll(dx, dy),
                    Mode::Sniper => self.snipe(dx, dy),
                    Mode::Normal => self.point(dx, dy, now),
                };
                (ProcessResult::Stop, report)
            },
        }
    }
}

/// Sniper mode never moves the cursor further than the ball went, nor the other way,
/// and with a divisor of 1 a short motion goes through unchanged.
pub proof fn law_sniper_slows_down(m: MotionView, dx: i16, dy: i16)
    requires
        m.wf(),
    ensures
        match m.sniper_report(dx as int, dy as int) {
            Some(report) => {
                &&& dx >= 0 ==> 0 <= report.x <= dx
                &&& dx <= 0 ==> dx <= report.x <= 0
                &&& dy >= 0 ==> 0 <= report.y <= dy
                &&& dy <= 0 ==> dy <= report.y <= 0
            },
            None => -m.sniper_divisor < dx < m.sniper_divisor && -m.sniper_divisor < dy
                < m.sniper_divisor,
        },
        m.sniper_divisor == 1 && -128 <= dx <= 127 && -128 <= dy <= 127 && (dx != 0 || dy != 0)
            ==> m.sniper_report(dx as int, dy as int) == Some(
            (MouseReport {
                buttons: m.mouse_buttons,
                x: dx as i8,
                y: dy as i8,
                wheel: 0,
                pan: 0,
            }),
        ),
{
    let d = m.sniper_divisor;
    lemma_slower(dx as int, d);
    lemma_slower(dy as int, d);
}

proof fn lemma_slower(a: int, d: int)
    requires
        d >= 1,
    ensures
        a >= 0 ==> 0 <= div_trunc(a, d) <= a,
        a <= 0 ==> a <= div_trunc(a, d) <= 0,
        d == 1 ==> div_trunc(a, d) == a,
        div_trunc(a, d) == 0 ==> -d < a < d,
{
    lemma_div_rem_trunc(a, d);
    let n = if a >= 0 {
        a
    } else {
        -a
    };
    assert(0 <= n / d <= n) by (nonlinear_arith)
        requires
            n >= 0,
            d >= 1,
    ;
}

/// A report either scrolls or points, never both: one of scroll mode has no buttons and
/// leaves the cursor where it is, one of the other modes carries the buttons and leaves
/// the wheel alone. No report is empty.
pub proof fn law_reports_scroll_or_point(m: MotionView, mode: Mode, event: Event, now: u32)
    requires
        m.wf(),
    ensures
        match m.process_report(mode, event, now) {
            Some(report) => if mode == Mode::Scroll {
                &&& report.buttons == 0 && report.x == 0 && report.y == 0
                &&& report.wheel != 0 || report.pan != 0
            } else {
                &&& report.buttons == m.mouse_buttons && report.wheel == 0 && report.pan == 0
                &&& report.x != 0 || report.y != 0
            },
            None => true,
        },
{
}

/// A setting key and its counterpart undo each other, except at the limit that stops the
/// first one.
pub proof fn law_settings_undo(m: MotionView)
    requires
        m.wf(),
    ensures
        m.scroll_divisor < SCROLL_DIVISOR_MAX ==> m.adjusted(8).adjusted(9) == m,
        m.scroll_divisor > SCROLL_DIVISOR_MIN ==> m.adjusted(9).adjusted(8) == m,
        m.sniper_divisor < SNIPER_DIVISOR_MAX ==> m.adjusted(10).adjusted(11) == m,
        m.sniper_divisor > SNIPER_DIVISOR_MIN ==> m.adjusted(11).adjusted(10) == m,
{
}

/// In normal mode a motion that comes when the interval since the last report is over sends
/// a report exactly if the motion that has summed up since then leads anywhere, in whatever
/// direction. Before that nothing goes out.
///
/// `x` and `y` are the sums, in 32 bits.
pub proof fn law_normal_mode_sends_when_due(
    m: MotionView,
    axes: [AxisEvent; 3],
    now: u32,
    x: i32,
    y: i32,
)
    requires
        (m.normal_x + last_value(axes@, Axis::X) - x) % 0x1_0000_0000 == 0,
        (m.normal_y + last_value(axes@, Axis::Y) - y) % 0x1_0000_0000 == 0,
    ensures
        m.process_report(Mode::Normal, Event::Joystick(axes), now) is Some <==> elapsed_ms(
            now,
            m.last_report_ms,
        ) >= NORMAL_REPORT_INTERVAL_MS && (x != 0 || y != 0),
{
    law_wrap(m.normal_x + last_value(axes@, Axis::X), x as int);
    law_wrap(m.normal_y + last_value(axes@, Axis::Y), y as int);
}

/// A report of normal mode carries the buttons and the summed up motion, each axis as far as
/// it fits into a byte, and nothing is left of the sum. Without a report the sum and the time
/// of the last report stay. Settings, buttons and scroll motion are not touched.
pub proof fn law_normal_mode_carries_the_sum(
    m: MotionView,
    axes: [AxisEvent; 3],
    now: u32,
    x: i32,
    y: i32,
)
    requires
        (m.normal_x + last_value(axes@, Axis::X) - x) % 0x1_0000_0000 == 0,
        (m.normal_y + last_value(axes@, Axis::Y) - y) % 0x1_0000_0000 == 0,
    ensures
        ({
            let after = m.processed(Mode::Normal, Event::Joystick(axes), now);
            &&& match m.process_report(Mode::Normal, Event::Joystick(axes), now) {
                Some(report) => {
                    &&& report.buttons == m.mouse_buttons
                    &&& report.wheel == 0 && report.pan == 0
                    &&& -128 <= x <= 127 ==> report.x == x
                    &&& x > 127 ==> report.x == 127
                    &&& x < -128 ==> report.x == -128
                    &&& -128 <= y <= 127 ==> report.y == y
                    &&& y > 127 ==> report.y == 127
                    &&& y < -128 ==> report.y == -128
                    &&& after.normal_x == 0 && after.normal_y == 0
                    &&& after.last_report_ms == now
                },
                None => {
                    &&& after.normal_x == x && after.normal_y == y
                    &&& after.last_report_ms == m.last_report_ms
                },
            }
            &&& after.scroll_x == m.scroll_x && after.scroll_y == m.scroll_y
            &&& after.scroll_divisor == m.scroll_divisor
            &&& after.sniper_divisor == m.sniper_divisor
            &&& after.mouse_buttons == m.mouse_buttons
        }),
{
    law_wrap(m.normal_x + last_value(axes@, Axis::X), x as int);
    law_wrap(m.normal_y + last_value(axes@, Axis::Y), y as int);
}

/// Sniper mode moves the cursor by the way of the ball, divided by the divisor in force and
/// rounded towards zero, as far as it fits into a byte. A motion shorter than the divisor
/// along both axes sends nothing, any other one does. The state stays as it is.
pub proof fn law_sniper_mode_divides(m: MotionView, axes: [AxisEvent; 3], now: u32)
    requires
        m.wf(),
    ensures
        ({
            let d = m.sniper_divisor;
            let dx = last_value(axes@, Axis::X);
            let dy = last_value(axes@, Axis::Y);
            &&& match m.process_report(Mode::Sniper, Event::Joystick(axes), now) {
                Some(report) => {
                    &&& dx >= d || dx <= -d || dy >= d || dy <= -d
                    &&& report.buttons == m.mouse_buttons
                    &&& report.wheel == 0 && report.pan == 0
                    &&& dx >= 0 ==> report.x >= 0 && d * report.x <= dx
                    &&& dx >= 0 && report.x < 127 ==> dx < d * report.x + d
                    &&& dx <= 0 ==> report.x <= 0 && dx <= d * report.x
                    &&& dx <= 0 && report.x > -128 ==> d * report.x - d < dx
                    &&& dy >= 0 ==> report.y >= 0 && d * report.y <= dy
                    &&& dy >= 0 && report.y < 127 ==> dy < d * report.y + d
                    &&& dy <= 0 ==> report.y <= 0 && dy <= d * report.y
                    &&& dy <= 0 && report.y > -128 ==> d * report.y - d < dy
                },
                None => -d < dx < d && -d < dy < d,
            }
            &&& m.processed(Mode::Sniper, Event::Joystick(axes), now) == m
        }),
{
    let d = m.sniper_divisor;
    lemma_clamped_quotient(last_value(axes@, Axis::X) as int, d);
    lemma_clamped_quotient(last_value(axes@, Axis::Y) as int, d);
}

proof fn lemma_clamped_quotient(a: int, d: int)
    requires
        d >= 1,
    ensures
        ({
            let x = clamp_i8(div_trunc(a, d));
            &&& div_trunc(a, d) == 0 <==> -d < a < d
            &&& a >= 0 ==> x >= 0 && d * x <= a
            &&& a >= 0 && x < 127 ==> a < d * x + d
            &&& a <= 0 ==> x <= 0 && a <= d * x
            &&& a <= 0 && x > -128 ==> d * x - d < a
        }),
{
    law_division_truncates(a, d);
    let q = div_trunc(a, d);
    let x = clamp_i8(q);
    assert(q == 0 <==> -d < a < d) by (nonlinear_arith)
        requires
            d >= 1,
            a >= 0 ==> q >= 0 && d * q <= a < d * q + d,
            a <= 0 ==> q <= 0 && d * q - d < a <= d * q,
    ;
    if q > 127 {
        assert(d * 127 <= d * q) by (nonlinear_arith)
            requires
                q > 127,
                d >= 1,
        ;
    }
    if q < -128 {
        assert(d * q <= d * -128) by (nonlinear_arith)
            requires
                q < -128,
                d >= 1,
        ;
    }
}

/// A higher sniper divisor never moves the cursor further.
pub proof fn law_higher_divisor_is_slower(m: MotionView, n: MotionView, dx: i16, dy: i16)
    requires
        m.wf(),
        n.wf(),
        m.sniper_divisor <= n.sniper_divisor,
    ensures
        n.sniper_report(dx as int, dy as int) matches Some(slow) ==> {
            &&& m.sniper_report(dx as int, dy as int) matches Some(fast)
            &&& dx >= 0 ==> slow.x <= fast.x
            &&& dx <= 0 ==> fast.x <= slow.x
            &&& dy >= 0 ==> slow.y <= fast.y
            &&& dy <= 0 ==> fast.y <= slow.y
        },
{
    lemma_slower_quotient(dx as int, m.sniper_divisor, n.sniper_divisor);
    lemma_slower_quotient(dy as int, m.sniper_divisor, n.sniper_divisor);
}

proof fn lemma_slower_quotient(a: int, d: int, e: int)
    requires
        1 <= d <= e,
    ensures
        a >= 0 ==> 0 <= div_trunc(a, e) <= div_trunc(a, d),
        a <= 0 ==> div_trunc(a, d) <= div_trunc(a, e) <= 0,
{
    law_division_truncates(a, d);
    law_division_truncates(a, e);
    let p = div_trunc(a, d);
    let q = div_trunc(a, e);
    assert(a >= 0 ==> q <= p) by (nonlinear_arith)
        requires
            1 <= d <= e,
            a >= 0 ==> p >= 0 && q >= 0 && e * q <= a < d * p + d,
    ;
    assert(a <= 0 ==> p <= q) by (nonlinear_arith)
        requires
            1 <= d <= e,
            a <= 0 ==> p <= 0 && q <= 0 && d * p - d < a <= e * q,
    ;
}

/// Scroll mode adds the motion to what is left over and turns whole notches of it into a
/// report, in the low byte of each number and with the wheel against the Y motion. A report
/// goes out exactly if one of these bytes is not zero; it leaves what does not make a notch.
/// Without one everything is kept. Nothing else is touched, and the time does not matter.
///
/// `x` and `y` are the sums in 32 bits, `notches_x` and `notches_y` how often the divisor
/// goes into them.
pub proof fn law_scroll_mode_counts_notches(
    m: MotionView,
    axes: [AxisEvent; 3],
    now: u32,
    x: i32,
    y: i32,
    notches_x: int,
    notches_y: int,
)
    requires
        m.wf(),
        (m.scroll_x + last_value(axes@, Axis::X) - x) % 0x1_0000_0000 == 0,
        (m.scroll_y + last_value(axes@, Axis::Y) - y) % 0x1_0000_0000 == 0,
        ({
            let d = m.scroll_divisor;
            &&& x >= 0 ==> notches_x >= 0 && d * notches_x <= x < d * notches_x + d
            &&& x <= 0 ==> notches_x <= 0 && d * notches_x - d < x <= d * notches_x
            &&& y >= 0 ==> notches_y >= 0 && d * notches_y <= y < d * notches_y + d
            &&& y <= 0 ==> notches_y <= 0 && d * notches_y - d < y <= d * notches_y
        }),
    ensures
        ({
            let d = m.scroll_divisor;
            let after = m.processed(Mode::Scroll, Event::Joystick(axes), now);
            &&& match m.process_report(Mode::Scroll, Event::Joystick(axes), now) {
                Some(report) => {
                    &&& notches_x % 256 != 0 || notches_y % 256 != 0
                    &&& report.buttons == 0 && report.x == 0 && report.y == 0
                    &&& (report.pan - notches_x) % 256 == 0
                    &&& (report.wheel + notches_y) % 256 == 0
                    &&& after.scroll_x == x - d * notches_x
                    &&& after.scroll_y == y - d * notches_y
                },
                None => {
                    &&& notches_x % 256 == 0 && notches_y % 256 == 0
                    &&& after.scroll_x == x && after.scroll_y == y
                },
            }
            &&& after.normal_x == m.normal_x && after.normal_y == m.normal_y
            &&& after.last_report_ms == m.last_report_ms
            &&& after.scroll_divisor == m.scroll_divisor
            &&& after.sniper_divisor == m.sniper_divisor
            &&& after.mouse_buttons == m.mouse_buttons
        }),
{
    let d = m.scroll_divisor;
    law_wrap(m.scroll_x + last_value(axes@, Axis::X), x as int);
    law_wrap(m.scroll_y + last_value(axes@, Axis::Y), y as int);
    law_quotient_is_unique(x as int, d, notches_x);
    law_quotient_is_unique(y as int, d, notches_y);
    law_division_truncates(x as int, d);
    law_division_truncates(y as int, d);
    law_wrap(notches_x, 0);
    law_wrap(-notches_y, 0);
}

/// What is no motion of the ball passes by: no report, no change, and the next processor
/// gets it. A motion ends here, in every mode.
pub proof fn law_other_events_pass(m: MotionView, mode: Mode, axes: [AxisEvent; 3], now: u32)
    ensures
        m.process_report(mode, Event::Other, now) is None,
        m.processed(mode, Event::Other, now) == m,
        process_result(Event::Other) == ProcessResult::Continue,
        process_result(Event::Joystick(axes)) == ProcessResult::Stop,
{
}

/// Keys 8 and 10 raise the scroll and the sniper divisor by one, 9 and 11 lower them by one,
/// and at its limit a divisor stays. Nothing else changes, and other keys change nothing.
pub proof fn law_setting_keys(m: MotionView, keycode_idx: u8)
    requires
        m.wf(),
    ensures
        ({
            let n = m.adjusted(keycode_idx);
            &&& n.scroll_divisor - m.scroll_divisor == if keycode_idx == 8 && m.scroll_divisor
                != SCROLL_DIVISOR_MAX {
                1int
            } else if keycode_idx == 9 && m.scroll_divisor != SCROLL_DIVISOR_MIN {
                -1
            } else {
                0
            }
            &&& n.sniper_divisor - m.sniper_divisor == if keycode_idx == 10 && m.sniper_divisor
                != SNIPER_DIVISOR_MAX {
                1int
            } else if keycode_idx == 11 && m.sniper_divisor != SNIPER_DIVISOR_MIN {
                -1
            } else {
                0
            }
            &&& n.mouse_buttons == m.mouse_buttons
            &&& n.scroll_x == m.scroll_x && n.scroll_y == m.scroll_y
            &&& n.normal_x == m.normal_x && n.normal_y == m.normal_y
            &&& n.last_report_ms == m.last_report_ms
        }),
{
}

} // verus!
