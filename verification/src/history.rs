//! Histories: what holds of the reports along a series of motions, whatever happens to the
//! mode, the settings and the buttons in between.

use crate::arith::{clamp_i8, div_trunc, elapsed_ms, rem_trunc, wrap_i32};
use crate::arith::{law_wrap, lemma_div_rem_trunc, lemma_wrap_i32_sum};
use crate::event::last_value;
use crate::event::{Axis, AxisEvent, Event, MouseReport};
use crate::motion::{Mode, MotionView};
use crate::motion::{
    NORMAL_REPORT_INTERVAL_MS, SCROLL_DIVISOR_MAX, SCROLL_DIVISOR_MIN, SNIPER_DIVISOR_MAX,
    SNIPER_DIVISOR_MIN,
};
use vstd::prelude::*;

verus! {

/// One step in the history of a [`MotionView`].
pub enum Change {
    /// An input event that was handled in a mode at a time.
    Handled(Mode, Event, u32),
    /// Anything else: settings and buttons have new values, and the scroll motion that no
    /// report has carried may be gone.
    Settled {
        scroll_divisor: int,
        sniper_divisor: int,
        mouse_buttons: u8,
        scroll_forgotten: bool,
    },
}

impl Change {
    /// The step between two states that differ in no more than the settings, the buttons
    /// and the scroll motion.
    pub open spec fn between(before: MotionView, after: MotionView) -> Change {
        Change::Settled {
            scroll_divisor: after.scroll_divisor,
            sniper_divisor: after.sniper_divisor,
            mouse_buttons: after.mouse_buttons,
            scroll_forgotten: after.scroll_x != before.scroll_x || after.scroll_y
                != before.scroll_y,
        }
    }

    /// The divisors stay within their limits.
    pub open spec fn valid(self) -> bool {
        match self {
            Change::Handled(..) => true,
            Change::Settled { scroll_divisor, sniper_divisor, .. } => {
                &&& SCROLL_DIVISOR_MIN <= scroll_divisor <= SCROLL_DIVISOR_MAX
                &&& SNIPER_DIVISOR_MIN <= sniper_divisor <= SNIPER_DIVISOR_MAX
            },
        }
    }

    /// How far the ball went in this step, along X and along Y, if it was in `mode`.
    pub open spec fn way(self, mode: Mode) -> (int, int) {
        match self {
            Change::Handled(m, Event::Joystick(axes), _) => if m == mode {
                (last_value(axes@, Axis::X) as int, last_value(axes@, Axis::Y) as int)
            } else {
                (0, 0)
            },
            _ => (0, 0),
        }
    }
}

/// How far the ball went in `mode`, along X and along Y.
pub open spec fn way(changes: Seq<Change>, mode: Mode) -> (int, int)
    decreases changes.len(),
{
    if changes.len() == 0 {
        (0, 0)
    } else {
        let before = way(changes.drop_last(), mode);
        let last = changes.last().way(mode);
        (before.0 + last.0, before.1 + last.1)
    }
}

impl MotionView {
    /// The state after a step.
    pub open spec fn changed(self, change: Change) -> MotionView {
        match change {
            Change::Handled(mode, event, now) => self.processed(mode, event, now),
            Change::Settled { scroll_divisor, sniper_divisor, mouse_buttons, scroll_forgotten } => {
                let set = MotionView { scroll_divisor, sniper_divisor, mouse_buttons, ..self };
                if scroll_forgotten {
                    set.scroll_cleared()
                } else {
                    set
                }
            },
        }
    }

    /// The report that goes out in a step.
    pub open spec fn sent(self, change: Change) -> Option<MouseReport> {
        match change {
            Change::Handled(mode, event, now) => self.process_report(mode, event, now),
            Change::Settled { .. } => None,
        }
    }

    /// The state after a history.
    pub open spec fn changed_all(self, changes: Seq<Change>) -> MotionView
        decreases changes.len(),
    {
        if changes.len() == 0 {
            self
        } else {
            self.changed_all(changes.drop_last()).changed(changes.last())
        }
    }

    /// The way that the scroll reports of a history stand for, along X and along Y: a
    /// notch stands for as much as the divisor says at that moment, and the wheel turns
    /// against the Y motion.
    pub open spec fn way_scrolled(self, changes: Seq<Change>) -> (int, int)
        decreases changes.len(),
    {
        if changes.len() == 0 {
            (0, 0)
        } else {
            let front = changes.drop_last();
            let before = self.way_scrolled(front);
            let state = self.changed_all(front);
            match state.sent(changes.last()) {
                Some(report) => (
                    before.0 + state.scroll_divisor * report.pan,
                    before.1 - state.scroll_divisor * report.wheel,
                ),
                None => before,
            }
        }
    }

    /// One report can carry all the scroll motion there is after this step, and none is
    /// forgotten.
    pub open spec fn carries(self, change: Change) -> bool {
        match change {
            Change::Handled(mode, event, _) => mode == Mode::Scroll && event is Joystick ==> {
                let (dx, dy) = change.way(Mode::Scroll);
                &&& -128 * self.scroll_divisor < self.scroll_x + dx < 128 * self.scroll_divisor
                &&& -128 * self.scroll_divisor < self.scroll_y + dy < 128 * self.scroll_divisor
            },
            Change::Settled { scroll_forgotten, .. } => !scroll_forgotten,
        }
    }

    /// [`MotionView::carries`], at each step of a history.
    pub open spec fn carries_all(self, changes: Seq<Change>) -> bool
        decreases changes.len(),
    {
        changes.len() > 0 ==> {
            &&& self.carries_all(changes.drop_last())
            &&& self.changed_all(changes.drop_last()).carries(changes.last())
        }
    }

    /// Less than one notch of scroll motion is left over.
    pub open spec fn less_than_a_notch(self) -> bool {
        &&& -self.scroll_divisor < self.scroll_x < self.scroll_divisor
        &&& -self.scroll_divisor < self.scroll_y < self.scroll_divisor
    }

    /// No report of normal mode goes out in a history.
    pub open spec fn all_quiet(self, changes: Seq<Change>) -> bool
        decreases changes.len(),
    {
        changes.len() > 0 ==> {
            &&& self.all_quiet(changes.drop_last())
            &&& changes.last() matches Change::Handled(Mode::Normal, _, _) ==> self.changed_all(
                changes.drop_last(),
            ).sent(changes.last()) is None
        }
    }
}

proof fn lemma_stays_valid(m: MotionView, changes: Seq<Change>)
    requires
        m.wf(),
        forall|i: int| 0 <= i < changes.len() ==> (#[trigger] changes[i]).valid(),
    ensures
        m.changed_all(changes).wf(),
    decreases changes.len(),
{
    if changes.len() > 0 {
        let front = changes.drop_last();
        assert forall|i: int| 0 <= i < front.len() implies (#[trigger] front[i]).valid() by {
            assert(front[i] == changes[i]);
        }
        lemma_stays_valid(m, front);
        assert(changes[changes.len() - 1].valid());
    }
}

proof fn lemma_quotient(piled: int, divisor: int)
    requires
        divisor >= 1,
        -128 * divisor < piled < 128 * divisor,
    ensures
        -127 <= div_trunc(piled, divisor) <= 127,
        divisor * div_trunc(piled, divisor) + rem_trunc(piled, divisor) == piled,
        -divisor < rem_trunc(piled, divisor) < divisor,
        div_trunc(piled, divisor) == 0 ==> rem_trunc(piled, divisor) == piled,
{
    lemma_div_rem_trunc(piled, divisor);
    let q = div_trunc(piled, divisor);
    assert(-128 < q) by (nonlinear_arith)
        requires
            divisor * q + rem_trunc(piled, divisor) == piled,
            rem_trunc(piled, divisor) < divisor,
            -128 * divisor < piled,
            divisor >= 1,
            q == div_trunc(piled, divisor),
            piled < 0 ==> rem_trunc(piled, divisor) <= 0,
            piled >= 0 ==> q >= 0,
    ;
    assert(q < 128) by (nonlinear_arith)
        requires
            divisor * q + rem_trunc(piled, divisor) == piled,
            -divisor < rem_trunc(piled, divisor),
            piled < 128 * divisor,
            divisor >= 1,
            piled >= 0 ==> rem_trunc(piled, divisor) >= 0,
            piled < 0 ==> q <= 0,
    ;
}

/// A motion in scroll mode that one report can carry goes out in whole notches: they and
/// the rest add up to what was there and what came in, and the rest is less than a notch.
pub proof fn law_scroll_sends_whole_notches(m: MotionView, dx: i16, dy: i16)
    requires
        m.wf(),
        -128 * m.scroll_divisor < m.scroll_x + dx < 128 * m.scroll_divisor,
        -128 * m.scroll_divisor < m.scroll_y + dy < 128 * m.scroll_divisor,
    ensures
        ({
            let after = m.scrolled(dx as int, dy as int);
            &&& after.less_than_a_notch()
            &&& match m.scroll_report(dx as int, dy as int) {
                Some(report) => {
                    &&& m.scroll_divisor * report.pan + after.scroll_x == m.scroll_x + dx
                    &&& -(m.scroll_divisor * report.wheel) + after.scroll_y == m.scroll_y + dy
                },
                None => {
                    &&& after.scroll_x == m.scroll_x + dx
                    &&& after.scroll_y == m.scroll_y + dy
                },
            }
        }),
{
    let d = m.scroll_divisor;
    assert(m.piled_x(dx as int) == m.scroll_x + dx);
    assert(m.piled_y(dy as int) == m.scroll_y + dy);
    lemma_quotient(m.scroll_x + dx, d);
    lemma_quotient(m.scroll_y + dy, d);
    let qy = div_trunc(m.scroll_y + dy, d);
    assert(-(d * (-qy)) == d * qy) by (nonlinear_arith);
}

/// Scrolling loses nothing: as long as a report can carry the motion there is and nothing
/// makes the trackball forget it, the notches sent and the rest that is kept add up to the
/// way that the ball has gone in scroll mode. Changes of mode, divisor and buttons do not
/// matter.
pub proof fn law_scroll_keeps_all_motion(m: MotionView, changes: Seq<Change>)
    requires
        m.wf(),
        forall|i: int| 0 <= i < changes.len() ==> (#[trigger] changes[i]).valid(),
        m.carries_all(changes),
    ensures
        m.way_scrolled(changes).0 + m.changed_all(changes).scroll_x == m.scroll_x + way(
            changes,
            Mode::Scroll,
        ).0,
        m.way_scrolled(changes).1 + m.changed_all(changes).scroll_y == m.scroll_y + way(
            changes,
            Mode::Scroll,
        ).1,
    decreases changes.len(),
{
    if changes.len() > 0 {
        let front = changes.drop_last();
        assert forall|i: int| 0 <= i < front.len() implies (#[trigger] front[i]).valid() by {
            assert(front[i] == changes[i]);
        }
        law_scroll_keeps_all_motion(m, front);
        lemma_stays_valid(m, front);
        let state = m.changed_all(front);
        match changes.last() {
            Change::Handled(Mode::Scroll, Event::Joystick(axes), _) => {
                let dx = last_value(axes@, Axis::X);
                let dy = last_value(axes@, Axis::Y);
                law_scroll_sends_whole_notches(state, dx, dy);
            },
            Change::Handled(_, _, _) => {
                assert(state.scroll_divisor * 0 == 0);
            },
            Change::Settled { .. } => {},
        }
    }
}

proof fn lemma_quiet_step(m: MotionView, change: Change)
    requires
        i32::MIN <= m.normal_x <= i32::MAX,
        i32::MIN <= m.normal_y <= i32::MAX,
        change matches Change::Handled(Mode::Normal, _, _) ==> m.sent(change) is None,
    ensures
        m.changed(change).last_report_ms == m.last_report_ms,
        m.changed(change).normal_x == wrap_i32(m.normal_x + change.way(Mode::Normal).0),
        m.changed(change).normal_y == wrap_i32(m.normal_y + change.way(Mode::Normal).1),
{
    match change {
        Change::Handled(Mode::Normal, Event::Joystick(_), _) => {},
        _ => {
            assert(wrap_i32(m.normal_x) == m.normal_x);
            assert(wrap_i32(m.normal_y) == m.normal_y);
        },
    }
}

proof fn lemma_quiet_adds_up(m: MotionView, changes: Seq<Change>)
    requires
        i32::MIN <= m.normal_x <= i32::MAX,
        i32::MIN <= m.normal_y <= i32::MAX,
        m.all_quiet(changes),
    ensures
        m.changed_all(changes).last_report_ms == m.last_report_ms,
        m.changed_all(changes).normal_x == wrap_i32(m.normal_x + way(changes, Mode::Normal).0),
        m.changed_all(changes).normal_y == wrap_i32(m.normal_y + way(changes, Mode::Normal).1),
    decreases changes.len(),
{
    if changes.len() > 0 {
        let front = changes.drop_last();
        lemma_quiet_adds_up(m, front);
        let state = m.changed_all(front);
        let before = way(front, Mode::Normal);
        let step = changes.last().way(Mode::Normal);
        lemma_wrap_i32_sum(m.normal_x + before.0, step.0);
        lemma_wrap_i32_sum(m.normal_y + before.1, step.1);
        lemma_quiet_step(state, changes.last());
    }
}

/// Normal mode sends its reports at least the interval apart, and each of them carries all
/// the motion of normal mode since the last one, as far as it fits. Whatever happens in
/// between, also in other modes, does not matter. The sum is kept in 32 bits.
pub proof fn law_normal_reports(
    m: MotionView,
    first: (Event, u32),
    between: Seq<Change>,
    second: (Event, u32),
)
    requires
        m.sent(Change::Handled(Mode::Normal, first.0, first.1)) is Some,
        m.changed(Change::Handled(Mode::Normal, first.0, first.1)).all_quiet(between),
        m.changed(Change::Handled(Mode::Normal, first.0, first.1)).changed_all(between).sent(
            Change::Handled(Mode::Normal, second.0, second.1),
        ) is Some,
    ensures
        ({
            let last = Change::Handled(Mode::Normal, second.0, second.1);
            let after = m.changed(Change::Handled(Mode::Normal, first.0, first.1));
            let report = after.changed_all(between).sent(last)->0;
            let (x, y) = way(between.push(last), Mode::Normal);
            &&& elapsed_ms(second.1, first.1) >= NORMAL_REPORT_INTERVAL_MS
            &&& report.x == clamp_i8(wrap_i32(x))
            &&& report.y == clamp_i8(wrap_i32(y))
            &&& i32::MIN <= x <= i32::MAX ==> report.x == clamp_i8(x)
            &&& i32::MIN <= y <= i32::MAX ==> report.y == clamp_i8(y)
        }),
{
    let last = Change::Handled(Mode::Normal, second.0, second.1);
    let after = m.changed(Change::Handled(Mode::Normal, first.0, first.1));
    lemma_quiet_adds_up(after, between);
    let step = last.way(Mode::Normal);
    lemma_wrap_i32_sum(way(between, Mode::Normal).0, step.0);
    lemma_wrap_i32_sum(way(between, Mode::Normal).1, step.1);
    assert(between.push(last).drop_last() == between);
}

/// After a report of normal mode the next one is owed as soon as the interval is over and the
/// motion of normal mode since then leads anywhere: the first motion that comes then sends
/// it, and no motion before. Whatever happens in between, also in other modes, does not
/// matter.
pub proof fn law_normal_report_is_owed(
    m: MotionView,
    first: (Event, u32),
    between: Seq<Change>,
    axes: [AxisEvent; 3],
    now: u32,
)
    requires
        m.sent(Change::Handled(Mode::Normal, first.0, first.1)) is Some,
        m.changed(Change::Handled(Mode::Normal, first.0, first.1)).all_quiet(between),
    ensures
        ({
            let last = Change::Handled(Mode::Normal, Event::Joystick(axes), now);
            let after = m.changed(Change::Handled(Mode::Normal, first.0, first.1));
            let (x, y) = way(between.push(last), Mode::Normal);
            after.changed_all(between).sent(last) is Some <==> elapsed_ms(now, first.1)
                >= NORMAL_REPORT_INTERVAL_MS && (x % 0x1_0000_0000 != 0 || y % 0x1_0000_0000 != 0)
        }),
{
    let last = Change::Handled(Mode::Normal, Event::Joystick(axes), now);
    let after = m.changed(Change::Handled(Mode::Normal, first.0, first.1));
    lemma_quiet_adds_up(after, between);
    let step = last.way(Mode::Normal);
    let before = way(between, Mode::Normal);
    lemma_wrap_i32_sum(before.0, step.0);
    lemma_wrap_i32_sum(before.1, step.1);
    law_wrap(before.0 + step.0, 0);
    law_wrap(before.1 + step.1, 0);
    assert(between.push(last).drop_last() == between);
}

} // verus!
