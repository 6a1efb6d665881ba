//! A whole session as a history of calls on one timer.
//!
//! Each method of [`Timer`](crate::timer::Timer) that changes it states the
//! new view as a function of the old one and the reading it was given. A
//! session is such a chain of calls, so what holds of a session is stated
//! here over a replay of those functions from the view the timer starts with.

use vstd::prelude::*;

use crate::timer::{sat_sub, started, Phase, Plan, TimerView};

verus! {

/// A call that changes a timer, with the clock reading it was given.
pub enum Step {
    /// `Timer::tick`.
    Tick(nat),
    /// `Timer::toggle_pause`.
    Toggle(nat),
    /// `Timer::skip`.
    Skip(nat),
}

impl Step {
    /// The clock reading the call was given.
    pub open spec fn at(self) -> nat {
        match self {
            Step::Tick(t) => t,
            Step::Toggle(t) => t,
            Step::Skip(t) => t,
        }
    }

    /// Whether this call, made on `v`, ends a work phase that ran all the
    /// way down: a tick that returns a transition out of work.
    pub open spec fn finishes_work(self, v: TimerView) -> bool {
        &&& self is Tick
        &&& v.runs_out(self.at())
        &&& v.phase == Phase::Work
    }
}

/// The timer `v` after `step`.
pub open spec fn apply(v: TimerView, step: Step) -> TimerView {
    match step {
        Step::Tick(t) => v.ticked(t),
        Step::Toggle(t) => v.toggled(t),
        Step::Skip(t) => v.skipped(t),
    }
}

/// The timer `v` after `steps`, in order.
pub open spec fn replay(v: TimerView, steps: Seq<Step>) -> TimerView
    decreases steps.len(),
{
    if steps.len() == 0 {
        v
    } else {
        apply(replay(v, steps.drop_last()), steps.last())
    }
}

/// How many of `steps`, made on `v` in order, end a work phase that ran all
/// the way down.
pub open spec fn finished_work(v: TimerView, steps: Seq<Step>) -> nat
    decreases steps.len(),
{
    if steps.len() == 0 {
        0
    } else {
        let before = steps.drop_last();
        finished_work(v, before) + if steps.last().finishes_work(replay(v, before)) {
            1nat
        } else {
            0nat
        }
    }
}

/// Whether `steps` were made at readings that never go back, none before
/// `start` and none after `until`.
pub open spec fn in_order(steps: Seq<Step>, start: nat, until: nat) -> bool {
    &&& start <= until
    &&& forall|i: int, j: int|
        0 <= i <= j < steps.len() ==> start <= #[trigger] steps[i].at() <= #[trigger] steps[j].at()
            <= until
}

/// The reading of the last of `steps`, or `start` if there are none.
pub open spec fn last_reading(start: nat, steps: Seq<Step>) -> nat {
    if steps.len() == 0 {
        start
    } else {
        steps.last().at()
    }
}

/// How long the clock of `v` stood still between `start` and the last of
/// `steps`.
pub open spec fn stopped(v: TimerView, start: nat, steps: Seq<Step>) -> nat
    decreases steps.len(),
{
    if steps.len() == 0 {
        0
    } else {
        let before = steps.drop_last();
        stopped(v, start, before) + if replay(v, before).is_paused() {
            sat_sub(steps.last().at(), last_reading(start, before))
        } else {
            0nat
        }
    }
}

/// How long the clock of `v` stood still between `start` and `until`, the
/// last of `steps` having been made by then.
pub open spec fn paused_for(v: TimerView, start: nat, steps: Seq<Step>, until: nat) -> nat {
    stopped(v, start, steps) + if replay(v, steps).is_paused() {
        sat_sub(until, last_reading(start, steps))
    } else {
        0nat
    }
}

/// What holds of every timer in a session, weaker than what the type keeps
/// because it does not depend on the counts staying in range.
spec fn shaped(v: TimerView) -> bool {
    &&& v.length == v.plan.span(v.phase)@
    &&& v.remaining <= v.length
}

/// Time worked as of the last reading the timer took, the phase in progress
/// included.
spec fn worked(v: TimerView) -> int {
    v.focused + if v.phase == Phase::Work {
        v.length - v.remaining
    } else {
        0
    }
}

/// The time worked and the time stopped, both since `start`, fit in the time
/// that passed up to the reading the timer last took, `last` being the
/// reading of the last call.
spec fn accounted(v: TimerView, start: nat, stopped: nat, last: nat) -> bool {
    match v.since {
        Some(x) => x <= last && worked(v) + start + stopped <= x,
        None => worked(v) + start + stopped <= last,
    }
}

proof fn lemma_step_keeps_the_account(
    w: TimerView,
    start: nat,
    stopped: nat,
    last: nat,
    step: Step,
)
    requires
        shaped(w),
        accounted(w, start, stopped, last),
        last <= step.at(),
    ensures
        shaped(apply(w, step)),
        accounted(
            apply(w, step),
            start,
            stopped + if w.is_paused() {
                (step.at() - last) as nat
            } else {
                0nat
            },
            step.at(),
        ),
        apply(w, step).pomodoros == w.pomodoros + if step.finishes_work(w) {
            1int
        } else {
            0int
        },
{
    let t = step.at();
    match step {
        Step::Tick(_) => {
            if w.runs_out(t) {
                let c = w.credited();
                assert(c.pomodoros == w.pomodoros + if w.phase == Phase::Work {
                    1int
                } else {
                    0int
                });
                assert(worked(c.entered(w.next_phase(), t)) == c.focused);
            }
        },
        Step::Toggle(_) => {},
        Step::Skip(_) => {
            let cut = TimerView { focused: w.focused_at(t), ..w };
            assert(worked(cut.entered(w.next_phase(), t)) == w.focused_at(t));
        },
    }
}

proof fn lemma_replay_keeps_the_account(v: TimerView, start: nat, steps: Seq<Step>, until: nat)
    requires
        shaped(v),
        accounted(v, start, 0, start),
        in_order(steps, start, until),
    ensures
        shaped(replay(v, steps)),
        accounted(
            replay(v, steps),
            start,
            stopped(v, start, steps),
            last_reading(start, steps),
        ),
        start <= last_reading(start, steps) <= until,
        replay(v, steps).pomodoros == v.pomodoros + finished_work(v, steps),
    decreases steps.len(),
{
    if steps.len() > 0 {
        let before = steps.drop_last();
        assert(in_order(before, start, until)) by {
            assert forall|i: int, j: int| 0 <= i <= j < before.len() implies start
                <= #[trigger] before[i].at() <= #[trigger] before[j].at() <= until by {
                assert(before[i] == steps[i] && before[j] == steps[j]);
            }
        }
        lemma_replay_keeps_the_account(v, start, before, until);
        let n = steps.len() - 1;
        assert(steps[n] == steps.last());
        assert(start <= steps[n].at() <= until);
        if before.len() > 0 {
            assert(before.last() == steps[n - 1]);
            assert(steps[n - 1].at() <= steps[n].at());
        } else {
            assert(start <= steps[0].at());
        }
        lemma_step_keeps_the_account(
            replay(v, before),
            start,
            stopped(v, start, before),
            last_reading(start, before),
            steps.last(),
        );
    }
}

/// A session adds up: of a timer started on `plan` at `start` and then
/// ticked, paused and resumed, and skipped by `steps` at readings that never
/// go back, up to `now` and then looked at `later`,
/// - the pomodoros it counts are the ticks that ended a work phase;
/// - the time it reports as focused, together with the time its clock stood
///   still, is no more than the time that passed since it started;
/// - the focused time it reports does not fall as the clock moves on, and
///   stays put during a break.
pub proof fn law_a_session_adds_up(
    plan: Plan,
    start: nat,
    steps: Seq<Step>,
    now: nat,
    later: nat,
)
    requires
        in_order(steps, start, now),
        now <= later,
    ensures
        replay(started(plan, start), steps).pomodoros == finished_work(started(plan, start), steps),
        replay(started(plan, start), steps).focused_at(now) + paused_for(
            started(plan, start),
            start,
            steps,
            now,
        ) <= now - start,
        replay(started(plan, start), steps).focused_at(now) <= replay(
            started(plan, start),
            steps,
        ).focused_at(later),
        replay(started(plan, start), steps).phase != Phase::Work ==> replay(
            started(plan, start),
            steps,
        ).focused_at(now) == replay(started(plan, start), steps).focused_at(later),
{
    let v0 = started(plan, start);
    lemma_replay_keeps_the_account(v0, start, steps, now);
    let v = replay(v0, steps);
    match v.since {
        Some(x) => {
            assert(v.remaining_at(now) >= v.remaining - (now - x));
            assert(v.remaining_at(later) <= v.remaining_at(now));
        },
        None => {},
    }
}

} // verus!
