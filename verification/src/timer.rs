//! Running work and break phases in order, for as long as someone watches.

use vstd::prelude::*;

use crate::time::{Duration, Instant, MAX_NANOS};

verus! {

/// Work phases between long breaks.
pub const SESSIONS_PER_CYCLE: u32 = 4;

/// What the current phase is for.
#[derive(Clone, Copy, Debug, PartialEq, Eq, Structural)]
pub enum Phase {
    /// Heads down.
    Work,
    /// The short break after a work phase.
    Break,
    /// The long break that closes a cycle.
    LongBreak,
}

/// The phase as it is written on screen and in notifications.
pub open spec fn phase_label(phase: Phase) -> Seq<char> {
    match phase {
        Phase::Work => "work"@,
        Phase::Break => "break"@,
        Phase::LongBreak => "long break"@,
    }
}

impl Phase {
    /// Returns the phase as it is written on screen and in notifications.
    pub fn label(self) -> (text: &'static str)
        ensures
            text@ == phase_label(self),
    {
        match self {
            Phase::Work => "work",
            Phase::Break => "break",
            Phase::LongBreak => "long break",
        }
    }

    /// Returns whether time spent here counts as focused.
    pub fn is_work(self) -> (b: bool)
        ensures
            b == (self == Phase::Work),
    {
        self == Phase::Work
    }
}

/// How long each kind of phase lasts.
#[derive(Clone, Copy, Debug, PartialEq, Eq, Structural)]
pub struct Plan {
    pub work: Duration,
    pub short_break: Duration,
    pub long_break: Duration,
}

impl Plan {
    /// How long `phase` runs for under this plan.
    pub open spec fn span(self, phase: Phase) -> Duration {
        match phase {
            Phase::Work => self.work,
            Phase::Break => self.short_break,
            Phase::LongBreak => self.long_break,
        }
    }

    /// Returns how long `phase` runs for under this plan.
    pub fn length(&self, phase: Phase) -> (d: Duration)
        ensures
            d == self.span(phase),
    {
        match phase {
            Phase::Work => self.work,
            Phase::Break => self.short_break,
            Phase::LongBreak => self.long_break,
        }
    }
}

impl Default for Plan {
    /// The classic plan: 25 minutes of work, 5 of break, 15 of long break.
    fn default() -> (plan: Self)
        ensures
            plan.work@ == 25 * 60 * 1_000_000_000,
            plan.short_break@ == 5 * 60 * 1_000_000_000,
            plan.long_break@ == 15 * 60 * 1_000_000_000,
    {
        Plan {
            work: Duration::from_secs(25 * 60),
            short_break: Duration::from_secs(5 * 60),
            long_break: Duration::from_secs(15 * 60),
        }
    }
}

/// One phase giving way to the next.
#[derive(Clone, Copy, Debug, PartialEq, Eq, Structural)]
pub struct Transition {
    /// The phase whose time ran out.
    pub finished: Phase,
    /// The phase now running.
    pub started: Phase,
    /// How long the new phase lasts, for saying so in the notification.
    pub length: Duration,
}

/// What a session amounted to.
#[derive(Clone, Copy, Debug, PartialEq, Eq, Structural)]
pub struct Summary {
    /// Work phases that ran all the way down.
    pub pomodoros: u32,
    /// Time spent in work phases, paused time excluded.
    pub focused: Duration,
}

/// `a` less `b`, or nothing if `b` is more.
pub open spec fn sat_sub(a: nat, b: nat) -> nat {
    if b <= a {
        (a - b) as nat
    } else {
        0
    }
}

/// A timer as the proofs see it: spans and readings in nanoseconds.
pub struct TimerView {
    pub plan: Plan,
    pub phase: Phase,
    pub session: nat,
    pub length: nat,
    pub remaining: nat,
    /// The reading `remaining` was measured at, or `None` while paused.
    pub since: Option<nat>,
    pub pomodoros: nat,
    pub focused: nat,
}

impl TimerView {
    /// What holds of every timer.
    pub open spec fn inv(self) -> bool {
        &&& self.length == self.plan.span(self.phase)@
        &&& self.remaining <= self.length
        &&& 1 <= self.session <= SESSIONS_PER_CYCLE
        &&& self.phase == Phase::Break ==> self.session < SESSIONS_PER_CYCLE
        &&& self.phase == Phase::LongBreak ==> self.session == SESSIONS_PER_CYCLE
        &&& self.pomodoros <= u32::MAX
        &&& self.focused <= MAX_NANOS
    }

    pub open spec fn is_paused(self) -> bool {
        self.since is None
    }

    /// How much of the phase is left at the reading `now`.
    pub open spec fn remaining_at(self, now: nat) -> nat {
        match self.since {
            None => self.remaining,
            Some(since) => sat_sub(self.remaining, sat_sub(now, since)),
        }
    }

    /// Whether the running phase has no time left at `now`.
    pub open spec fn runs_out(self, now: nat) -> bool {
        !self.is_paused() && self.remaining_at(now) == 0
    }

    /// The phase that follows the current one.
    pub open spec fn next_phase(self) -> Phase {
        match self.phase {
            Phase::Work => if self.session >= SESSIONS_PER_CYCLE {
                Phase::LongBreak
            } else {
                Phase::Break
            },
            Phase::Break | Phase::LongBreak => Phase::Work,
        }
    }

    /// The timer once `phase` has started at `now`, at its full length.
    pub open spec fn entered(self, phase: Phase, now: nat) -> TimerView {
        TimerView {
            session: if self.phase == Phase::Break && phase == Phase::Work {
                self.session + 1
            } else if self.phase == Phase::LongBreak && phase == Phase::Work {
                1
            } else {
                self.session
            },
            phase: phase,
            length: self.plan.span(phase)@,
            remaining: self.plan.span(phase)@,
            since: Some(now),
            ..self
        }
    }

    /// The timer with a finished work phase counted.
    pub open spec fn credited(self) -> TimerView {
        if self.phase == Phase::Work {
            TimerView {
                pomodoros: self.pomodoros + 1,
                focused: self.focused + self.length,
                ..self
            }
        } else {
            self
        }
    }

    /// The timer after being looked at at `now`.
    pub open spec fn ticked(self, now: nat) -> TimerView {
        if self.runs_out(now) {
            self.credited().entered(self.next_phase(), now)
        } else {
            self
        }
    }

    /// The timer after its clock is stopped or started at `now`.
    pub open spec fn toggled(self, now: nat) -> TimerView {
        match self.since {
            Some(_) => TimerView { remaining: self.remaining_at(now), since: None, ..self },
            None => TimerView { since: Some(now), ..self },
        }
    }

    /// Time already worked in the current phase at `now`.
    pub open spec fn spent_at(self, now: nat) -> nat {
        if self.phase == Phase::Work {
            (self.length - self.remaining_at(now)) as nat
        } else {
            0
        }
    }

    /// Time worked in the session at `now`, the phase in progress included.
    pub open spec fn focused_at(self, now: nat) -> nat {
        self.focused + self.spent_at(now)
    }

    /// The timer after the current phase is cut short at `now`.
    pub open spec fn skipped(self, now: nat) -> TimerView {
        TimerView { focused: self.focused_at(now), ..self }.entered(self.next_phase(), now)
    }

    /// Whether one more finished work phase can be counted.
    pub open spec fn room_for_credit(self) -> bool {
        self.pomodoros < u32::MAX && self.focused + self.length <= MAX_NANOS
    }
}

/// A timer just started on `plan` at the reading `now`: the first work phase
/// of a cycle, at its full length, with nothing done yet.
pub open spec fn started(plan: Plan, now: nat) -> TimerView {
    TimerView {
        plan: plan,
        phase: Phase::Work,
        session: 1,
        length: plan.work@,
        remaining: plan.work@,
        since: Some(now),
        pomodoros: 0,
        focused: 0,
    }
}

/// A pomodoro cycle in progress.
///
/// Every method that cares about time takes `now` rather than reading the
/// clock itself. The phase end is stored as time remaining against the last
/// instant the timer was looked at, so a long frame or a slow notification
/// cannot make the countdown drift the way accumulated sleeps would.
pub struct Timer {
    plan: Plan,
    phase: Phase,
    session: u32,
    length: Duration,
    remaining: Duration,
    /// The instant `remaining` was measured at, or `None` while paused.
    since: Option<Instant>,
    pomodoros: u32,
    focused: Duration,
}

/// A reading as the proofs see it.
pub open spec fn since_view(since: Option<Instant>) -> Option<nat> {
    match since {
        None => None,
        Some(t) => Some(t@),
    }
}

impl View for Timer {
    type V = TimerView;

    closed spec fn view(&self) -> TimerView {
        TimerView {
            plan: self.plan,
            phase: self.phase,
            session: self.session as nat,
            length: self.length@,
            remaining: self.remaining@,
            since: since_view(self.since),
            pomodoros: self.pomodoros as nat,
            focused: self.focused@,
        }
    }
}

impl Timer {
    #[verifier::type_invariant]
    closed spec fn well_formed(self) -> bool {
        &&& self@.inv()
        &&& self.length == self.plan.span(self.phase)
    }

    /// Starts a cycle on its first work phase.
    pub fn start(plan: Plan, now: Instant) -> (timer: Self)
        ensures
            timer@ == started(plan, now@),
            timer@.inv(),
    {
        Timer {
            plan,
            phase: Phase::Work,
            session: 1,
            length: plan.work,
            remaining: plan.work,
            since: Some(now),
            pomodoros: 0,
            focused: Duration::zero(),
        }
    }

    /// Returns the phase now running.
    pub fn phase(&self) -> (phase: Phase)
        ensures
            phase == self@.phase,
            self@.inv(),
    {
        proof { use_type_invariant(self); }
        self.phase
    }

    /// Returns which work phase of the cycle this is, counting from one.
    ///
    /// A break reports the work phase it follows, so the label on screen does
    /// not jump forward before the work it refers to has been done.
    pub fn session(&self) -> (session: u32)
        ensures
            session == self@.session,
            1 <= session <= SESSIONS_PER_CYCLE,
            self@.inv(),
    {
        proof { use_type_invariant(self); }
        self.session
    }

    /// Returns whether the clock is stopped.
    pub fn is_paused(&self) -> (b: bool)
        ensures
            b == self@.is_paused(),
            self@.inv(),
    {
        proof { use_type_invariant(self); }
        self.since.is_none()
    }

    /// Returns how long the current phase lasts in full.
    pub fn length(&self) -> (d: Duration)
        ensures
            d@ == self@.length,
            d == self@.plan.span(self@.phase),
            self@.inv(),
    {
        proof { use_type_invariant(self); }
        self.length
    }

    /// Returns how much of the current phase is left.
    pub fn remaining(&self, now: Instant) -> (d: Duration)
        ensures
            d@ == self@.remaining_at(now@),
            self@.inv(),
    {
        proof { use_type_invariant(self); }
        match self.since {
            None => self.remaining,
            Some(since) => self.remaining.saturating_sub(now.saturating_duration_since(since)),
        }
    }

    /// Returns whether one more finished work phase can be counted without
    /// the count or the focused total overflowing.
    pub fn room_to_finish(&self) -> (b: bool)
        ensures
            b == self@.room_for_credit(),
            self@.inv(),
    {
        proof { use_type_invariant(self); }
        self.pomodoros < u32::MAX && self.focused.fits_with(self.length)
    }

    /// Advances the cycle if the current phase has run out.
    ///
    /// Returns the transition to announce, or `None` while there is time left.
    /// The next phase starts from its full length rather than from whatever is
    /// left over, so a frame that arrives late shortens nothing.
    pub fn tick(&mut self, now: Instant) -> (transition: Option<Transition>)
        requires
            old(self)@.runs_out(now@) && old(self)@.phase == Phase::Work
                ==> old(self)@.room_for_credit(),
        ensures
            final(self)@ == old(self)@.ticked(now@),
            final(self)@.inv(),
            match transition {
                None => !old(self)@.runs_out(now@),
                Some(t) => {
                    &&& old(self)@.runs_out(now@)
                    &&& t.finished == old(self)@.phase
                    &&& t.started == old(self)@.next_phase()
                    &&& t.length == old(self)@.plan.span(t.started)
                },
            },
    {
        proof { use_type_invariant(&*self); }
        if self.is_paused() || !self.remaining(now).is_zero() {
            return None;
        }
        let finished = self.phase;
        let next = self.next_phase();
        if finished.is_work() {
            *self = Timer {
                pomodoros: self.pomodoros + 1,
                focused: self.focused.plus(self.length),
                ..*self
            };
        }
        self.enter(next, now);
        proof { use_type_invariant(&*self); }
        Some(Transition { finished, started: self.phase, length: self.length })
    }

    /// Stops the clock, or starts it again.
    pub fn toggle_pause(&mut self, now: Instant)
        ensures
            final(self)@ == old(self)@.toggled(now@),
            final(self)@.inv(),
    {
        proof { use_type_invariant(&*self); }
        match self.since {
            Some(_) => {
                let left = self.remaining(now);
                *self = Timer { remaining: left, since: None, ..*self };
            },
            None => {
                *self = Timer { since: Some(now), ..*self };
            },
        }
        proof { use_type_invariant(&*self); }
    }

    /// Ends the current phase early and moves on.
    ///
    /// A skipped work phase is not a pomodoro, though the time already spent
    /// in it still counts as focused: it was worked, just not to the bell.
    pub fn skip(&mut self, now: Instant)
        requires
            old(self)@.focused_at(now@) <= MAX_NANOS,
        ensures
            final(self)@ == old(self)@.skipped(now@),
            final(self)@.inv(),
    {
        proof { use_type_invariant(&*self); }
        let next = self.next_phase();
        if self.phase.is_work() {
            let spent = self.length.minus(self.remaining(now));
            *self = Timer { focused: self.focused.plus(spent), ..*self };
        }
        self.enter(next, now);
        proof { use_type_invariant(&*self); }
    }

    /// Returns what the session has amounted to so far.
    ///
    /// A work phase in progress contributes the time already spent in it, so
    /// quitting twenty minutes in does not report zero.
    pub fn summary(&self, now: Instant) -> (summary: Summary)
        requires
            self@.focused_at(now@) <= MAX_NANOS,
        ensures
            summary.pomodoros == self@.pomodoros,
            summary.focused@ == self@.focused_at(now@),
            self@.inv(),
    {
        proof { use_type_invariant(self); }
        let mut focused = self.focused;
        if self.phase.is_work() {
            focused = focused.plus(self.length.minus(self.remaining(now)));
        }
        Summary { pomodoros: self.pomodoros, focused }
    }

    fn next_phase(&self) -> (phase: Phase)
        ensures
            phase == self@.next_phase(),
    {
        match self.phase {
            Phase::Work => if self.session >= SESSIONS_PER_CYCLE {
                Phase::LongBreak
            } else {
                Phase::Break
            },
            Phase::Break | Phase::LongBreak => Phase::Work,
        }
    }

    fn enter(&mut self, phase: Phase, now: Instant)
        requires
            phase == old(self)@.next_phase(),
        ensures
            final(self)@ == old(self)@.entered(phase, now@),
    {
        proof { use_type_invariant(&*self); }
        let session = match (self.phase, phase) {
            (Phase::Break, Phase::Work) => self.session + 1,
            (Phase::LongBreak, Phase::Work) => 1,
            _ => self.session,
        };
        let length = self.plan.length(phase);
        // A phase entered while paused would sit at its full length with the
        // clock stopped, which reads as the timer having hung.
        *self = Timer {
            session,
            phase,
            length,
            remaining: length,
            since: Some(now),
            ..*self
        };
    }
}

/// Where a timer stands in the eight phases of a cycle, counting from zero.
pub open spec fn cycle_slot(v: TimerView) -> nat {
    (2 * (v.session - 1) + if v.phase == Phase::Work { 0int } else { 1int }) as nat
}

/// The phase that runs at `slot` of a cycle: work on the even slots, a short
/// break on the odd ones but the last, and the long break last.
pub open spec fn cycle_phase(slot: nat) -> Phase {
    if slot % 2 == 0 {
        Phase::Work
    } else if slot == 2 * SESSIONS_PER_CYCLE - 1 {
        Phase::LongBreak
    } else {
        Phase::Break
    }
}

/// A cycle is four work phases with a short break after each of the first
/// three and the long break after the fourth; moving on from a phase, by its
/// running out or by a skip, takes the timer to the next slot, and from the
/// long break back to the first work phase.
pub proof fn law_phases_follow_the_cycle(v: TimerView, now: nat)
    requires
        v.inv(),
    ensures
        cycle_slot(v) < 2 * SESSIONS_PER_CYCLE,
        v.phase == cycle_phase(cycle_slot(v)),
        cycle_slot(v.skipped(now)) == (cycle_slot(v) + 1) % (2 * SESSIONS_PER_CYCLE as nat),
        v.runs_out(now) ==> cycle_slot(v.ticked(now)) == (cycle_slot(v) + 1) % (2
            * SESSIONS_PER_CYCLE as nat),
{
}

/// The countdown never rises as the clock moves on, and while the clock runs
/// it falls by exactly the time that passed until it reaches zero.
pub proof fn law_countdown_falls_with_the_clock(v: TimerView, earlier: nat, later: nat)
    requires
        v.inv(),
        earlier <= later,
    ensures
        v.remaining_at(later) <= v.remaining_at(earlier),
        v.remaining_at(earlier) <= v.length,
        v.since matches Some(since) && since <= earlier ==> v.remaining_at(later) == sat_sub(
            v.remaining_at(earlier),
            (later - earlier) as nat,
        ),
{
}

/// A paused clock holds its reading however long it waits, never runs out,
/// and adds nothing to the time worked.
pub proof fn law_a_paused_clock_holds_its_reading(v: TimerView, t1: nat, t2: nat)
    requires
        v.inv(),
        v.is_paused(),
    ensures
        v.remaining_at(t1) == v.remaining_at(t2),
        v.ticked(t1) == v,
        v.focused_at(t1) == v.focused_at(t2),
{
}

/// Pausing at `paused` and resuming at `resumed` leaves the clock counting
/// down from the reading it had when it was paused.
pub proof fn law_a_resumed_clock_continues_from_its_reading(
    v: TimerView,
    paused: nat,
    resumed: nat,
    later: nat,
)
    requires
        v.inv(),
        !v.is_paused(),
        resumed <= later,
    ensures
        v.toggled(paused).is_paused(),
        !v.toggled(paused).toggled(resumed).is_paused(),
        v.toggled(paused).toggled(resumed).remaining_at(later) == sat_sub(
            v.remaining_at(paused),
            (later - resumed) as nat,
        ),
        v.toggled(paused).toggled(resumed).inv(),
{
}

/// A phase that runs out starts the next one at its full length, however
/// late it was noticed, and a skip does the same.
pub proof fn law_a_new_phase_gets_its_full_length(v: TimerView, now: nat)
    requires
        v.inv(),
    ensures
        v.runs_out(now) ==> v.ticked(now).remaining_at(now) == v.plan.span(v.next_phase())@,
        v.skipped(now).remaining_at(now) == v.plan.span(v.next_phase())@,
        !v.skipped(now).is_paused(),
{
}

/// Only a work phase that ran all the way down is counted as a pomodoro: a
/// tick counts one exactly when it ends a work phase, and neither a skip nor
/// a pause counts any.
pub proof fn law_only_finished_work_counts(v: TimerView, now: nat)
    requires
        v.inv(),
    ensures
        v.ticked(now).pomodoros == v.pomodoros + if v.runs_out(now) && v.phase == Phase::Work {
            1int
        } else {
            0int
        },
        v.skipped(now).pomodoros == v.pomodoros,
        v.toggled(now).pomodoros == v.pomodoros,
{
    if v.runs_out(now) {
        // Moving on keeps the count; only crediting the phase adds to it.
        assert(v.ticked(now) == v.credited().entered(v.next_phase(), now));
        assert(v.credited().entered(v.next_phase(), now).pomodoros == v.credited().pomodoros);
        if v.phase == Phase::Work {
            assert(v.credited().pomodoros == v.pomodoros + 1);
        } else {
            assert(v.credited() == v);
        }
    } else {
        assert(v.ticked(now) == v);
    }
    let cut = TimerView { focused: v.focused_at(now), ..v };
    assert(v.skipped(now) == cut.entered(v.next_phase(), now));
    assert(cut.entered(v.next_phase(), now).pomodoros == cut.pomodoros);
    assert(cut.pomodoros == v.pomodoros);
    match v.since {
        Some(_) => assert(v.toggled(now) == TimerView {
            remaining: v.remaining_at(now),
            since: None,
            ..v
        }),
        None => assert(v.toggled(now) == TimerView { since: Some(now), ..v }),
    }
}

/// The time worked never jumps: ending, skipping or pausing a phase at `now`
/// leaves the focused total at `now` where it was.
pub proof fn law_moving_on_keeps_the_focused_total(v: TimerView, now: nat)
    requires
        v.inv(),
    ensures
        v.ticked(now).focused_at(now) == v.focused_at(now),
        v.skipped(now).focused_at(now) == v.focused_at(now),
        v.toggled(now).focused_at(now) == v.focused_at(now),
{
}

/// The focused total only grows with the clock, and only while a work phase
/// runs: a break adds nothing to it.
pub proof fn law_focused_time_is_work_time(v: TimerView, earlier: nat, later: nat)
    requires
        v.inv(),
        earlier <= later,
    ensures
        v.focused <= v.focused_at(earlier) <= v.focused_at(later),
        v.phase != Phase::Work ==> v.focused_at(later) == v.focused,
        v.focused_at(later) <= v.focused + v.length,
{
}

} // verus!
