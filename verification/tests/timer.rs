use pomctl::time::{Duration, Instant};
use pomctl::timer::{Phase, Plan, Timer, Transition};

fn minutes(count: u64) -> Duration {
    Duration::from_secs(count * 60)
}

fn plan() -> Plan {
    Plan {
        work: minutes(25),
        short_break: minutes(5),
        long_break: minutes(15),
    }
}

/// Runs `timer` to the end of the current phase and returns the transition.
fn finish_phase(timer: &mut Timer, at: &mut Instant) -> Transition {
    *at = at.after(timer.remaining(*at));
    timer.tick(*at).expect("the phase ran out")
}

#[test]
fn a_session_opens_on_the_first_work_phase() {
    let timer = Timer::start(plan(), Instant::origin());
    assert_eq!(timer.phase(), Phase::Work);
    assert_eq!(timer.session(), 1);
    assert!(!timer.is_paused());
}

#[test]
fn the_countdown_falls_with_the_clock() {
    let start = Instant::origin();
    let timer = Timer::start(plan(), start);
    assert_eq!(timer.remaining(start), minutes(25));
    assert_eq!(timer.remaining(start.after(minutes(10))), minutes(15));
}

#[test]
fn a_phase_with_time_left_announces_nothing() {
    let start = Instant::origin();
    let mut timer = Timer::start(plan(), start);
    assert_eq!(timer.tick(start.after(minutes(24))), None);
    assert_eq!(timer.phase(), Phase::Work);
}

#[test]
fn work_gives_way_to_a_break_and_the_break_to_the_next_work() {
    let mut at = Instant::origin();
    let mut timer = Timer::start(plan(), at);

    let to_break = finish_phase(&mut timer, &mut at);
    assert_eq!(to_break.finished, Phase::Work);
    assert_eq!(to_break.started, Phase::Break);
    assert_eq!(to_break.length, minutes(5));
    assert_eq!(timer.session(), 1, "the break belongs to the work before it");

    let to_work = finish_phase(&mut timer, &mut at);
    assert_eq!(to_work.started, Phase::Work);
    assert_eq!(to_work.length, minutes(25));
    assert_eq!(timer.session(), 2);
}

#[test]
fn the_fourth_work_phase_earns_the_long_break() {
    let mut at = Instant::origin();
    let mut timer = Timer::start(plan(), at);

    let mut phases = Vec::new();
    // Four work phases and the breaks between them, then the long break.
    for _ in 0..8 {
        phases.push(finish_phase(&mut timer, &mut at).started);
    }

    assert_eq!(
        phases,
        vec![
            Phase::Break,
            Phase::Work,
            Phase::Break,
            Phase::Work,
            Phase::Break,
            Phase::Work,
            Phase::LongBreak,
            Phase::Work,
        ]
    );
    assert_eq!(timer.length(), minutes(25));
    assert_eq!(
        timer.session(),
        1,
        "the cycle starts over after the long break"
    );
}

#[test]
fn a_phase_that_ended_late_still_gets_its_full_length() {
    let start = Instant::origin();
    let mut timer = Timer::start(plan(), start);
    // The process was starved past the end of the work phase.
    let late = start.after(minutes(25)).after(Duration::from_secs(90));

    timer.tick(late).expect("the phase ran out");
    assert_eq!(
        timer.remaining(late),
        minutes(5),
        "the overshoot must not be taken out of the break"
    );
}

#[test]
fn a_paused_clock_holds_its_reading_and_resumes_from_it() {
    let start = Instant::origin();
    let mut timer = Timer::start(plan(), start);

    timer.toggle_pause(start.after(minutes(1)));
    assert!(timer.is_paused());
    assert_eq!(timer.remaining(start.after(minutes(10))), minutes(24));

    timer.toggle_pause(start.after(minutes(10)));
    assert!(!timer.is_paused());
    assert_eq!(timer.remaining(start.after(minutes(11))), minutes(23));
}

#[test]
fn a_paused_phase_never_runs_out_on_its_own() {
    let start = Instant::origin();
    let mut timer = Timer::start(plan(), start);
    timer.toggle_pause(start);

    assert_eq!(timer.tick(start.after(minutes(10 * 25))), None);
    assert_eq!(timer.phase(), Phase::Work);
}

#[test]
fn skipping_moves_on_without_crediting_a_pomodoro() {
    let start = Instant::origin();
    let mut timer = Timer::start(plan(), start);

    timer.skip(start.after(minutes(10)));
    assert_eq!(timer.phase(), Phase::Break);
    let summary = timer.summary(start.after(minutes(10)));
    assert_eq!(summary.pomodoros, 0);
    assert_eq!(
        summary.focused,
        minutes(10),
        "work done before a skip was still work"
    );
}

#[test]
fn a_skip_restarts_the_clock_even_from_a_pause() {
    let start = Instant::origin();
    let mut timer = Timer::start(plan(), start);
    timer.toggle_pause(start.after(minutes(1)));
    timer.skip(start.after(minutes(1)));

    assert!(
        !timer.is_paused(),
        "a phase entered paused would look like a hung timer"
    );
    assert_eq!(timer.remaining(start.after(minutes(2))), minutes(4));
}

#[test]
fn the_summary_counts_finished_work_phases_only() {
    let mut at = Instant::origin();
    let mut timer = Timer::start(plan(), at);

    for _ in 0..3 {
        finish_phase(&mut timer, &mut at);
    }

    let summary = timer.summary(at);
    assert_eq!(summary.pomodoros, 2);
    assert_eq!(summary.focused, minutes(50));
}

#[test]
fn time_on_the_clock_counts_before_the_phase_is_over() {
    let start = Instant::origin();
    let timer = Timer::start(plan(), start);
    assert_eq!(timer.summary(start.after(minutes(20))).focused, minutes(20));
}

#[test]
fn a_break_adds_nothing_to_the_focused_total() {
    let mut at = Instant::origin();
    let mut timer = Timer::start(plan(), at);
    finish_phase(&mut timer, &mut at);

    let during_break = at.after(minutes(3));
    assert_eq!(timer.summary(during_break).focused, minutes(25));
}

#[test]
fn paused_time_is_not_focused_time() {
    let start = Instant::origin();
    let mut timer = Timer::start(plan(), start);

    timer.toggle_pause(start.after(minutes(5)));
    timer.toggle_pause(start.after(minutes(65)));

    assert_eq!(
        timer.summary(start.after(minutes(70))).focused,
        minutes(10),
        "an hour away from the desk must not be reported as focus"
    );
}

#[test]
fn the_classic_plan_is_twenty_five_five_and_fifteen() {
    let plan = Plan::default();
    assert_eq!(plan.work, minutes(25));
    assert_eq!(plan.short_break, minutes(5));
    assert_eq!(plan.long_break, minutes(15));
    assert_eq!(plan.length(Phase::LongBreak), minutes(15));
}

#[test]
fn phases_are_named_as_the_screen_writes_them() {
    assert_eq!(Phase::Work.label(), "work");
    assert_eq!(Phase::Break.label(), "break");
    assert_eq!(Phase::LongBreak.label(), "long break");
    assert!(Phase::Work.is_work());
    assert!(!Phase::LongBreak.is_work());
}

#[test]
fn the_cycle_runs_its_eight_phases_again_and_again() {
    let mut at = Instant::origin();
    let mut timer = Timer::start(plan(), at);
    let mut phases = Vec::new();
    for _ in 0..16 {
        phases.push(finish_phase(&mut timer, &mut at).started);
    }
    assert_eq!(phases[..8], phases[8..]);
    assert_eq!(timer.summary(at).pomodoros, 8);
    assert_eq!(timer.summary(at).focused, minutes(8 * 25));
}

#[test]
fn a_skipped_break_still_counts_as_moving_through_the_cycle() {
    let start = Instant::origin();
    let mut timer = Timer::start(plan(), start);
    for _ in 0..7 {
        timer.skip(start);
    }
    assert_eq!(timer.phase(), Phase::LongBreak);
    assert_eq!(timer.session(), 4);
    timer.skip(start);
    assert_eq!(timer.phase(), Phase::Work);
    assert_eq!(timer.session(), 1);
    assert_eq!(timer.summary(start).pomodoros, 0);
}

#[test]
fn pausing_and_resuming_at_once_changes_nothing() {
    let start = Instant::origin();
    let mut timer = Timer::start(plan(), start);
    let now = start.after(minutes(7));
    let before = timer.summary(now);
    timer.toggle_pause(now);
    timer.toggle_pause(now);
    assert_eq!(timer.summary(now), before);
    assert_eq!(timer.remaining(start.after(minutes(8))), minutes(17));
}

#[test]
fn a_timer_with_room_left_can_finish_its_phase() {
    let timer = Timer::start(plan(), Instant::origin());
    assert!(timer.room_to_finish());
}

#[test]
fn the_focused_total_does_not_jump_when_a_phase_ends() {
    let start = Instant::origin();
    let mut timer = Timer::start(plan(), start);
    let end = start.after(minutes(25));
    let before = timer.summary(end);
    timer.tick(end).expect("the phase ran out");
    let after = timer.summary(end);
    assert_eq!(after.focused, before.focused);
    assert_eq!(after.pomodoros, before.pomodoros + 1);

    let mid_break = end.after(minutes(2));
    let before = timer.summary(mid_break);
    timer.skip(mid_break);
    assert_eq!(timer.summary(mid_break), before);
}

#[test]
fn a_session_adds_up_to_no_more_than_the_time_the_clock_ran() {
    let start = Instant::origin();
    let mut timer = Timer::start(plan(), start);
    let mut finished_work = 0;
    let mut paused = Duration::zero();
    let mut at = start;

    // Ten minutes of work, then a quarter of an hour away from the desk.
    at = at.after(minutes(10));
    assert_eq!(timer.tick(at), None);
    timer.toggle_pause(at);
    let away = at;
    at = at.after(minutes(15));
    assert_eq!(timer.tick(at), None, "a paused clock never runs out");
    timer.toggle_pause(at);
    paused = paused.plus(at.saturating_duration_since(away));

    // The rest of the work phase runs down, and the break after it is cut short.
    at = at.after(minutes(15));
    if let Some(transition) = timer.tick(at) {
        if transition.finished == Phase::Work {
            finished_work += 1;
        }
    }
    at = at.after(minutes(2));
    timer.skip(at);

    // Half of the next work phase is skipped.
    at = at.after(minutes(12));
    timer.skip(at);

    let summary = timer.summary(at);
    assert_eq!(summary.pomodoros, finished_work);
    assert_eq!(summary.pomodoros, 1);
    assert_eq!(summary.focused, minutes(25 + 12));
    let elapsed = at.saturating_duration_since(start);
    assert!(
        summary.focused.plus(paused).saturating_sub(elapsed).is_zero(),
        "focused and paused time together fit in the time that passed"
    );
    assert_eq!(elapsed, minutes(54));

    // During the break that follows, the total stays put.
    assert_eq!(timer.summary(at.after(minutes(3))).focused, summary.focused);
}
