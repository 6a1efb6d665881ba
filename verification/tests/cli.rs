use pomctl::cli::{announce, obey, parse, phase_line, summary_line, Action};
use pomctl::input::{KeyCode, KeyEvent, KeyModifiers};
use pomctl::time::{Duration, Instant};
use pomctl::timer::{Phase, Plan, Summary, Timer};

fn minutes(count: u64) -> Duration {
    Duration::from_secs(count * 60)
}

fn parse_args(arguments: &[&str]) -> Result<Action, String> {
    let owned: Vec<String> = arguments.iter().map(|argument| (*argument).to_owned()).collect();
    parse(&owned)
}

fn plan_of(arguments: &[&str]) -> Plan {
    match parse_args(arguments).expect("the arguments were accepted") {
        Action::Run(plan) => plan,
        Action::Help => panic!("expected a plan, got help"),
    }
}

fn summary(pomodoros: u32, focused: Duration) -> Summary {
    Summary { pomodoros, focused }
}

#[test]
fn no_arguments_run_the_classic_plan() {
    assert_eq!(plan_of(&[]), Plan::default());
    assert_eq!(plan_of(&[]).work, minutes(25));
}

#[test]
fn a_single_duration_only_changes_the_work_phase() {
    let plan = plan_of(&["50"]);
    assert_eq!(plan.work, minutes(50));
    assert_eq!(plan.short_break, minutes(5));
    assert_eq!(plan.long_break, minutes(15));
}

#[test]
fn the_durations_are_read_in_the_order_the_usage_lists_them() {
    let plan = plan_of(&["50", "10", "20"]);
    assert_eq!(plan.work, minutes(50));
    assert_eq!(plan.short_break, minutes(10));
    assert_eq!(plan.long_break, minutes(20));
}

#[test]
fn help_is_asked_for_by_either_spelling() {
    assert_eq!(parse_args(&["-h"]), Ok(Action::Help));
    assert_eq!(parse_args(&["--help"]), Ok(Action::Help));
    assert_eq!(parse_args(&["25", "--help"]), Ok(Action::Help));
}

#[test]
fn something_that_is_not_a_number_is_refused_rather_than_ignored() {
    let complaint = parse_args(&["ten"]).expect_err("\"ten\" is not minutes");
    assert!(complaint.contains("\"ten\""), "got {complaint:?}");
}

#[test]
fn a_zero_length_phase_is_refused() {
    // It would end the instant it began, notifying in a loop.
    assert!(parse_args(&["0"]).is_err());
    assert!(parse_args(&["25", "0"]).is_err());
}

#[test]
fn a_phase_longer_than_a_day_is_refused() {
    assert!(parse_args(&["1440"]).is_ok());
    assert!(parse_args(&["1441"]).is_err());
}

#[test]
fn a_negative_duration_is_refused_as_the_typo_it_is() {
    assert!(parse_args(&["-5"]).is_err());
}

#[test]
fn a_fourth_duration_is_refused_rather_than_dropped() {
    let complaint = parse_args(&["25", "5", "15", "4"]).expect_err("three is the limit");
    assert!(complaint.contains("at most 3"), "got {complaint:?}");
}

#[test]
fn the_summary_reports_the_count_and_the_time() {
    assert_eq!(
        summary_line(summary(3, minutes(82))),
        "3 pomodoros completed — 1h 22m focused"
    );
}

#[test]
fn one_pomodoro_is_not_reported_in_the_plural() {
    assert_eq!(
        summary_line(summary(1, minutes(25))),
        "1 pomodoro completed — 25m focused"
    );
}

#[test]
fn quitting_early_reports_nothing_rather_than_pretending() {
    assert_eq!(
        summary_line(summary(0, Duration::from_secs(30))),
        "0 pomodoros completed — 0m focused"
    );
}

#[test]
fn a_whole_number_of_hours_keeps_its_zero_minutes() {
    assert_eq!(
        summary_line(summary(4, minutes(120))),
        "4 pomodoros completed — 2h 0m focused"
    );
}

#[test]
fn the_complaints_say_exactly_what_is_wrong() {
    assert_eq!(
        parse_args(&["0"]),
        Err("a phase is between 1 and 1440 minutes, got 0".to_owned())
    );
    assert_eq!(
        parse_args(&["1441"]),
        Err("a phase is between 1 and 1440 minutes, got 1441".to_owned())
    );
    assert_eq!(
        parse_args(&["ten"]),
        Err("\"ten\" is not a number of minutes".to_owned())
    );
    assert_eq!(
        parse_args(&["1", "2", "3", "4", "5"]),
        Err("expected at most 3 durations, got 5".to_owned())
    );
}

#[test]
fn numbers_are_read_as_a_u64_is() {
    assert_eq!(plan_of(&["+7"]).work, minutes(7));
    assert_eq!(plan_of(&["007"]).work, minutes(7));
    assert!(parse_args(&[""]).is_err());
    assert!(parse_args(&["+"]).is_err());
    assert!(parse_args(&[" 7"]).is_err());
    assert!(parse_args(&["99999999999999999999999"]).is_err());
}

#[test]
fn the_first_argument_that_decides_wins() {
    assert!(parse_args(&["ten", "--help"]).is_err());
    assert_eq!(parse_args(&["1", "2", "3", "4", "-h"]), Ok(Action::Help));
}

#[test]
fn a_piped_session_prints_the_phase_and_its_length() {
    let timer = Timer::start(Plan::default(), Instant::origin());
    assert_eq!(phase_line(&timer), "work 25:00");
}

#[test]
fn a_phase_that_runs_out_is_announced_once() {
    let start = Instant::origin();
    let mut timer = Timer::start(Plan::default(), start);
    assert_eq!(announce(&mut timer, start.after(minutes(24))), None);
    let end = start.after(minutes(25));
    let alert = announce(&mut timer, end).expect("the work phase ran out");
    assert_eq!(alert.body, "Break time — 5 min");
    assert_eq!(timer.phase(), Phase::Break);
    assert_eq!(announce(&mut timer, end), None);
}

#[test]
fn the_keys_steer_a_watched_session() {
    let start = Instant::origin();
    let mut timer = Timer::start(Plan::default(), start);
    let press = |c: char| KeyEvent::new(KeyCode::Char(c), KeyModifiers::none());

    assert!(!obey(&mut timer, press(' '), start.after(minutes(1))));
    assert!(timer.is_paused());
    assert!(!obey(&mut timer, press(' '), start.after(minutes(2))));
    assert!(!timer.is_paused());
    assert!(!obey(&mut timer, press('s'), start.after(minutes(3))));
    assert_eq!(timer.phase(), Phase::Break);
    assert!(!obey(&mut timer, press('x'), start.after(minutes(3))));
    assert_eq!(timer.phase(), Phase::Break);
    assert!(obey(&mut timer, press('q'), start.after(minutes(4))));
    assert_eq!(timer.summary(start.after(minutes(4))).focused, minutes(2));
}
