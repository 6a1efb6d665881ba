use pomctl::notify::Alert;
use pomctl::time::Duration;
use pomctl::timer::{Phase, Transition};

fn transition(started: Phase, minutes: u64) -> Transition {
    Transition {
        finished: if started == Phase::Work { Phase::Break } else { Phase::Work },
        started,
        length: Duration::from_secs(minutes * 60),
    }
}

#[test]
fn the_end_of_work_announces_the_break_and_how_long_it_is() {
    let alert = Alert::new(transition(Phase::Break, 5));
    assert_eq!(alert.body, "Break time — 5 min");
    assert_eq!(alert.urgency, "normal");
    assert!(alert.sound.ends_with("complete.oga"));
}

#[test]
fn a_long_break_is_named_as_one() {
    let alert = Alert::new(transition(Phase::LongBreak, 15));
    assert_eq!(alert.body, "Long break — 15 min");
    assert_eq!(alert.urgency, "normal");
}

#[test]
fn being_called_back_to_work_is_critical_so_it_is_not_held_back() {
    let alert = Alert::new(transition(Phase::Work, 25));
    assert_eq!(alert.body, "Back to work — 25 min");
    assert_eq!(alert.urgency, "critical");
    assert!(alert.sound.ends_with("bell.oga"));
}

#[test]
fn the_body_is_passed_as_one_argument_however_it_is_worded() {
    let alert = Alert::new(transition(Phase::Break, 5));
    let args = alert.args();
    assert_eq!(
        args.last().map(String::as_str),
        Some("Break time — 5 min"),
        "a body split across arguments would show as a truncated message"
    );
    assert!(
        args.contains(&"pomctl".to_owned()),
        "the summary is the app name"
    );
}

#[test]
fn the_urgency_reaches_notify_send_next_to_its_flag() {
    let args = Alert::new(transition(Phase::Work, 25)).args();
    let flag = args
        .iter()
        .position(|arg| arg == "-u")
        .expect("urgency flag");
    assert_eq!(args[flag + 1], "critical");
}

#[test]
fn a_length_of_seconds_never_reads_as_no_time_at_all() {
    let alert = Alert::new(Transition {
        finished: Phase::Work,
        started: Phase::Break,
        length: Duration::from_secs(30),
    });
    assert_eq!(alert.body, "Break time — 1 min");
}

#[test]
fn the_sounds_live_where_freedesktop_keeps_them() {
    let alert = Alert::new(transition(Phase::Work, 25));
    assert_eq!(alert.sound, "/usr/share/sounds/freedesktop/stereo/bell.oga");
    assert_eq!(
        alert.args(),
        vec!["-u", "critical", "-t", "5000", "-i", "utilities-terminal", "pomctl", "Back to work — 25 min"]
    );
}

#[test]
fn a_length_is_rounded_up_to_the_minute() {
    assert_eq!(
        Alert::new(Transition {
            finished: Phase::Work,
            started: Phase::Break,
            length: Duration::from_secs(61),
        })
        .body,
        "Break time — 2 min"
    );
    assert_eq!(
        Alert::new(Transition {
            finished: Phase::Work,
            started: Phase::Break,
            length: Duration::from_millis(59_900),
        })
        .body,
        "Break time — 1 min"
    );
    assert_eq!(
        Alert::new(Transition {
            finished: Phase::Work,
            started: Phase::Break,
            length: Duration::from_millis(60_500),
        })
        .body,
        "Break time — 2 min",
        "a part second is part of the last minute"
    );
    assert_eq!(
        Alert::new(Transition {
            finished: Phase::Work,
            started: Phase::Break,
            length: Duration::new(300, 1),
        })
        .body,
        "Break time — 6 min"
    );
    assert_eq!(
        Alert::new(Transition {
            finished: Phase::Work,
            started: Phase::Break,
            length: Duration::zero(),
        })
        .body,
        "Break time — 1 min"
    );
}
