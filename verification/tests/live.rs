use pomctl::live::{clock, frame, gauge, label, View, GAUGE_WIDTH, HINT};
use pomctl::time::{Duration, Instant};
use pomctl::timer::{Phase, Plan, Timer};

fn minutes(count: u64) -> Duration {
    Duration::from_secs(count * 60)
}

fn view(phase: Phase, remaining: Duration, length: Duration) -> View {
    View {
        phase,
        session: 2,
        remaining,
        length,
        paused: false,
    }
}

fn working() -> View {
    view(
        Phase::Work,
        minutes(12).plus(Duration::from_secs(7)),
        minutes(25),
    )
}

/// The gauge columns filled for `view` in a `width` column frame: the share
/// of the phase gone, rounded to the nearest column.
fn filled(view: View, width: u16) -> usize {
    let seconds = |d: Duration| d.as_secs() as f64 + d.subsec_nanos() as f64 / 1e9;
    let fraction = if view.length.is_zero() {
        1.0
    } else {
        (seconds(view.length.saturating_sub(view.remaining)) / seconds(view.length)).clamp(0.0, 1.0)
    };
    let columns = GAUGE_WIDTH.min(width as usize);
    (fraction * columns as f64).round() as usize
}

fn draw(view: View, width: u16) -> Vec<String> {
    frame(view, width, filled(view, width))
}

#[test]
fn a_full_phase_reads_as_its_whole_length() {
    assert_eq!(clock(minutes(25)), "25:00");
}

#[test]
fn a_part_second_is_rounded_up_so_the_clock_never_shows_a_zero_early() {
    assert_eq!(clock(Duration::from_millis(200)), "00:01");
    assert_eq!(clock(Duration::from_millis(59_500)), "01:00");
}

#[test]
fn a_spent_phase_reads_as_zero() {
    assert_eq!(clock(Duration::zero()), "00:00");
}

#[test]
fn an_hour_long_phase_keeps_counting_in_minutes() {
    assert_eq!(clock(minutes(100)), "100:00");
}

#[test]
fn a_work_phase_says_where_it_sits_in_the_cycle() {
    assert_eq!(label(working()), "WORK 2/4");
}

#[test]
fn a_break_is_named_without_a_count_it_does_not_have() {
    assert_eq!(label(view(Phase::Break, minutes(1), minutes(5))), "BREAK");
    assert_eq!(
        label(view(Phase::LongBreak, minutes(1), minutes(15))),
        "LONG BREAK"
    );
}

#[test]
fn a_running_phase_is_drawn_large() {
    let drawn = draw(working(), 80);
    assert_eq!(drawn[0], "WORK 2/4");
    assert!(
        drawn.iter().any(|line| line.contains('█')),
        "the time is shown as block digits"
    );
}

#[test]
fn a_window_too_narrow_for_the_art_still_shows_the_time() {
    let drawn = draw(working(), 20);
    assert!(
        drawn.iter().any(|line| line.contains("12:07")),
        "giving up the block digits must not mean giving up the clock"
    );
}

#[test]
fn no_frame_is_wider_than_the_screen_it_was_built_for() {
    for width in [10u16, 20, 34, 40, 80, 200] {
        for paused in [false, true] {
            let drawn = draw(
                View {
                    paused,
                    ..working()
                },
                width,
            );
            let widest = drawn.iter().map(|line| line.chars().count()).max().unwrap();
            assert!(
                widest <= width as usize,
                "a {width} column screen was given a {widest} column frame, which wraps"
            );
        }
    }
}

#[test]
fn a_narrow_frame_drops_the_hint_before_it_drops_the_clock() {
    let drawn = draw(working(), 20);
    assert!(!drawn.iter().any(|line| line.contains("pause")));
    assert!(drawn.iter().any(|line| line.contains("12:07")));
}

#[test]
fn a_wide_frame_says_what_the_keys_do() {
    let drawn = draw(working(), 80);
    assert!(drawn.contains(&HINT.to_owned()));
}

#[test]
fn a_paused_clock_says_so_on_the_screen() {
    let running = draw(working(), 80);
    let paused = draw(
        View {
            paused: true,
            ..working()
        },
        80,
    );

    assert!(paused.contains(&"PAUSED".to_owned()));
    assert!(
        !running.contains(&"PAUSED".to_owned()),
        "a running clock must not claim to be paused"
    );
}

#[test]
fn the_gauge_is_the_same_width_however_full_it_is() {
    for filled in [0.0f64, 0.33, 0.5, 1.0] {
        let full = (filled * GAUGE_WIDTH as f64).round() as usize;
        assert_eq!(
            gauge(full, 80).chars().count(),
            GAUGE_WIDTH,
            "a bar that changes width would make the frame jitter"
        );
    }
}

#[test]
fn the_gauge_narrows_to_fit_a_small_window() {
    assert_eq!(gauge(5, 10).chars().count(), 10);
}

#[test]
fn the_gauge_fills_from_the_left() {
    assert_eq!(gauge(3, 5), "███░░");
    assert_eq!(gauge(0, 4), "░░░░");
}

#[test]
fn a_frame_is_the_label_the_digits_the_gauge_and_the_hint() {
    let drawn = draw(working(), 80);
    assert_eq!(drawn.len(), 1 + 1 + 7 + 1 + 1 + 2);
    assert_eq!(drawn[1], "");
    assert_eq!(drawn[9], "");
    assert_eq!(drawn[10], gauge(16, 80));
    assert_eq!(drawn[12], HINT);
}

#[test]
fn a_reading_is_taken_from_the_timer_once() {
    let start = Instant::origin();
    let mut timer = Timer::start(Plan::default(), start);
    timer.toggle_pause(start.after(minutes(3)));
    let reading = View::of(&timer, start.after(minutes(9)));
    assert_eq!(reading.phase, Phase::Work);
    assert_eq!(reading.session, 1);
    assert_eq!(reading.remaining, minutes(22));
    assert_eq!(reading.length, minutes(25));
    assert!(reading.paused);
}
