//! What the desktop is told when a phase is over.

use vstd::prelude::*;

use crate::strings::{decimal, push_decimal};
use crate::time::{Duration, NANOS_PER_SEC};
use crate::timer::{Phase, Transition};

verus! {

/// The icon shown beside the notification.
pub const ICON: &'static str = "utilities-terminal";

/// How long the notification stays up, in milliseconds, as `notify-send`
/// takes it.
pub const TIMEOUT_MS: &'static str = "5000";

/// Where the sounds are found.
pub const SOUNDS: &'static str = "/usr/share/sounds/freedesktop/stereo";

/// A notification and the sound that goes with it.
#[derive(Clone, Debug, PartialEq, Eq)]
pub struct Alert {
    /// Urgency as `notify-send` spells it.
    pub urgency: &'static str,
    /// The line the user reads.
    pub body: String,
    /// Absolute path of the sound file to play.
    pub sound: String,
}

/// What a notification says has started.
pub open spec fn started_text(phase: Phase) -> Seq<char> {
    match phase {
        Phase::Work => "Back to work"@,
        Phase::Break => "Break time"@,
        Phase::LongBreak => "Long break"@,
    }
}

/// Nanoseconds in a minute.
pub open spec fn nanos_per_minute() -> nat {
    60 * (NANOS_PER_SEC as nat)
}

/// A phase length in whole minutes, rounded up, and never less than one.
pub open spec fn minutes_up(nanos: nat) -> nat {
    let minutes = nanos / nanos_per_minute() + if nanos % nanos_per_minute() > 0 {
        1nat
    } else {
        0nat
    };
    if minutes < 1 {
        1
    } else {
        minutes
    }
}

/// A phase length the way a notification reads it.
pub open spec fn minutes_text(nanos: nat) -> Seq<char> {
    decimal(minutes_up(nanos)) + " min"@
}

/// The line the user reads when `started` begins and lasts `nanos`.
pub open spec fn body_text(started: Phase, nanos: nat) -> Seq<char> {
    started_text(started) + " — "@ + minutes_text(nanos)
}

/// The sound file called `name`.
pub open spec fn sound_path(name: Seq<char>) -> Seq<char> {
    SOUNDS@ + "/"@ + name + ".oga"@
}

/// Being called back to work is critical; a break is not.
pub open spec fn urgency_of(started: Phase) -> Seq<char> {
    if started == Phase::Work {
        "critical"@
    } else {
        "normal"@
    }
}

/// A bell calls the user back to work; a softer sound lets them go.
pub open spec fn sound_of(started: Phase) -> Seq<char> {
    if started == Phase::Work {
        sound_path("bell"@)
    } else {
        sound_path("complete"@)
    }
}

/// The arguments `notify-send` is called with for an alert.
pub open spec fn notify_args(urgency: Seq<char>, body: Seq<char>) -> Seq<Seq<char>> {
    seq!["-u"@, urgency, "-t"@, TIMEOUT_MS@, "-i"@, ICON@, "pomctl"@, body]
}

impl Alert {
    /// Describes what the user should be told about `transition`.
    pub fn new(transition: Transition) -> (alert: Self)
        ensures
            alert.urgency@ == urgency_of(transition.started),
            alert.body@ == body_text(transition.started, transition.length@),
            alert.sound@ == sound_of(transition.started),
    {
        let mut body = String::new();
        body.append(started_label(transition.started));
        body.append(" — ");
        body.append(minutes(transition.length).as_str());
        match transition.started {
            // Being called back to work is the one that must survive a
            // do-not-disturb rule, so it is the one marked critical.
            Phase::Work => Alert { urgency: "critical", body, sound: sound("bell") },
            Phase::Break | Phase::LongBreak => Alert {
                urgency: "normal",
                body,
                sound: sound("complete"),
            },
        }
    }

    /// Returns the arguments `notify-send` is called with.
    pub fn args(&self) -> (args: Vec<String>)
        ensures
            args@.map_values(|arg: String| arg@) == notify_args(self.urgency@, self.body@),
    {
        let mut args: Vec<String> = Vec::new();
        args.push("-u".to_owned());
        args.push(self.urgency.to_owned());
        args.push("-t".to_owned());
        args.push(TIMEOUT_MS.to_owned());
        args.push("-i".to_owned());
        args.push(ICON.to_owned());
        args.push("pomctl".to_owned());
        args.push(self.body.clone());
        assert(args@.map_values(|arg: String| arg@) == notify_args(self.urgency@, self.body@));
        args
    }
}

fn sound(name: &str) -> (path: String)
    ensures
        path@ == sound_path(name@),
{
    let mut path = String::new();
    path.append(SOUNDS);
    path.append("/");
    path.append(name);
    path.append(".oga");
    path
}

fn started_label(phase: Phase) -> (text: &'static str)
    ensures
        text@ == started_text(phase),
{
    match phase {
        Phase::Work => "Back to work",
        Phase::Break => "Break time",
        Phase::LongBreak => "Long break",
    }
}

/// Writes a phase length the way a notification should read it.
///
/// Rounded up, because a notification that says `0 min` would be worse than
/// one off by a few seconds.
fn minutes(length: Duration) -> (text: String)
    ensures
        text@ == minutes_text(length@),
{
    let secs = length.as_secs();
    let part = length.subsec_nanos();
    proof {
        let n = length@ as int;
        let d = NANOS_PER_SEC as int;
        vstd::arithmetic::div_mod::lemma_fundamental_div_mod(n, d);
        let q = secs as int / 60;
        let r = secs as int % 60;
        vstd::arithmetic::div_mod::lemma_fundamental_div_mod(secs as int, 60);
        assert(n == q * (60 * d) + (r * d + part)) by (nonlinear_arith)
            requires
                n == d * secs + part,
                secs == 60 * q + r,
        ;
        assert(0 <= r * d + part < 60 * d) by (nonlinear_arith)
            requires
                0 <= r < 60,
                0 <= part < d,
                d == NANOS_PER_SEC,
        ;
        vstd::arithmetic::div_mod::lemma_fundamental_div_mod_converse(n, 60 * d, q, r * d + part);
        assert(r * d + part > 0 <==> (r > 0 || part > 0)) by (nonlinear_arith)
            requires
                0 <= r,
                0 <= part,
                d == NANOS_PER_SEC,
        ;
    }
    // A part second counts towards the last minute, as a part minute does.
    let rounded = secs / 60 + if secs % 60 > 0 || part > 0 {
        1u64
    } else {
        0u64
    };
    let minutes = if rounded < 1 {
        1
    } else {
        rounded
    };
    let mut text = String::new();
    push_decimal(&mut text, minutes);
    text.append(" min");
    text
}

/// A notification never says a phase lasts no time at all, and never says it
/// lasts less than it does: lengths are rounded up to the next whole minute,
/// a part second included.
pub proof fn law_a_length_never_reads_as_no_time(nanos: nat)
    ensures
        minutes_up(nanos) >= 1,
        minutes_up(nanos) * nanos_per_minute() >= nanos,
        nanos > 0 ==> (minutes_up(nanos) - 1) * nanos_per_minute() < nanos,
{
    let d = nanos_per_minute() as int;
    let q = nanos as int / d;
    let r = nanos as int % d;
    vstd::arithmetic::div_mod::lemma_fundamental_div_mod(nanos as int, d);
    if r > 0 {
        assert((q + 1) * d >= nanos) by (nonlinear_arith)
            requires
                nanos == d * q + r,
                r < d,
        ;
        assert(q * d < nanos) by (nonlinear_arith)
            requires
                nanos == d * q + r,
                r > 0,
        ;
    } else if q >= 1 {
        assert(q * d >= nanos && (q - 1) * d < nanos) by (nonlinear_arith)
            requires
                nanos == d * q + r,
                r == 0,
                d > 0,
        ;
    } else {
        assert(nanos == 0) by (nonlinear_arith)
            requires
                nanos == d * q + r,
                r == 0,
                q == 0,
        ;
    }
}

/// Only being called back to work is marked critical and rings the bell, so
/// that a do-not-disturb rule cannot hold it back; the end of work is
/// announced as normal.
pub proof fn law_only_the_call_back_to_work_is_critical(started: Phase)
    ensures
        urgency_of(started) == "critical"@ <==> started == Phase::Work,
        urgency_of(started) == "normal"@ <==> started != Phase::Work,
{
    reveal_strlit("critical");
    reveal_strlit("normal");
    assert("critical"@[0] != "normal"@[0]);
}

/// The bell rings only to call the user back to work: every other phase that
/// starts, the long break as much as the short one, plays the softer sound.
pub proof fn law_only_the_call_back_to_work_rings_the_bell(started: Phase)
    ensures
        sound_of(started) == "/usr/share/sounds/freedesktop/stereo/bell.oga"@ <==> started
            == Phase::Work,
        started != Phase::Work ==> sound_of(started)
            == "/usr/share/sounds/freedesktop/stereo/complete.oga"@,
{
    reveal_strlit("/usr/share/sounds/freedesktop/stereo");
    reveal_strlit("/");
    reveal_strlit("bell");
    reveal_strlit("complete");
    reveal_strlit(".oga");
    reveal_strlit("/usr/share/sounds/freedesktop/stereo/bell.oga");
    reveal_strlit("/usr/share/sounds/freedesktop/stereo/complete.oga");
    let bell = "/usr/share/sounds/freedesktop/stereo/bell.oga"@;
    let complete = "/usr/share/sounds/freedesktop/stereo/complete.oga"@;
    assert(sound_path("bell"@) =~= bell);
    assert(sound_path("complete"@) =~= complete);
    assert(bell[37] != complete[37]);
}

/// The body reaches `notify-send` as its last argument, whole however it is
/// worded, and the urgency right after its flag.
pub proof fn law_the_body_is_one_argument(urgency: Seq<char>, body: Seq<char>)
    ensures
        notify_args(urgency, body).len() == 8,
        notify_args(urgency, body).last() == body,
        notify_args(urgency, body)[0] == "-u"@,
        notify_args(urgency, body)[1] == urgency,
        notify_args(urgency, body)[6] == "pomctl"@,
{
}

} // verus!
