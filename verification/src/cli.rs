//! Reading the command line, and the decisions a running session makes.

use vstd::prelude::*;

use crate::input::{command_for, Command, KeyEvent};
use crate::live::{clock, clock_limit, clock_text};
use crate::notify::{body_text, sound_of, urgency_of, Alert};
use crate::strings::{decimal, push_decimal};
use crate::time::{Duration, Instant, MAX_NANOS, NANOS_PER_SEC};
use crate::timer::{phase_label, Phase, Plan, Summary, Timer};

verus! {

/// The longest phase that can be asked for, in minutes.
pub const MAX_MINUTES: u64 = 1440;

/// How many durations the command line can set.
pub const SLOTS: usize = 3;

/// What the command line asked for.
#[derive(Clone, Copy, Debug, PartialEq, Eq, Structural)]
pub enum Action {
    /// Run a session to this plan.
    Run(Plan),
    /// Print the usage and stop.
    Help,
}

/// What the command line asked for, spans in nanoseconds.
pub enum ActionView {
    Run { work: nat, short_break: nat, long_break: nat },
    Help,
}

/// An action as the proofs see it.
pub open spec fn action_view(action: Action) -> ActionView {
    match action {
        Action::Run(plan) => ActionView::Run {
            work: plan.work@,
            short_break: plan.short_break@,
            long_break: plan.long_break@,
        },
        Action::Help => ActionView::Help,
    }
}

/// A parse as the proofs see it.
pub open spec fn parse_view(parsed: Result<Action, String>) -> Result<ActionView, Seq<char>> {
    match parsed {
        Ok(action) => Ok(action_view(action)),
        Err(complaint) => Err(complaint@),
    }
}

/// Whether `c` is an ASCII digit.
pub open spec fn is_digit(c: char) -> bool {
    48 <= c as u32 <= 57
}

/// The number the digits `s` write in decimal.
pub open spec fn digits_value(s: Seq<char>) -> nat
    decreases s.len(),
{
    if s.len() == 0 {
        0
    } else {
        digits_value(s.drop_last()) * 10 + (s.last() as u32 - 48) as nat
    }
}

/// `s` without a leading plus sign.
pub open spec fn unsigned_part(s: Seq<char>) -> Seq<char> {
    if s.len() > 0 && s[0] == '+' {
        s.drop_first()
    } else {
        s
    }
}

/// The number `s` writes, as `u64::from_str` reads it: an optional plus
/// sign and one or more decimal digits, naming a value that fits in a `u64`.
pub open spec fn parsed_u64(s: Seq<char>) -> Option<nat> {
    let digits = unsigned_part(s);
    if digits.len() > 0 && (forall|i: int| 0 <= i < digits.len() ==> is_digit(#[trigger] digits[i]))
        && digits_value(digits) <= u64::MAX {
        Some(digits_value(digits))
    } else {
        None
    }
}

/// A longer run of digits writes at least as large a number.
proof fn lemma_digits_grow(s: Seq<char>, k: int)
    requires
        0 <= k <= s.len(),
        forall|i: int| 0 <= i < s.len() ==> is_digit(#[trigger] s[i]),
    ensures
        digits_value(s.take(k)) <= digits_value(s),
    decreases s.len() - k,
{
    if k < s.len() {
        let longer = s.take(k + 1);
        assert(longer.drop_last() == s.take(k));
        assert(is_digit(s[k]));
        lemma_digits_grow(s, k + 1);
    } else {
        assert(s.take(k) == s);
    }
}

/// Reads `text` as a `u64` the way `u64::from_str` does.
pub fn parse_u64(text: &Vec<char>) -> (value: Option<u64>)
    ensures
        match value {
            Some(v) => parsed_u64(text@) == Some(v as nat),
            None => parsed_u64(text@) is None,
        },
{
    let start: usize = if text.len() > 0 && text[0] == '+' {
        1
    } else {
        0
    };
    let ghost digits = unsigned_part(text@);
    assert(digits == text@.skip(start as int));
    if start == text.len() {
        return None;
    }
    for i in start..text.len()
        invariant
            digits == unsigned_part(text@),
            digits == text@.skip(start as int),
            forall|j: int| 0 <= j < i - start ==> is_digit(#[trigger] digits[j]),
    {
        let c = text[i] as u32;
        assert(digits[i - start] == text@[i as int]);
        if c < 48 || c > 57 {
            assert(!is_digit(digits[i - start]));
            return None;
        }
    }
    let mut value: u64 = 0;
    for i in start..text.len()
        invariant
            digits == unsigned_part(text@),
            digits == text@.skip(start as int),
            forall|j: int| 0 <= j < digits.len() ==> is_digit(#[trigger] digits[j]),
            value == digits_value(digits.take(i - start)),
    {
        assert(digits[i - start] == text@[i as int]);
        assert(digits.take(i - start + 1).drop_last() == digits.take(i - start));
        let d = (text[i] as u32 - 48) as u64;
        assert(is_digit(digits[i - start]));
        assert(digits.take(i - start + 1).last() == text@[i as int]);
        assert(digits_value(digits.take(i - start + 1)) == value * 10 + d);
        if value > (u64::MAX - d) / 10 {
            proof {
                lemma_digits_grow(digits, i - start + 1);
            }
            assert(digits_value(digits) > u64::MAX);
            return None;
        }
        value = value * 10 + d;
    }
    assert(digits.take(digits.len() as int) == digits);
    Some(value)
}

/// `text` as `{:?}` writes a `str`: quoted, with quotes, backslashes and
/// unprintable characters escaped.
pub uninterp spec fn debug_quoted(text: Seq<char>) -> Seq<char>;

/// Whether `c` is printable ASCII that `{:?}` writes as it is: not a quote,
/// an apostrophe or a backslash.
pub open spec fn plain_char(c: char) -> bool {
    32 <= c as u32 <= 126 && c != '"' && c != '\'' && c != '\\'
}

/// `<str as Debug>::fmt`, through `format!`. The contract names the result,
/// and says only of text made of plain printable ASCII that it is written
/// between double quotes as it is; how other characters are escaped it
/// leaves unsaid.
#[verifier::external_body]
fn quoted(text: &str) -> (quoted: String)
    ensures
        quoted@ == debug_quoted(text@),
        (forall|i: int| 0 <= i < text@.len() ==> plain_char(#[trigger] text@[i])) ==> quoted@
            == seq!['"'] + text@ + seq!['"'],
{
    format!("{text:?}")
}

/// `text` as `{:?}` writes a `str`.
pub open spec fn quoted_text(text: Seq<char>) -> Seq<char> {
    if forall|i: int| 0 <= i < text.len() ==> plain_char(#[trigger] text[i]) {
        seq!['"'] + text + seq!['"']
    } else {
        debug_quoted(text)
    }
}

/// One argument read as a phase length in nanoseconds, or what is wrong
/// with it.
pub open spec fn minutes_result(argument: Seq<char>) -> Result<nat, Seq<char>> {
    match parsed_u64(argument) {
        None => Err(quoted_text(argument) + " is not a number of minutes"@),
        Some(minutes) => if minutes == 0 || minutes > MAX_MINUTES {
            Err(
                "a phase is between 1 and "@ + decimal(MAX_MINUTES as nat) + " minutes, got "@
                    + decimal(minutes),
            )
        } else {
            Ok((minutes * 60 * NANOS_PER_SEC) as nat)
        },
    }
}

/// Reads one argument as a phase length.
fn minutes(argument: &String) -> (length: Result<Duration, String>)
    ensures
        match length {
            Ok(d) => minutes_result(argument@) == Ok::<nat, Seq<char>>(d@),
            Err(complaint) => minutes_result(argument@) == Err::<nat, Seq<char>>(complaint@),
        },
{
    let text = crate::strings::chars_of(argument.as_str());
    match parse_u64(&text) {
        None => {
            let mut complaint = quoted(argument.as_str());
            complaint.append(" is not a number of minutes");
            Err(complaint)
        },
        Some(minutes) => {
            // Zero would leave a phase that ends the instant it starts,
            // notifying in a loop as fast as the terminal can be drawn.
            if minutes == 0 || minutes > MAX_MINUTES {
                let mut complaint = String::new();
                complaint.append("a phase is between 1 and ");
                push_decimal(&mut complaint, MAX_MINUTES);
                complaint.append(" minutes, got ");
                push_decimal(&mut complaint, minutes);
                Err(complaint)
            } else {
                Ok(Duration::from_secs(minutes * 60))
            }
        },
    }
}

/// Whether an argument asks for the usage.
pub open spec fn is_help(argument: Seq<char>) -> bool {
    argument == "-h"@ || argument == "--help"@
}

/// The classic plan's spans, in nanoseconds.
pub open spec fn default_work() -> nat {
    (25 * 60 * NANOS_PER_SEC) as nat
}

pub open spec fn default_short_break() -> nat {
    (5 * 60 * NANOS_PER_SEC) as nat
}

pub open spec fn default_long_break() -> nat {
    (15 * 60 * NANOS_PER_SEC) as nat
}

/// The action for the phase lengths read from the command line: the first
/// sets the work phase, the second the short break and the third the long
/// break, the others keeping the classic lengths; more than three are refused.
pub open spec fn plan_from(lengths: Seq<nat>) -> Result<ActionView, Seq<char>> {
    if lengths.len() > SLOTS {
        Err("expected at most "@ + decimal(SLOTS as nat) + " durations, got "@ + decimal(
            lengths.len(),
        ))
    } else {
        Ok(
            ActionView::Run {
                work: if lengths.len() > 0 { lengths[0] } else { default_work() },
                short_break: if lengths.len() > 1 { lengths[1] } else { default_short_break() },
                long_break: if lengths.len() > 2 { lengths[2] } else { default_long_break() },
            },
        )
    }
}

/// What `arguments` ask for, `lengths` having been read before them: help
/// at the first argument that asks for it, unless an argument before it is
/// refused; otherwise the plan the lengths make.
pub open spec fn scan(arguments: Seq<Seq<char>>, lengths: Seq<nat>) -> Result<ActionView, Seq<char>>
    decreases arguments.len(),
{
    if arguments.len() == 0 {
        plan_from(lengths)
    } else if is_help(arguments[0]) {
        Ok(ActionView::Help)
    } else {
        match minutes_result(arguments[0]) {
            Err(complaint) => Err(complaint),
            Ok(length) => scan(arguments.drop_first(), lengths.push(length)),
        }
    }
}

/// The arguments as the proofs see them.
pub open spec fn arguments_view(arguments: Seq<String>) -> Seq<Seq<char>> {
    arguments.map_values(|argument: String| argument@)
}

fn asks_for_help(argument: &String) -> (b: bool)
    ensures
        b == is_help(argument@),
{
    let short = "-h".to_owned();
    let long = "--help".to_owned();
    *argument == short || *argument == long
}

/// Reads the arguments as a plan, or says what is wrong with them.
///
/// Durations are positional and optional from the right, so the common case of
/// a longer work phase is `pomctl 50` and nothing else has to be repeated.
pub fn parse(arguments: &[String]) -> (action: Result<Action, String>)
    ensures
        parse_view(action) == scan(arguments_view(arguments@), seq![]),
{
    let ghost all = arguments_view(arguments@);
    let mut lengths: Vec<Duration> = Vec::new();
    assert(all.skip(0) == all);
    assert(lengths@.map_values(|d: Duration| d@) == Seq::<nat>::empty());
    for i in 0..arguments.len()
        invariant
            all == arguments_view(arguments@),
            scan(all, seq![]) == scan(
                all.skip(i as int),
                lengths@.map_values(|d: Duration| d@),
            ),
    {
        let ghost seen = lengths@.map_values(|d: Duration| d@);
        assert(all.skip(i as int)[0] == arguments@[i as int]@);
        assert(all.skip(i as int).drop_first() == all.skip(i + 1));
        if asks_for_help(&arguments[i]) {
            return Ok(Action::Help);
        }
        match minutes(&arguments[i]) {
            Err(complaint) => {
                return Err(complaint);
            },
            Ok(length) => {
                lengths.push(length);
                assert(lengths@.map_values(|d: Duration| d@) == seen.push(length@));
            },
        }
    }
    let ghost read = lengths@.map_values(|d: Duration| d@);
    assert(all.skip(arguments.len() as int) == Seq::<Seq<char>>::empty());
    if lengths.len() > SLOTS {
        let mut complaint = String::new();
        complaint.append("expected at most ");
        push_decimal(&mut complaint, SLOTS as u64);
        complaint.append(" durations, got ");
        push_decimal(&mut complaint, lengths.len() as u64);
        return Err(complaint);
    }
    let mut plan = Plan::default();
    if lengths.len() > 0 {
        assert(read[0] == lengths[0]@);
        plan = Plan { work: lengths[0], ..plan };
    }
    if lengths.len() > 1 {
        assert(read[1] == lengths[1]@);
        plan = Plan { short_break: lengths[1], ..plan };
    }
    if lengths.len() > 2 {
        assert(read[2] == lengths[2]@);
        plan = Plan { long_break: lengths[2], ..plan };
    }
    Ok(Action::Run(plan))
}

/// Time worked, in whole minutes, as the summary writes it.
pub open spec fn focused_text(minutes: nat) -> Seq<char> {
    if minutes >= 60 {
        decimal(minutes / 60) + "h "@ + decimal(minutes % 60) + "m"@
    } else {
        decimal(minutes) + "m"@
    }
}

/// A count of pomodoros, singular for one.
pub open spec fn pomodoros_text(count: nat) -> Seq<char> {
    if count == 1 {
        "1 pomodoro"@
    } else {
        decimal(count) + " pomodoros"@
    }
}

/// The line a session ends on.
pub open spec fn summary_text(pomodoros: nat, focused_nanos: nat) -> Seq<char> {
    pomodoros_text(pomodoros) + " completed — "@ + focused_text(
        focused_nanos / (NANOS_PER_SEC as nat) / 60,
    ) + " focused"@
}

/// Writes what the session came to.
pub fn summary_line(summary: Summary) -> (line: String)
    ensures
        line@ == summary_text(summary.pomodoros as nat, summary.focused@),
{
    let minutes = summary.focused.as_secs() / 60;
    let mut line = String::new();
    if summary.pomodoros == 1 {
        line.append("1 pomodoro");
    } else {
        push_decimal(&mut line, summary.pomodoros as u64);
        line.append(" pomodoros");
    }
    line.append(" completed — ");
    if minutes >= 60 {
        push_decimal(&mut line, minutes / 60);
        line.append("h ");
        push_decimal(&mut line, minutes % 60);
        line.append("m");
    } else {
        push_decimal(&mut line, minutes);
        line.append("m");
    }
    line.append(" focused");
    line
}

/// Moves the cycle on if the phase is over, and says what to tell the
/// desktop if it was.
///
/// Returns the alert for the phase that started, or `None` if the phase
/// still has time left; sending it is the caller's part.
pub fn announce(timer: &mut Timer, now: Instant) -> (alert: Option<Alert>)
    requires
        old(timer)@.runs_out(now@) && old(timer)@.phase == Phase::Work
            ==> old(timer)@.room_for_credit(),
    ensures
        final(timer)@ == old(timer)@.ticked(now@),
        alert is Some <==> old(timer)@.runs_out(now@),
        alert matches Some(a) ==> {
            let started = old(timer)@.next_phase();
            &&& a.urgency@ == urgency_of(started)
            &&& a.body@ == body_text(started, old(timer)@.plan.span(started)@)
            &&& a.sound@ == sound_of(started)
        },
{
    match timer.tick(now) {
        Some(transition) => Some(Alert::new(transition)),
        None => None,
    }
}

/// The line a piped session prints as a phase starts.
pub open spec fn phase_text(phase: Phase, length: nat) -> Seq<char> {
    phase_label(phase) + " "@ + clock_text(length)
}

/// Writes the phase now running and how long it lasts.
pub fn phase_line(timer: &Timer) -> (line: String)
    requires
        timer@.length <= clock_limit(),
    ensures
        line@ == phase_text(timer@.phase, timer@.length),
{
    let mut line = String::new();
    line.append(timer.phase().label());
    line.append(" ");
    line.append(clock(timer.length()).as_str());
    line
}

/// Acts on a key pressed while a session is watched, at `now`.
///
/// Returns whether the key asked to quit; a pause or a skip is applied to the
/// timer, and any other key leaves it as it was.
pub fn obey(timer: &mut Timer, key: KeyEvent, now: Instant) -> (quit: bool)
    requires
        command_for(key) == Some(Command::Skip) ==> old(timer)@.focused_at(now@) <= MAX_NANOS,
    ensures
        quit == (command_for(key) == Some(Command::Quit)),
        final(timer)@ == match command_for(key) {
            Some(Command::Pause) => old(timer)@.toggled(now@),
            Some(Command::Skip) => old(timer)@.skipped(now@),
            _ => old(timer)@,
        },
{
    match Command::from_key(key) {
        Some(Command::Quit) => true,
        Some(Command::Pause) => {
            timer.toggle_pause(now);
            false
        },
        Some(Command::Skip) => {
            timer.skip(now);
            false
        },
        None => false,
    }
}

/// Whether every one of `arguments` is a phase length that is accepted.
pub open spec fn all_lengths(arguments: Seq<Seq<char>>) -> bool {
    forall|i: int|
        0 <= i < arguments.len() ==> !is_help(#[trigger] arguments[i]) && minutes_result(
            arguments[i],
        ) is Ok
}

/// The phase lengths `arguments` write, in nanoseconds.
pub open spec fn lengths_of(arguments: Seq<Seq<char>>) -> Seq<nat> {
    arguments.map_values(|argument: Seq<char>| minutes_result(argument)->Ok_0)
}

/// Phase lengths are positional: with nothing but accepted lengths on the
/// command line, the first sets the work phase, the second the short break
/// and the third the long break, the rest of the plan staying classic, and a
/// fourth is refused rather than dropped.
pub proof fn law_durations_are_positional(arguments: Seq<Seq<char>>, before: Seq<nat>)
    requires
        all_lengths(arguments),
    ensures
        scan(arguments, before) == plan_from(before + lengths_of(arguments)),
    decreases arguments.len(),
{
    if arguments.len() == 0 {
        assert(before + lengths_of(arguments) == before);
    } else {
        assert(!is_help(arguments[0]) && minutes_result(arguments[0]) is Ok);
        let rest = arguments.drop_first();
        assert forall|i: int| 0 <= i < rest.len() implies !is_help(#[trigger] rest[i])
            && minutes_result(rest[i]) is Ok by {
            assert(rest[i] == arguments[i + 1]);
        }
        law_durations_are_positional(rest, before.push(minutes_result(arguments[0])->Ok_0));
        assert(before.push(minutes_result(arguments[0])->Ok_0) + lengths_of(rest) == before
            + lengths_of(arguments));
    }
}

/// The command line is read from the left, and the first argument that
/// settles it wins: asking for help anywhere shows the usage however many
/// lengths came before it, and a refused argument is reported unless help was
/// asked for before it.
pub proof fn law_the_first_deciding_argument_wins(
    arguments: Seq<Seq<char>>,
    before: Seq<nat>,
    at: int,
)
    requires
        0 <= at < arguments.len(),
        all_lengths(arguments.take(at)),
    ensures
        is_help(arguments[at]) ==> scan(arguments, before) == Ok::<ActionView, Seq<char>>(
            ActionView::Help,
        ),
        !is_help(arguments[at]) && minutes_result(arguments[at]) is Err ==> scan(
            arguments,
            before,
        ) == Err::<ActionView, Seq<char>>(minutes_result(arguments[at])->Err_0),
    decreases at,
{
    if at > 0 {
        assert(arguments.take(at)[0] == arguments[0]);
        let rest = arguments.drop_first();
        assert forall|i: int| 0 <= i < rest.take(at - 1).len() implies !is_help(
            #[trigger] rest.take(at - 1)[i],
        ) && minutes_result(rest.take(at - 1)[i]) is Ok by {
            assert(rest.take(at - 1)[i] == arguments.take(at)[i + 1]);
        }
        assert(rest[at - 1] == arguments[at]);
        law_the_first_deciding_argument_wins(
            rest,
            before.push(minutes_result(arguments[0])->Ok_0),
            at - 1,
        );
    }
}

/// Each length on the command line sets its own phase: with `n` accepted
/// lengths and no more than three, the k-th phase of the plan (work, short
/// break, long break) lasts the k-th argument's number of minutes for every
/// k below `n`, and the classic 25, 5 and 15 minutes from `n` on; a fourth
/// length is refused rather than dropped.
pub proof fn law_each_length_sets_its_own_phase(arguments: Seq<Seq<char>>)
    requires
        all_lengths(arguments),
    ensures
        arguments.len() > 3 ==> scan(arguments, seq![]) is Err,
        arguments.len() <= 3 ==> scan(arguments, seq![]) == Ok::<ActionView, Seq<char>>(
            ActionView::Run {
                work: if arguments.len() > 0 {
                    parsed_u64(arguments[0])->Some_0 * 60_000_000_000
                } else {
                    25 * 60_000_000_000
                },
                short_break: if arguments.len() > 1 {
                    parsed_u64(arguments[1])->Some_0 * 60_000_000_000
                } else {
                    5 * 60_000_000_000
                },
                long_break: if arguments.len() > 2 {
                    parsed_u64(arguments[2])->Some_0 * 60_000_000_000
                } else {
                    15 * 60_000_000_000
                },
            },
        ),
{
    law_durations_are_positional(arguments, seq![]);
    let lengths = seq![] + lengths_of(arguments);
    assert(lengths == lengths_of(arguments));
    assert forall|k: int| 0 <= k < arguments.len() implies #[trigger] lengths[k]
        == parsed_u64(arguments[k])->Some_0 * 60_000_000_000 by {
        assert(minutes_result(arguments[k]) is Ok);
        assert(parsed_u64(arguments[k]) is Some);
    }
    if arguments.len() > 0 {
        assert(lengths[0] == parsed_u64(arguments[0])->Some_0 * 60_000_000_000);
    }
    if arguments.len() > 1 {
        assert(lengths[1] == parsed_u64(arguments[1])->Some_0 * 60_000_000_000);
    }
    if arguments.len() > 2 {
        assert(lengths[2] == parsed_u64(arguments[2])->Some_0 * 60_000_000_000);
    }
}

/// The summary says how many pomodoros were completed and writes the time
/// focused, in whole minutes, as it was: under an hour as minutes alone, and
/// from an hour on as hours and the minutes under sixty that remain, which
/// add back up to the minutes focused.
pub proof fn law_the_summary_tells_the_time_focused(pomodoros: nat, nanos: nat)
    ensures
        nanos / 60_000_000_000 < 60 ==> summary_text(pomodoros, nanos) == pomodoros_text(pomodoros)
            + " completed — "@ + decimal(nanos / 60_000_000_000) + "m focused"@,
        nanos / 60_000_000_000 >= 60 ==> exists|hours: nat, minutes: nat|
            #![trigger decimal(hours), decimal(minutes)]
            hours * 60 + minutes == nanos / 60_000_000_000 && minutes < 60 && summary_text(
                pomodoros,
                nanos,
            ) == pomodoros_text(pomodoros) + " completed — "@ + decimal(hours) + "h "@ + decimal(
                minutes,
            ) + "m focused"@,
        pomodoros_text(pomodoros) == decimal(pomodoros) + if pomodoros == 1 {
            " pomodoro"@
        } else {
            " pomodoros"@
        },
{
    let m = nanos / 60_000_000_000;
    assert(nanos / (NANOS_PER_SEC as nat) / 60 == m) by {
        vstd::arithmetic::div_mod::lemma_div_denominator(nanos as int, 1_000_000_000, 60);
    }
    reveal_strlit("1 pomodoro");
    reveal_strlit(" pomodoro");
    assert(decimal(1) == seq!['1']);
    assert("1 pomodoro"@ == decimal(1) + " pomodoro"@);
    let head = pomodoros_text(pomodoros) + " completed — "@;
    if m >= 60 {
        let hours = m / 60;
        let minutes = m % 60;
        assert(hours * 60 + minutes == m);
        assert(summary_text(pomodoros, nanos) == head + decimal(hours) + "h "@ + decimal(minutes)
            + "m focused"@) by {
            reveal_strlit("m");
            reveal_strlit(" focused");
            reveal_strlit("m focused");
            assert("m"@ + " focused"@ == "m focused"@);
        }
    } else {
        assert(summary_text(pomodoros, nanos) == head + decimal(m) + "m focused"@) by {
            reveal_strlit("m");
            reveal_strlit(" focused");
            reveal_strlit("m focused");
            assert("m"@ + " focused"@ == "m focused"@);
        }
    }
}

} // verus!
