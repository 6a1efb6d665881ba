//! What a running session looks like on screen.

use vstd::prelude::*;
use vstd::view::View as _;

use crate::strings::{decimal, push_char, push_decimal, two_digits};
use crate::art::FONT_SOURCE;
use crate::text::{law_glyphs_are_square_and_level, law_the_predicted_width_is_the_drawn_width, 
    block_font, center, enlarge_with, enlarged, enlarged_width_with, enlarged_width_in, drawable, font,
    strings_view,
};
use crate::time::{Duration, Instant, NANOS_PER_SEC};
use crate::timer::{phase_label, Phase, Timer, SESSIONS_PER_CYCLE};

verus! {

/// Columns the progress bar is drawn in when there is room for it.
pub const GAUGE_WIDTH: usize = 32;

/// The narrowest frame the key reminder is worth spending a row on.
pub const HINT_WIDTH: usize = 34;

/// The key reminder at the foot of a wide frame.
pub const HINT: &'static str = "space pause · s skip · q quit";

/// A timer as the screen needs to see it.
///
/// Reading the timer once per frame keeps every row of that frame agreeing
/// about the time: taking the clock again between the digits and the gauge
/// could draw a bar that has moved on past the number above it.
#[derive(Clone, Copy, Debug)]
pub struct View {
    pub phase: Phase,
    pub session: u32,
    pub remaining: Duration,
    pub length: Duration,
    pub paused: bool,
}

impl View {
    /// Takes the reading a frame is drawn from.
    pub fn of(timer: &Timer, now: Instant) -> (view: Self)
        ensures
            view.phase == timer@.phase,
            view.session == timer@.session,
            view.remaining@ == timer@.remaining_at(now@),
            view.length@ == timer@.length,
            view.paused == timer@.is_paused(),
    {
        View {
            phase: timer.phase(),
            session: timer.session(),
            remaining: timer.remaining(now),
            length: timer.length(),
            paused: timer.is_paused(),
        }
    }
}

/// The whole seconds in `nanos`, a part second counting as a whole one.
pub open spec fn seconds_up(nanos: nat) -> nat {
    nanos / (NANOS_PER_SEC as nat) + if nanos % (NANOS_PER_SEC as nat) > 0 {
        1nat
    } else {
        0nat
    }
}

/// A span of `nanos` as a clock reads it: minutes and seconds, each of at
/// least two digits, the seconds rounded up.
pub open spec fn clock_text(nanos: nat) -> Seq<char> {
    two_digits(seconds_up(nanos) / 60) + seq![':'] + two_digits(seconds_up(nanos) % 60)
}

/// The longest span a clock can show, in nanoseconds.
pub open spec fn clock_limit() -> nat {
    u64::MAX as nat * NANOS_PER_SEC as nat
}

fn push_two_digits(s: &mut String, n: u64)
    ensures
        final(s)@ == old(s)@ + two_digits(n as nat),
{
    if n < 10 {
        push_char(s, '0');
    }
    push_decimal(s, n);
    assert(n < 10 ==> decimal(n as nat) == seq![crate::strings::digit(n as nat)]);
}

/// Writes how long is left as a clock reads it.
///
/// Rounded up, so a phase opens on its full length and the last second is
/// shown as `00:01` rather than as a zero the timer has not reached yet.
pub fn clock(remaining: Duration) -> (text: String)
    requires
        remaining@ <= clock_limit(),
    ensures
        text@ == clock_text(remaining@),
{
    let seconds = remaining.as_secs() + if remaining.subsec_nanos() > 0 {
        1u64
    } else {
        0u64
    };
    let mut text = String::new();
    push_two_digits(&mut text, seconds / 60);
    push_char(&mut text, ':');
    push_two_digits(&mut text, seconds % 60);
    text
}

/// The uppercase form of `text`, as `str::to_uppercase` writes it.
pub uninterp spec fn uppercase(text: Seq<char>) -> Seq<char>;

/// `c` with an ASCII lowercase letter made uppercase.
pub open spec fn ascii_upper(c: char) -> char {
    if 97 <= c as u32 <= 122 {
        ((c as u32) - 32) as char
    } else {
        c
    }
}

/// Whether every character of `text` is ASCII.
pub open spec fn all_ascii(text: Seq<char>) -> bool {
    forall|i: int| 0 <= i < text.len() ==> (#[trigger] text[i]) as u32 <= 127
}

/// `str::to_uppercase`: the Unicode uppercase mapping of each character. The
/// contract names the result, and says of ASCII text only that each
/// lowercase letter becomes its uppercase one and every other character
/// stays; what other characters map to it leaves unsaid.
#[verifier::external_body]
fn upper(text: &str) -> (upper: String)
    ensures
        upper@ == uppercase(text@),
        all_ascii(text@) ==> upper@ == text@.map_values(|c: char| ascii_upper(c)),
{
    text.to_uppercase()
}

/// Names the phase, and which of the cycle it is.
pub open spec fn label_text(phase: Phase, session: nat) -> Seq<char> {
    match phase {
        Phase::Work => "WORK "@ + decimal(session) + seq!['/'] + decimal(
            SESSIONS_PER_CYCLE as nat,
        ),
        other => phase_label(other).map_values(|c: char| ascii_upper(c)),
    }
}

/// Names the phase, and which of the cycle it is.
pub fn label(view: View) -> (text: String)
    ensures
        text@ == label_text(view.phase, view.session as nat),
{
    match view.phase {
        Phase::Work => {
            let mut text = String::new();
            text.append("WORK ");
            push_decimal(&mut text, view.session as u64);
            push_char(&mut text, '/');
            push_decimal(&mut text, SESSIONS_PER_CYCLE as u64);
            text
        },
        other => {
            proof {
                reveal_strlit("break");
                reveal_strlit("long break");
            }
            upper(other.label())
        },
    }
}

/// A bar of `full` filled columns, narrowed to fit a `width` column frame.
pub open spec fn gauge_text(full: nat, width: nat) -> Seq<char> {
    let columns = if GAUGE_WIDTH <= width { GAUGE_WIDTH as nat } else { width };
    Seq::new(full, |_i: int| '█') + Seq::new(
        if full <= columns { (columns - full) as nat } else { 0 },
        |_i: int| '░',
    )
}

/// The columns the gauge takes in a `width` column frame.
pub open spec fn gauge_columns(width: nat) -> nat {
    if GAUGE_WIDTH <= width { GAUGE_WIDTH as nat } else { width }
}

/// Draws a bar of `full` filled columns, narrowed to fit a `width` column
/// frame.
///
/// How many columns are full is the caller's reading of how much of the phase
/// has gone, rounded to the nearest column.
pub fn gauge(full: usize, width: usize) -> (bar: String)
    ensures
        bar@ == gauge_text(full as nat, width as nat),
{
    let columns = if GAUGE_WIDTH <= width { GAUGE_WIDTH } else { width };
    let mut bar = String::new();
    for i in 0..full
        invariant
            bar@ == Seq::new(i as nat, |_i: int| '█'),
    {
        push_char(&mut bar, '█');
        assert(bar@ == Seq::new((i + 1) as nat, |_i: int| '█'));
    }
    let ghost filled = bar@;
    let empty = columns.saturating_sub(full);
    for i in 0..empty
        invariant
            filled == Seq::new(full as nat, |_i: int| '█'),
            bar@ == filled + Seq::new(i as nat, |_i: int| '░'),
    {
        push_char(&mut bar, '░');
        assert(bar@ == filled + Seq::new((i + 1) as nat, |_i: int| '░'));
    }
    bar
}

/// Whether the block digits for `time` can be drawn in `width` columns.
pub open spec fn drawn_large(time: Seq<char>, width: nat) -> bool {
    &&& forall|k: int| 0 <= k < time.len() ==> drawable(block_font(), #[trigger] time[k])
    &&& enlarged_width_in(block_font(), time) <= width
}

/// The rows of one frame for `view` in `width` columns, with `full` columns
/// of the gauge filled: the label; the time in block digits between blank
/// rows, or as plain text where the digits would not fit; the gauge; a notice
/// while paused; and the key reminder where there is room for it.
pub open spec fn frame_rows(view: View, width: nat, full: nat) -> Seq<Seq<char>> {
    let time = clock_text(view.remaining@);
    let body = if drawn_large(time, width) {
        seq![Seq::<char>::empty()] + enlarged(block_font(), time) + seq![Seq::<char>::empty()]
    } else {
        seq![time]
    };
    let paused = if view.paused {
        seq![Seq::<char>::empty(), "PAUSED"@]
    } else {
        Seq::<Seq<char>>::empty()
    };
    let hint = if width >= HINT_WIDTH {
        seq![Seq::<char>::empty(), HINT@]
    } else {
        Seq::<Seq<char>>::empty()
    };
    seq![label_text(view.phase, view.session as nat)] + body + seq![gauge_text(full, width)]
        + paused + hint
}

/// Builds the rows of one frame, with `full` columns of the gauge filled.
pub fn frame(view: View, width: u16, full: usize) -> (rows: Vec<String>)
    requires
        view.remaining@ <= clock_limit(),
    ensures
        strings_view(rows@) == frame_rows(view, width as nat, full as nat),
{
    let time = clock(view.remaining);
    let width = width as usize;
    let mut block: Vec<String> = Vec::new();
    block.push(label(view));
    let ghost head = strings_view(block@);
    assert(head == seq![label_text(view.phase, view.session as nat)]);
    let big = font();
    let drawn_width = enlarged_width_with(&big, time.as_str());
    let ghost mut body: Seq<Seq<char>>;
    if big.can_draw(time.as_str()) && drawn_width <= width {
        block.push(String::new());
        let art = enlarge_with(&big, time.as_str());
        let ghost start = strings_view(block@);
        for i in 0..art.len()
            invariant
                start == head + seq![Seq::<char>::empty()],
                strings_view(block@) == start + strings_view(art@).take(i as int),
        {
            let ghost before = strings_view(block@);
            block.push(art[i].clone());
            assert(strings_view(block@) == before.push(art[i as int]@));
            assert(strings_view(art@).take(i + 1) == strings_view(art@).take(i as int).push(
                art[i as int]@,
            ));
        }
        assert(strings_view(art@).take(art.len() as int) == strings_view(art@));
        assert(strings_view(art@) == enlarged(block_font(), time@));
        let ghost after_art = strings_view(block@);
        assert(after_art == head + seq![Seq::<char>::empty()] + enlarged(block_font(), time@));
        block.push(String::new());
        assert(strings_view(block@) == after_art.push(Seq::<char>::empty()));
        proof {
            body = seq![Seq::<char>::empty()] + enlarged(block_font(), time@) + seq![
                Seq::<char>::empty(),
            ];
        }
        assert(strings_view(block@) == head + body);
    } else {
        // Wrapping the art would look like a fault, so the display gives up
        // size rather than the reading.
        block.push(time);
        proof {
            body = seq![time@];
        }
        assert(strings_view(block@) == head + body);
    }
    let ghost upper = strings_view(block@);
    block.push(gauge(full, width));
    assert(strings_view(block@) == upper + seq![gauge_text(full as nat, width as nat)]);
    let ghost lower = strings_view(block@);
    // Only worth a row once there is something to say: an unpaused clock is
    // already telling the user it is running by counting down.
    if view.paused {
        block.push(String::new());
        block.push("PAUSED".to_owned());
        assert(strings_view(block@) == lower + seq![Seq::<char>::empty(), "PAUSED"@]);
    } else {
        assert(strings_view(block@) == lower + Seq::<Seq<char>>::empty());
    }
    let ghost with_notice = strings_view(block@);
    if width >= HINT_WIDTH {
        block.push(String::new());
        block.push(HINT.to_owned());
        assert(strings_view(block@) == with_notice + seq![Seq::<char>::empty(), HINT@]);
    } else {
        assert(strings_view(block@) == with_notice + Seq::<Seq<char>>::empty());
    }
    block
}

/// The clock never shows less time than is left, nor a whole second more,
/// and it reads zero only once nothing is left.
pub proof fn law_the_clock_never_shows_zero_early(nanos: nat)
    ensures
        seconds_up(nanos) == 0 <==> nanos == 0,
        nanos <= seconds_up(nanos) * NANOS_PER_SEC,
        seconds_up(nanos) * NANOS_PER_SEC < nanos + NANOS_PER_SEC,
{
    let s = NANOS_PER_SEC as nat;
    assert(nanos == (nanos / s) * s + nanos % s) by (nonlinear_arith)
        requires
            s > 0,
    ;
}

/// No row of a frame is wider than the screen it was built for, but for the
/// label, the plain reading of the time and the pause notice, each a few
/// columns wide: the block digits give way to the plain reading rather than
/// wrap, the gauge narrows to the frame, and the key reminder is only shown
/// where it fits.
pub proof fn law_no_frame_is_wider_than_its_screen(view: View, width: nat, full: nat)
    requires
        full <= gauge_columns(width),
    ensures
        forall|i: int|
            0 <= i < frame_rows(view, width, full).len() ==> {
                ||| (#[trigger] frame_rows(view, width, full)[i]).len() <= width
                ||| frame_rows(view, width, full)[i] == label_text(view.phase, view.session as nat)
                ||| frame_rows(view, width, full)[i] == clock_text(view.remaining@)
                ||| frame_rows(view, width, full)[i] == "PAUSED"@
            },
        width >= HINT_WIDTH ==> frame_rows(view, width, full).last() == HINT@,
{
    reveal_strlit("space pause · s skip · q quit");
    assert(HINT@.len() == 29);
    let time = clock_text(view.remaining@);
    law_glyphs_are_square_and_level(FONT_SOURCE@);
    law_the_predicted_width_is_the_drawn_width(block_font(), time);
    let rows = frame_rows(view, width, full);
    assert forall|i: int| 0 <= i < rows.len() implies {
        ||| (#[trigger] rows[i]).len() <= width
        ||| rows[i] == label_text(view.phase, view.session as nat)
        ||| rows[i] == time
        ||| rows[i] == "PAUSED"@
    } by {
        let big = drawn_large(time, width);
        let body_len: int = if big { enlarged(block_font(), time).len() + 2int } else { 1int };
        if i == 0 {
        } else if i <= body_len {
            if big && 2 <= i <= body_len - 1 {
                assert(rows[i] == enlarged(block_font(), time)[i - 2]);
            }
        } else if i == body_len + 1 {
            assert(rows[i] == gauge_text(full, width));
        }
    }
}

/// A paused clock says so, whatever the width: the frame of a paused timer is
/// the frame it would have running, with a blank row and a row reading
/// `PAUSED` added after the gauge, before the key reminder where there is one.
pub proof fn law_a_paused_clock_says_so(view: View, width: nat, full: nat)
    ensures
        ({
            let paused = frame_rows((View { paused: true, ..view }), width, full);
            let running = frame_rows((View { paused: false, ..view }), width, full);
            let tail: int = if width >= HINT_WIDTH { 2 } else { 0 };
            &&& running.len() >= tail
            &&& paused.len() == running.len() + 2
            &&& paused[running.len() - tail + 1] == "PAUSED"@
            &&& paused == running.subrange(0, running.len() - tail) + seq![
                Seq::<char>::empty(),
                "PAUSED"@,
            ] + running.subrange(running.len() - tail, running.len() as int)
        }),
{
    let on = View { paused: true, ..view };
    let off = View { paused: false, ..view };
    let time = clock_text(view.remaining@);
    let body = if drawn_large(time, width) {
        seq![Seq::<char>::empty()] + enlarged(block_font(), time) + seq![Seq::<char>::empty()]
    } else {
        seq![time]
    };
    let top = seq![label_text(view.phase, view.session as nat)] + body + seq![
        gauge_text(full, width),
    ];
    let hint = if width >= HINT_WIDTH {
        seq![Seq::<char>::empty(), HINT@]
    } else {
        Seq::<Seq<char>>::empty()
    };
    let notice = seq![Seq::<char>::empty(), "PAUSED"@];
    assert(frame_rows(off, width, full) == top + Seq::<Seq<char>>::empty() + hint);
    assert(frame_rows(on, width, full) == top + notice + hint);
    let running = frame_rows(off, width, full);
    assert(running == top + hint);
    assert(running.subrange(0, top.len() as int) == top);
    assert(running.subrange(top.len() as int, running.len() as int) == hint);
    assert((top + notice + hint)[top.len() as int + 1] == "PAUSED"@);
}

/// A break is named without a count, whatever the session; only a work phase
/// says which of the cycle it is.
pub proof fn law_a_break_is_named_without_a_count(session: nat)
    ensures
        label_text(Phase::Break, session) == "BREAK"@,
        label_text(Phase::LongBreak, session) == "LONG BREAK"@,
        label_text(Phase::Work, session) == "WORK "@ + decimal(session) + "/4"@,
{
    reveal_strlit("break");
    reveal_strlit("long break");
    reveal_strlit("BREAK");
    reveal_strlit("LONG BREAK");
    reveal_strlit("/4");
    assert(phase_label(Phase::Break).map_values(|c: char| ascii_upper(c)) == "BREAK"@);
    assert(phase_label(Phase::LongBreak).map_values(|c: char| ascii_upper(c)) == "LONG BREAK"@);
    assert(decimal(SESSIONS_PER_CYCLE as nat) == seq!['4']);
    assert(seq!['/'] + seq!['4'] == "/4"@);
    assert("WORK "@ + decimal(session) + seq!['/'] + decimal(SESSIONS_PER_CYCLE as nat) == "WORK "@
        + decimal(session) + "/4"@);
}

} // verus!
