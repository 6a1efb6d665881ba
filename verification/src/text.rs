//! Laying out the text a frame is built from.

use vstd::prelude::*;

use crate::art::FONT_SOURCE;
use crate::strings::{chars_of, string_of, char_is_space, chars_blank, is_blank, is_space, push_char, push_spaces, spaces};

verus! {

/// The character sequences of some rows.
pub open spec fn rows_view(rows: Seq<Vec<char>>) -> Seq<Seq<char>> {
    rows.map_values(|row: Vec<char>| row@)
}

/// A line without the carriage return that ended it, if one did.
pub open spec fn strip_cr(line: Seq<char>) -> Seq<char> {
    if line.len() > 0 && line.last() == '\r' {
        line.drop_last()
    } else {
        line
    }
}

/// The lines of `rest`, the first of them continuing `current`.
///
/// A line ends at a line feed, which is dropped along with a carriage return
/// just before it; text after the last line feed is a line of its own unless
/// there is none.
pub open spec fn split_lines(current: Seq<char>, rest: Seq<char>) -> Seq<Seq<char>>
    decreases rest.len(),
{
    if rest.len() == 0 {
        if current.len() == 0 {
            seq![]
        } else {
            seq![current]
        }
    } else if rest[0] == '\n' {
        seq![strip_cr(current)] + split_lines(seq![], rest.drop_first())
    } else {
        split_lines(current.push(rest[0]), rest.drop_first())
    }
}

/// The lines of `text`, as `str::lines` reads them.
pub open spec fn lines(text: Seq<char>) -> Seq<Seq<char>> {
    split_lines(seq![], text)
}

/// Splits `text` into its lines.
fn lines_of(text: &Vec<char>) -> (out: Vec<Vec<char>>)
    ensures
        rows_view(out@) == lines(text@),
{
    let mut out: Vec<Vec<char>> = Vec::new();
    let mut current: Vec<char> = Vec::new();
    assert(text@.skip(0) == text@);
    assert(rows_view(out@) + lines(text@) == lines(text@));
    for i in 0..text.len()
        invariant
            rows_view(out@) + split_lines(current@, text@.skip(i as int)) == lines(text@),
    {
        let ghost rest = text@.skip(i as int);
        assert(rest.drop_first() == text@.skip(i + 1));
        let c = text[i];
        if c == '\n' {
            let ghost before = rows_view(out@);
            let ghost line = current@;
            if current.len() > 0 && current[current.len() - 1] == '\r' {
                current.pop();
            }
            assert(current@ == strip_cr(line));
            out.push(current);
            assert(rows_view(out@) == before + seq![strip_cr(line)]);
            current = Vec::new();
            assert(current@ == Seq::<char>::empty());
        } else {
            let ghost line = current@;
            current.push(c);
            assert(current@ == line.push(rest[0]));
        }
    }
    assert(text@.skip(text.len() as int) == Seq::<char>::empty());
    if current.len() > 0 {
        let ghost before = rows_view(out@);
        let ghost line = current@;
        out.push(current);
        assert(rows_view(out@) == before + seq![line]);
    } else {
        assert(rows_view(out@) == rows_view(out@) + Seq::<Seq<char>>::empty());
    }
    out
}

/// The first character of `s` that is not whitespace, if there is one.
pub open spec fn first_non_space(s: Seq<char>) -> Option<char>
    decreases s.len(),
{
    if s.len() == 0 {
        None
    } else if is_space(s[0]) {
        first_non_space(s.drop_first())
    } else {
        Some(s[0])
    }
}

/// The glyphs declared so far, once `line` of the font source is read.
///
/// A line opening with `@` declares the glyph for the first character after
/// it that is not whitespace, and is ignored if there is none. A line opening
/// with `#` is a comment. Any other line is a row of the glyph declared last,
/// and is ignored before the first declaration.
pub open spec fn read_line(glyphs: Seq<(char, Seq<Seq<char>>)>, line: Seq<char>) -> Seq<
    (char, Seq<Seq<char>>),
> {
    if line.len() > 0 && line[0] == '@' {
        match first_non_space(line.drop_first()) {
            Some(c) => glyphs.push((c, seq![])),
            None => glyphs,
        }
    } else if line.len() > 0 && line[0] == '#' {
        glyphs
    } else if glyphs.len() > 0 {
        glyphs.update(glyphs.len() - 1, (glyphs.last().0, glyphs.last().1.push(line)))
    } else {
        glyphs
    }
}

/// The glyphs `lines` declare, with their rows as written.
pub open spec fn declared(lines: Seq<Seq<char>>) -> Seq<(char, Seq<Seq<char>>)>
    decreases lines.len(),
{
    if lines.len() == 0 {
        seq![]
    } else {
        read_line(declared(lines.drop_last()), lines.last())
    }
}

/// A glyph as the proofs see it.
pub open spec fn raw_glyph_view(g: (char, Vec<Vec<char>>)) -> (char, Seq<Seq<char>>) {
    (g.0, rows_view(g.1@))
}

/// Glyphs as the proofs see them.
pub open spec fn raw_glyphs_view(gs: Seq<(char, Vec<Vec<char>>)>) -> Seq<(char, Seq<Seq<char>>)> {
    gs.map_values(|g: (char, Vec<Vec<char>>)| raw_glyph_view(g))
}

/// Returns the first character of `line` from `start` on that is not
/// whitespace.
fn first_non_space_from(line: &Vec<char>, start: usize) -> (c: Option<char>)
    requires
        start <= line.len(),
    ensures
        c == first_non_space(line@.skip(start as int)),
{
    let mut k = start;
    while k < line.len()
        invariant
            start <= k <= line.len(),
            first_non_space(line@.skip(start as int)) == first_non_space(line@.skip(k as int)),
        decreases line.len() - k,
    {
        assert(line@.skip(k as int).drop_first() == line@.skip(k + 1));
        if !char_is_space(line[k]) {
            return Some(line[k]);
        }
        k = k + 1;
    }
    None
}

/// Reads the glyph declarations out of `lines`.
fn declare(lines: &Vec<Vec<char>>) -> (glyphs: Vec<(char, Vec<Vec<char>>)>)
    ensures
        raw_glyphs_view(glyphs@) == declared(rows_view(lines@)),
{
    let mut glyphs: Vec<(char, Vec<Vec<char>>)> = Vec::new();
    for i in 0..lines.len()
        invariant
            raw_glyphs_view(glyphs@) == declared(rows_view(lines@).take(i as int)),
    {
        let line = &lines[i];
        let ghost before = raw_glyphs_view(glyphs@);
        assert(rows_view(lines@).take(i + 1).drop_last() == rows_view(lines@).take(i as int));
        assert(rows_view(lines@).take(i + 1).last() == line@);
        if line.len() > 0 && line[0] == '@' {
            assert(line@.skip(1) == line@.drop_first());
            match first_non_space_from(line, 1) {
                Some(c) => {
                    let art: Vec<Vec<char>> = Vec::new();
                    assert(rows_view(art@) == Seq::<Seq<char>>::empty());
                    glyphs.push((c, art));
                    assert(raw_glyphs_view(glyphs@) == before.push((c, Seq::<Seq<char>>::empty())));
                },
                None => {},
            }
        } else if line.len() > 0 && line[0] == '#' {
        } else if glyphs.len() > 0 {
            let (c, mut rows) = glyphs.pop().unwrap();
            let ghost rows_before = rows_view(rows@);
            rows.push(line.clone());
            assert(rows_view(rows@) == rows_before.push(line@));
            glyphs.push((c, rows));
            assert(raw_glyphs_view(glyphs@) == before.update(
                before.len() - 1,
                (before.last().0, before.last().1.push(line@)),
            ));
        }
    }
    assert(rows_view(lines@).take(lines.len() as int) == rows_view(lines@));
    glyphs
}

/// The character sequences of some strings.
pub open spec fn strings_view(rows: Seq<String>) -> Seq<Seq<char>> {
    rows.map_values(|row: String| row@)
}

/// `rows` without the blank rows at their end.
pub open spec fn drop_blank_tail(rows: Seq<Seq<char>>) -> Seq<Seq<char>>
    decreases rows.len(),
{
    if rows.len() > 0 && is_blank(rows.last()) {
        drop_blank_tail(rows.drop_last())
    } else {
        rows
    }
}

/// The length of the longest of `rows`, or zero if there are none.
pub open spec fn widest(rows: Seq<Seq<char>>) -> nat
    decreases rows.len(),
{
    if rows.len() == 0 {
        0
    } else if rows.last().len() > widest(rows.drop_last()) {
        rows.last().len()
    } else {
        widest(rows.drop_last())
    }
}

/// `row` with spaces added on the right up to `width` characters.
pub open spec fn pad_to(row: Seq<char>, width: nat) -> Seq<char> {
    row + spaces(if row.len() <= width { (width - row.len()) as nat } else { 0 })
}

/// The rows of a glyph as drawn: blank rows at the end dropped, and the
/// others padded to the widest of them.
pub open spec fn squared(rows: Seq<Seq<char>>) -> Seq<Seq<char>> {
    let kept = drop_blank_tail(rows);
    kept.map_values(|row: Seq<char>| pad_to(row, widest(kept)))
}

/// No row is longer than the widest.
pub proof fn lemma_widest(rows: Seq<Seq<char>>)
    ensures
        forall|i: int| 0 <= i < rows.len() ==> #[trigger] rows[i].len() <= widest(rows),
    decreases rows.len(),
{
    if rows.len() > 0 {
        lemma_widest(rows.drop_last());
        assert forall|i: int| 0 <= i < rows.len() implies #[trigger] rows[i].len() <= widest(
            rows,
        ) by {
            if i < rows.len() - 1 {
                assert(rows[i] == rows.drop_last()[i]);
            }
        }
    }
}

/// Drops the blank rows at the end of `rows` and pads the others to the
/// widest of them.
fn square(rows: &Vec<Vec<char>>) -> (out: Vec<String>)
    ensures
        strings_view(out@) == squared(rows_view(rows@)),
{
    let ghost given = rows_view(rows@);
    let mut end = rows.len();
    assert(given.take(end as int) == given);
    while end > 0 && chars_blank(&rows[end - 1])
        invariant
            end <= rows.len(),
            given == rows_view(rows@),
            drop_blank_tail(given) == drop_blank_tail(given.take(end as int)),
        decreases end,
    {
        assert(given.take(end as int).drop_last() == given.take(end - 1));
        end = end - 1;
    }
    let ghost kept = given.take(end as int);
    assert(drop_blank_tail(given) == kept);
    let mut width: usize = 0;
    for i in 0..end
        invariant
            end <= rows.len(),
            given == rows_view(rows@),
            kept == given.take(end as int),
            width == widest(kept.take(i as int)),
    {
        assert(kept.take(i + 1).drop_last() == kept.take(i as int));
        if rows[i].len() > width {
            width = rows[i].len();
        }
    }
    assert(kept.take(end as int) == kept);
    proof {
        lemma_widest(kept);
    }
    let mut out: Vec<String> = Vec::new();
    for i in 0..end
        invariant
            end <= rows.len(),
            given == rows_view(rows@),
            kept == given.take(end as int),
            width == widest(kept),
            forall|j: int| 0 <= j < kept.len() ==> #[trigger] kept[j].len() <= width,
            strings_view(out@) == kept.take(i as int).map_values(
                |row: Seq<char>| pad_to(row, width as nat),
            ),
    {
        let ghost before = strings_view(out@);
        assert(kept[i as int] == rows[i as int]@);
        let mut line = string_of(&rows[i]);
        push_spaces(&mut line, width - rows[i].len());
        out.push(line);
        assert(kept.take(i + 1).map_values(|row: Seq<char>| pad_to(row, width as nat)) == before.push(
            pad_to(kept[i as int], width as nat),
        ));
        assert(strings_view(out@) == before.push(pad_to(kept[i as int], width as nat)));
    }
    assert(kept.take(end as int) == kept);
    out
}
/// The number of rows of the tallest of `glyphs`, or zero if there are none.
pub open spec fn tallest(glyphs: Seq<(char, Seq<Seq<char>>)>) -> nat
    decreases glyphs.len(),
{
    if glyphs.len() == 0 {
        0
    } else if glyphs.last().1.len() > tallest(glyphs.drop_last()) {
        glyphs.last().1.len()
    } else {
        tallest(glyphs.drop_last())
    }
}

/// `rows` with rows of spaces as wide as their first added on top, up to
/// `height` rows, so that a short glyph sits on the baseline.
pub open spec fn lifted(rows: Seq<Seq<char>>, height: nat) -> Seq<Seq<char>> {
    let width = if rows.len() > 0 { rows[0].len() } else { 0 };
    let missing = if rows.len() <= height { (height - rows.len()) as nat } else { 0 };
    Seq::new(missing, |_i: int| spaces(width)) + rows
}

/// The glyphs `source` declares, each squared off.
pub open spec fn squared_glyphs(source: Seq<char>) -> Seq<(char, Seq<Seq<char>>)> {
    declared(lines(source)).map_values(|g: (char, Seq<Seq<char>>)| (g.0, squared(g.1)))
}

/// How many rows tall the font read from `source` is.
pub open spec fn font_height(source: Seq<char>) -> nat {
    tallest(squared_glyphs(source))
}

/// The glyphs of the font read from `source`, all lifted to its height.
pub open spec fn font_glyphs(source: Seq<char>) -> Seq<(char, Seq<Seq<char>>)> {
    squared_glyphs(source).map_values(
        |g: (char, Seq<Seq<char>>)| (g.0, lifted(g.1, font_height(source))),
    )
}

/// Whether all of `rows` are as wide as the first of them.
pub open spec fn even(rows: Seq<Seq<char>>) -> bool {
    forall|i: int| 0 <= i < rows.len() ==> #[trigger] rows[i].len() == rows[0].len()
}

/// A font as the proofs see it.
pub struct FontView {
    pub glyphs: Seq<(char, Seq<Seq<char>>)>,
    pub height: nat,
}

impl FontView {
    /// Every glyph is `height` rows tall, and every row of a glyph is as wide
    /// as the others.
    pub open spec fn wf(self) -> bool {
        forall|i: int|
            0 <= i < self.glyphs.len() ==> {
                &&& (#[trigger] self.glyphs[i]).1.len() == self.height
                &&& even(self.glyphs[i].1)
            }
    }
}

/// The font read from `source`.
pub open spec fn font_of(source: Seq<char>) -> FontView {
    FontView { glyphs: font_glyphs(source), height: font_height(source) }
}

/// No glyph is taller than the tallest.
pub proof fn lemma_tallest(glyphs: Seq<(char, Seq<Seq<char>>)>)
    ensures
        forall|i: int| 0 <= i < glyphs.len() ==> #[trigger] glyphs[i].1.len() <= tallest(glyphs),
    decreases glyphs.len(),
{
    if glyphs.len() > 0 {
        lemma_tallest(glyphs.drop_last());
        assert forall|i: int| 0 <= i < glyphs.len() implies #[trigger] glyphs[i].1.len()
            <= tallest(glyphs) by {
            if i < glyphs.len() - 1 {
                assert(glyphs[i] == glyphs.drop_last()[i]);
            }
        }
    }
}

/// A squared glyph has rows of one width.
pub proof fn lemma_squared_is_even(rows: Seq<Seq<char>>)
    ensures
        even(squared(rows)),
{
    let kept = drop_blank_tail(rows);
    lemma_widest(kept);
    assert forall|i: int| 0 <= i < squared(rows).len() implies #[trigger] squared(rows)[i].len()
        == squared(rows)[0].len() by {
        assert(kept[i].len() <= widest(kept));
        assert(kept[0].len() <= widest(kept));
    }
}

/// Lifting keeps a glyph's rows at one width and makes it `height` tall.
pub proof fn lemma_lifted(rows: Seq<Seq<char>>, height: nat)
    requires
        even(rows),
        rows.len() <= height,
    ensures
        even(lifted(rows, height)),
        lifted(rows, height).len() == height,
{
    let out = lifted(rows, height);
    let missing = (height - rows.len()) as nat;
    assert forall|i: int| 0 <= i < out.len() implies #[trigger] out[i].len() == out[0].len() by {
        if rows.len() > 0 {
            if i >= missing {
                assert(out[i] == rows[i - missing]);
                assert(rows[i - missing].len() == rows[0].len());
            } else {
                assert(out[i] == spaces(rows[0].len()));
            }
            if missing > 0 {
                assert(out[0] == spaces(rows[0].len()));
            } else {
                assert(out[0] == rows[0]);
            }
        } else {
            assert(out[i] == spaces(0));
            assert(out[0] == spaces(0));
        }
    }
}

/// Every glyph of a font read from any source is as tall as the font, and
/// every row of a glyph is as wide as the others.
pub proof fn law_glyphs_are_square_and_level(source: Seq<char>)
    ensures
        font_of(source).wf(),
{
    let sq = squared_glyphs(source);
    let h = font_height(source);
    lemma_tallest(sq);
    assert forall|i: int| 0 <= i < font_glyphs(source).len() implies {
        &&& (#[trigger] font_glyphs(source)[i]).1.len() == h
        &&& even(font_glyphs(source)[i].1)
    } by {
        let g = declared(lines(source))[i];
        lemma_squared_is_even(g.1);
        assert(sq[i].1 == squared(g.1));
        assert(sq[i].1.len() <= h);
        lemma_lifted(sq[i].1, h);
    }
}

/// Returns how many characters `s` holds.
pub fn char_count(s: &String) -> (n: usize)
    ensures
        n == s@.len(),
{
    s.as_str().unicode_len()
}

/// Returns `rows` with rows of spaces as wide as their first added on top, up
/// to `height` rows.
fn lift(rows: &Vec<String>, height: usize) -> (out: Vec<String>)
    requires
        rows.len() <= height,
    ensures
        strings_view(out@) == lifted(strings_view(rows@), height as nat),
{
    let ghost given = strings_view(rows@);
    let width = if rows.len() > 0 {
        char_count(&rows[0])
    } else {
        0
    };
    assert(width == if given.len() > 0 { given[0].len() } else { 0 });
    let mut blank = String::new();
    push_spaces(&mut blank, width);
    assert(blank@ == spaces(width as nat));
    let missing = height - rows.len();
    let mut out: Vec<String> = Vec::new();
    for i in 0..missing
        invariant
            blank@ == spaces(width as nat),
            strings_view(out@) == Seq::new(i as nat, |_i: int| spaces(width as nat)),
    {
        let ghost before = strings_view(out@);
        out.push(blank.clone());
        assert(strings_view(out@) == before.push(blank@));
        assert(strings_view(out@) == Seq::new((i + 1) as nat, |_i: int| spaces(width as nat)));
    }
    let ghost top = strings_view(out@);
    assert(given.take(0) == Seq::<Seq<char>>::empty());
    for i in 0..rows.len()
        invariant
            given == strings_view(rows@),
            top == Seq::new(missing as nat, |_i: int| spaces(width as nat)),
            strings_view(out@) == top + given.take(i as int),
    {
        let ghost before = strings_view(out@);
        out.push(rows[i].clone());
        assert(given.take(i + 1) == given.take(i as int).push(given[i as int]));
        assert(strings_view(out@) == before.push(given[i as int]));
    }
    assert(given.take(rows.len() as int) == given);
    out
}

/// A glyph as the proofs see it.
pub open spec fn glyph_view(g: (char, Vec<String>)) -> (char, Seq<Seq<char>>) {
    (g.0, strings_view(g.1@))
}

/// Glyphs as the proofs see them.
pub open spec fn glyphs_view(gs: Seq<(char, Vec<String>)>) -> Seq<(char, Seq<Seq<char>>)> {
    gs.map_values(|g: (char, Vec<String>)| glyph_view(g))
}

/// Columns an unknown character, including a space, occupies.
pub const BLANK_WIDTH: usize = 4;

/// Whether some row of `rows` is more than whitespace.
pub open spec fn shows_art(rows: Seq<Seq<char>>) -> bool {
    exists|i: int| 0 <= i < rows.len() && !is_blank(#[trigger] rows[i])
}

/// Whether `font` can draw `c`: a space needs no art, and any other
/// character needs a glyph declared for it with something in it.
pub open spec fn drawable(font: FontView, c: char) -> bool {
    ||| c == ' '
    ||| exists|i: int|
        0 <= i < font.glyphs.len() && (#[trigger] font.glyphs[i]).0 == c && shows_art(
            font.glyphs[i].1,
        )
}

/// The rows drawn for `c`: those of the first glyph declared for it, or
/// `height` rows of blank space if there is none.
pub open spec fn glyph_rows(glyphs: Seq<(char, Seq<Seq<char>>)>, c: char, height: nat) -> Seq<
    Seq<char>,
>
    decreases glyphs.len(),
{
    if glyphs.len() == 0 {
        Seq::new(height, |_i: int| spaces(BLANK_WIDTH as nat))
    } else if glyphs[0].0 == c {
        glyphs[0].1
    } else {
        glyph_rows(glyphs.drop_first(), c, height)
    }
}

/// The rows `font` draws `c` with.
pub open spec fn glyph_of(font: FontView, c: char) -> Seq<Seq<char>> {
    glyph_rows(font.glyphs, c, font.height)
}

/// `parts` joined by single spaces.
pub open spec fn joined(parts: Seq<Seq<char>>) -> Seq<char>
    decreases parts.len(),
{
    if parts.len() == 0 {
        seq![]
    } else if parts.len() == 1 {
        parts[0]
    } else {
        joined(parts.drop_last()) + seq![' '] + parts.last()
    }
}

/// Row `row` of each character of `text` as `font` draws it.
pub open spec fn row_parts(font: FontView, text: Seq<char>, row: int) -> Seq<Seq<char>> {
    Seq::new(text.len(), |k: int| glyph_of(font, text[k])[row])
}

/// `text` drawn in `font`: one line per row of the font, the glyphs side by
/// side with a column between them.
pub open spec fn enlarged(font: FontView, text: Seq<char>) -> Seq<Seq<char>> {
    Seq::new(font.height, |row: int| joined(row_parts(font, text, row)))
}

/// How many columns `font` draws `c` in.
pub open spec fn glyph_width(font: FontView, c: char) -> nat {
    let rows = glyph_of(font, c);
    if rows.len() > 0 {
        rows[0].len()
    } else {
        0
    }
}

/// The columns the glyphs of `text` take, gaps between them left out.
pub open spec fn art_width(font: FontView, text: Seq<char>) -> nat
    decreases text.len(),
{
    if text.len() == 0 {
        0
    } else {
        art_width(font, text.drop_last()) + glyph_width(font, text.last())
    }
}

/// The columns `text` takes drawn in `font`.
pub open spec fn enlarged_width_in(font: FontView, text: Seq<char>) -> nat {
    art_width(font, text) + if text.len() > 0 {
        (text.len() - 1) as nat
    } else {
        0
    }
}

/// The block font.
pub open spec fn block_font() -> FontView {
    font_of(FONT_SOURCE@)
}

/// The glyph drawn for a character has the font's height, and its rows are
/// as wide as one another.
pub proof fn lemma_glyph_rows(font: FontView, c: char)
    requires
        font.wf(),
    ensures
        glyph_of(font, c).len() == font.height,
        even(glyph_of(font, c)),
{
    lemma_glyph_rows_from(font.glyphs, c, font.height);
}

proof fn lemma_glyph_rows_from(glyphs: Seq<(char, Seq<Seq<char>>)>, c: char, height: nat)
    requires
        forall|i: int|
            0 <= i < glyphs.len() ==> {
                &&& (#[trigger] glyphs[i]).1.len() == height
                &&& even(glyphs[i].1)
            },
    ensures
        glyph_rows(glyphs, c, height).len() == height,
        even(glyph_rows(glyphs, c, height)),
    decreases glyphs.len(),
{
    if glyphs.len() == 0 {
    } else if glyphs[0].0 == c {
        assert(glyphs[0].1.len() == height);
    } else {
        assert forall|i: int| 0 <= i < glyphs.drop_first().len() implies {
            &&& (#[trigger] glyphs.drop_first()[i]).1.len() == height
            &&& even(glyphs.drop_first()[i].1)
        } by {
            assert(glyphs.drop_first()[i] == glyphs[i + 1]);
        }
        lemma_glyph_rows_from(glyphs.drop_first(), c, height);
    }
}

/// The block font in the form the renderer uses.
pub struct Font {
    glyphs: Vec<(char, Vec<String>)>,
    height: usize,
}

impl View for Font {
    type V = FontView;

    closed spec fn view(&self) -> FontView {
        FontView { glyphs: glyphs_view(self.glyphs@), height: self.height as nat }
    }
}

impl Font {
    #[verifier::type_invariant]
    closed spec fn well_formed(self) -> bool {
        self@.wf()
    }

    /// Reads a font from its art.
    ///
    /// Rows are padded to the widest row in their own glyph and glyphs to the
    /// tallest in the source, so art that an editor has stripped trailing
    /// spaces from still lines up.
    pub fn parse(source: &str) -> (font: Font)
        ensures
            font@ == font_of(source@),
            font@.wf(),
    {
        let text = chars_of(source);
        let rows = lines_of(&text);
        let raw = declare(&rows);
        let ghost declared_glyphs = declared(lines(source@));
        assert(raw_glyphs_view(raw@) == declared_glyphs);
        let ghost sq_spec = squared_glyphs(source@);
        let mut sq: Vec<(char, Vec<String>)> = Vec::new();
        let mut height: usize = 0;
        for i in 0..raw.len()
            invariant
                raw_glyphs_view(raw@) == declared_glyphs,
                declared_glyphs == declared(lines(source@)),
                sq_spec == squared_glyphs(source@),
                sq_spec.len() == raw.len(),
                glyphs_view(sq@) == sq_spec.take(i as int),
                height == tallest(glyphs_view(sq@)),
        {
            let ghost before = glyphs_view(sq@);
            let rows = square(&raw[i].1);
            assert(raw_glyphs_view(raw@)[i as int] == raw_glyph_view(raw[i as int]));
            assert(raw_glyph_view(raw[i as int]) == declared_glyphs[i as int]);
            assert(sq_spec[i as int] == (
                declared_glyphs[i as int].0,
                squared(declared_glyphs[i as int].1),
            ));
            let count = rows.len();
            sq.push((raw[i].0, rows));
            assert(glyphs_view(sq@) == before.push(sq_spec[i as int]));
            assert(sq_spec.take(i + 1) == sq_spec.take(i as int).push(sq_spec[i as int]));
            assert(glyphs_view(sq@).drop_last() == before);
            if count > height {
                height = count;
            }
        }
        assert(sq_spec.take(raw.len() as int) == sq_spec);
        proof {
            lemma_tallest(sq_spec);
        }
        let ghost all = font_glyphs(source@);
        let mut glyphs: Vec<(char, Vec<String>)> = Vec::new();
        for i in 0..sq.len()
            invariant
                glyphs_view(sq@) == sq_spec,
                sq_spec == squared_glyphs(source@),
                height == font_height(source@),
                all == font_glyphs(source@),
                forall|j: int| 0 <= j < sq_spec.len() ==> #[trigger] sq_spec[j].1.len() <= height,
                glyphs_view(glyphs@) == all.take(i as int),
        {
            let ghost before = glyphs_view(glyphs@);
            assert(glyphs_view(sq@)[i as int] == glyph_view(sq[i as int]));
            assert(glyph_view(sq[i as int]) == sq_spec[i as int]);
            assert(sq[i as int].1@.len() == sq_spec[i as int].1.len());
            let rows = lift(&sq[i].1, height);
            glyphs.push((sq[i].0, rows));
            assert(glyphs_view(glyphs@) == before.push(all[i as int]));
            assert(all.take(i + 1) == all.take(i as int).push(all[i as int]));
        }
        assert(all.take(sq.len() as int) == all);
        proof {
            law_glyphs_are_square_and_level(source@);
        }
        Font { glyphs, height }
    }

    /// Returns how many rows tall every glyph is.
    pub fn height(&self) -> (h: usize)
        ensures
            h == self@.height,
    {
        self.height
    }

    /// Returns the glyphs, in the order the art declares them.
    pub fn glyphs(&self) -> (glyphs: &Vec<(char, Vec<String>)>)
        ensures
            glyphs_view(glyphs@) == self@.glyphs,
    {
        &self.glyphs
    }

    /// Returns whether every character in `text` has art to draw it with.
    ///
    /// A glyph declared in the font but left empty counts as missing, so a
    /// caller can choose a smaller layout until the art is pasted in rather
    /// than drawing a clock with holes in it.
    pub fn can_draw(&self, text: &str) -> (b: bool)
        ensures
            b == (forall|k: int| 0 <= k < text@.len() ==> drawable(self@, #[trigger] text@[k])),
    {
        let cs = chars_of(text);
        for k in 0..cs.len()
            invariant
                cs@ == text@,
                forall|j: int| 0 <= j < k ==> drawable(self@, #[trigger] text@[j]),
        {
            let c = cs[k];
            if c != ' ' {
                let mut found = false;
                for i in 0..self.glyphs.len()
                    invariant
                        found == (exists|j: int|
                            0 <= j < i && (#[trigger] self@.glyphs[j]).0 == c && shows_art(
                                self@.glyphs[j].1,
                            )),
                {
                    assert(self@.glyphs[i as int] == glyph_view(self.glyphs[i as int]));
                    if !found && self.glyphs[i].0 == c && has_art(&self.glyphs[i].1) {
                        found = true;
                    }
                }
                if !found {
                    return false;
                }
            }
        }
        true
    }

    fn glyph(&self, c: char) -> (rows: Vec<String>)
        ensures
            strings_view(rows@) == glyph_of(self@, c),
            rows.len() == self@.height,
    {
        proof {
            use_type_invariant(self);
            lemma_glyph_rows(self@, c);
        }
        let ghost all = self@.glyphs;
        let mut i: usize = 0;
        assert(all.skip(0) == all);
        while i < self.glyphs.len()
            invariant
                all == self@.glyphs,
                i <= all.len(),
                glyph_rows(all, c, self@.height) == glyph_rows(all.skip(i as int), c, self@.height),
                glyph_of(self@, c).len() == self@.height,
            decreases all.len() - i,
        {
            assert(all.skip(i as int)[0] == all[i as int]);
            assert(all[i as int] == glyph_view(self.glyphs[i as int]));
            if self.glyphs[i].0 == c {
                let rows = copy_rows(&self.glyphs[i].1);
                assert(strings_view(rows@).len() == rows.len());
                return rows;
            }
            assert(all.skip(i as int).drop_first() == all.skip(i + 1));
            i = i + 1;
        }
        let mut blank = String::new();
        push_spaces(&mut blank, BLANK_WIDTH);
        let mut rows: Vec<String> = Vec::new();
        for r in 0..self.height
            invariant
                blank@ == spaces(BLANK_WIDTH as nat),
                strings_view(rows@) == Seq::new(r as nat, |_i: int| spaces(BLANK_WIDTH as nat)),
        {
            let ghost before = strings_view(rows@);
            rows.push(blank.clone());
            assert(strings_view(rows@) == before.push(blank@));
            assert(strings_view(rows@) == Seq::new(
                (r + 1) as nat,
                |_i: int| spaces(BLANK_WIDTH as nat),
            ));
        }
        rows
    }
}

/// Returns a copy of `rows`.
fn copy_rows(rows: &Vec<String>) -> (out: Vec<String>)
    ensures
        strings_view(out@) == strings_view(rows@),
        out.len() == rows.len(),
{
    let mut out: Vec<String> = Vec::new();
    for i in 0..rows.len()
        invariant
            strings_view(out@) == strings_view(rows@).take(i as int),
    {
        let ghost before = strings_view(out@);
        out.push(rows[i].clone());
        assert(strings_view(out@) == before.push(rows[i as int]@));
        assert(strings_view(rows@).take(i + 1) == strings_view(rows@).take(i as int).push(
            rows[i as int]@,
        ));
    }
    assert(strings_view(rows@).take(rows.len() as int) == strings_view(rows@));
    out
}

fn has_art(rows: &Vec<String>) -> (b: bool)
    ensures
        b == shows_art(strings_view(rows@)),
{
    for i in 0..rows.len()
        invariant
            forall|j: int| 0 <= j < i ==> is_blank(#[trigger] strings_view(rows@)[j]),
    {
        if !chars_blank(&chars_of(rows[i].as_str())) {
            assert(!is_blank(strings_view(rows@)[i as int]));
            return true;
        }
    }
    false
}

/// Returns the block font.
pub fn font() -> (font: Font)
    ensures
        font@ == block_font(),
        font@.wf(),
{
    Font::parse(FONT_SOURCE)
}

/// Draws `text` in the block font.
///
/// Characters the font has no glyph for render as blank space rather than as
/// a substitute, so a formatting slip shows up as a gap instead of a plausible
/// wrong time.
pub fn enlarge(text: &str) -> (rows: Vec<String>)
    ensures
        strings_view(rows@) == enlarged(block_font(), text@),
{
    enlarge_with(&font(), text)
}

/// Draws `text` in `font`, for a caller that has the font at hand already.
pub(crate) fn enlarge_with(font: &Font, text: &str) -> (rows: Vec<String>)
    ensures
        strings_view(rows@) == enlarged(font@, text@),
{
    proof { use_type_invariant(font); }
    let cs = chars_of(text);
    let ghost f = font@;
    let mut glyphs: Vec<Vec<String>> = Vec::new();
    for k in 0..cs.len()
        invariant
            f == font@,
            f.wf(),
            cs@ == text@,
            glyphs.len() == k,
            forall|j: int|
                0 <= j < k ==> strings_view((#[trigger] glyphs@[j])@) == glyph_of(f, text@[j])
                    && glyphs@[j].len() == f.height,
    {
        let rows = font.glyph(cs[k]);
        glyphs.push(rows);
    }
    let mut out: Vec<String> = Vec::new();
    let height = font.height();
    for row in 0..height
        invariant
            height == f.height,
            f == font@,
            f.wf(),
            cs@ == text@,
            glyphs.len() == text@.len(),
            forall|j: int|
                0 <= j < glyphs.len() ==> strings_view((#[trigger] glyphs@[j])@) == glyph_of(
                    f,
                    text@[j],
                ) && glyphs@[j].len() == f.height,
            strings_view(out@) == enlarged(f, text@).take(row as int),
    {
        let ghost parts = row_parts(f, text@, row as int);
        let mut line = String::new();
        for k in 0..glyphs.len()
            invariant
                row < f.height,
                parts == row_parts(f, text@, row as int),
                glyphs.len() == text@.len(),
                forall|j: int|
                    0 <= j < glyphs.len() ==> strings_view((#[trigger] glyphs@[j])@) == glyph_of(
                        f,
                        text@[j],
                    ) && glyphs@[j].len() == f.height,
                line@ == joined(parts.take(k as int)),
        {
            let ghost before = line@;
            assert(strings_view(glyphs@[k as int]@)[row as int] == glyphs@[k as int]@[row as int]@);
            assert(parts[k as int] == glyphs[k as int][row as int]@);
            assert(parts.take(k + 1).drop_last() == parts.take(k as int));
            if k > 0 {
                push_char(&mut line, ' ');
            }
            line.append(glyphs[k][row].as_str());
            assert(line@ == joined(parts.take(k + 1)));
        }
        assert(parts.take(glyphs.len() as int) == parts);
        let ghost before = strings_view(out@);
        out.push(line);
        assert(strings_view(out@) == before.push(enlarged(f, text@)[row as int]));
        assert(enlarged(f, text@).take(row + 1) == enlarged(f, text@).take(row as int).push(
            enlarged(f, text@)[row as int],
        ));
    }
    assert(enlarged(f, text@).take(f.height as int) == enlarged(f, text@));
    out
}

/// Returns how many columns [`enlarge`] would need for `text`, or
/// `usize::MAX` if that many columns cannot be counted.
///
/// Lets a caller choose a layout that fits before drawing one that does not.
pub fn enlarged_width(text: &str) -> (width: usize)
    ensures
        width == if enlarged_width_in(block_font(), text@) <= usize::MAX {
            enlarged_width_in(block_font(), text@)
        } else {
            usize::MAX as nat
        },
{
    enlarged_width_with(&font(), text)
}

/// Returns how many columns [`enlarge_with`] would need for `text` in `font`,
/// or `usize::MAX` if that many columns cannot be counted.
pub(crate) fn enlarged_width_with(font: &Font, text: &str) -> (width: usize)
    ensures
        width == if enlarged_width_in(font@, text@) <= usize::MAX {
            enlarged_width_in(font@, text@)
        } else {
            usize::MAX as nat
        },
{
    let ghost f = font@;
    let cs = chars_of(text);
    let mut art: usize = 0;
    for k in 0..cs.len()
        invariant
            f == font@,
            cs@ == text@,
            art == if art_width(f, text@.take(k as int)) <= usize::MAX {
                art_width(f, text@.take(k as int))
            } else {
                usize::MAX as nat
            },
    {
        assert(text@.take(k + 1).drop_last() == text@.take(k as int));
        let rows = font.glyph(cs[k]);
        let w = if rows.len() > 0 {
            char_count(&rows[0])
        } else {
            0
        };
        assert(w == glyph_width(f, text@[k as int]));
        art = art.saturating_add(w);
    }
    assert(text@.take(cs.len() as int) == text@);
    let gaps = if cs.len() > 0 {
        cs.len() - 1
    } else {
        0
    };
    art.saturating_add(gaps)
}

/// `line` padded on the left so it sits centred in `width` columns, or left
/// alone if it is empty or at least as wide.
pub open spec fn centered_line(line: Seq<char>, width: nat) -> Seq<char> {
    if line.len() == 0 {
        seq![]
    } else if line.len() <= width {
        spaces(((width - line.len()) / 2) as nat) + line
    } else {
        line
    }
}

/// `lines` centred in a `width` by `height` frame: blank rows above them to
/// centre them, as many of them as fit, and blank rows below.
pub open spec fn centered(lines: Seq<Seq<char>>, width: nat, height: nat) -> Seq<Seq<char>> {
    let top = if lines.len() <= height { ((height - lines.len()) / 2) as nat } else { 0 };
    Seq::new(
        height,
        |i: int|
            if top <= i < top + lines.len() {
                centered_line(lines[i - top], width)
            } else {
                seq![]
            },
    )
}

/// Centres `lines` in a `width` by `height` frame.
///
/// Always returns exactly `height` rows so a caller can paint the frame
/// without tracking what the previous one left behind.
pub fn center(lines: &[String], width: u16, height: u16) -> (frame: Vec<String>)
    ensures
        strings_view(frame@) == centered(strings_view(lines@), width as nat, height as nat),
        frame.len() == height,
{
    let ghost want = centered(strings_view(lines@), width as nat, height as nat);
    let width = width as usize;
    let height = height as usize;
    let top = height.saturating_sub(lines.len()) / 2;
    let mut frame: Vec<String> = Vec::new();
    for i in 0..height
        invariant
            want == centered(strings_view(lines@), width as nat, height as nat),
            top == (if lines@.len() <= height { ((height - lines@.len()) / 2) as nat } else { 0 }),
            strings_view(frame@) == want.take(i as int),
    {
        let ghost before = strings_view(frame@);
        let row = if top <= i && i - top < lines.len() {
            center_line(&lines[i - top], width)
        } else {
            String::new()
        };
        frame.push(row);
        assert(want[i as int] == row@);
        assert(strings_view(frame@) == before.push(row@));
        assert(want.take(i + 1) == want.take(i as int).push(want[i as int]));
    }
    assert(want.take(height as int) == want);
    assert(strings_view(frame@).len() == frame.len());
    frame
}

/// Pads a line so it sits centred, measuring in characters rather than bytes.
fn center_line(line: &String, width: usize) -> (centred: String)
    ensures
        centred@ == centered_line(line@, width as nat),
{
    let visible = char_count(line);
    if visible == 0 {
        return String::new();
    }
    let left = width.saturating_sub(visible) / 2;
    let mut centred = String::new();
    push_spaces(&mut centred, left);
    centred.append(line.as_str());
    assert(left == 0 ==> spaces(0) + line@ == line@);
    centred
}

/// The glyphs of a prefix of `text` take no more columns than those of the
/// whole, and each character adds its own glyph's width.
proof fn lemma_prefix_width(font: FontView, text: Seq<char>, k: int)
    requires
        0 <= k < text.len(),
    ensures
        art_width(font, text.take(k + 1)) == art_width(font, text.take(k)) + glyph_width(
            font,
            text[k],
        ),
        art_width(font, text.take(k + 1)) <= art_width(font, text),
    decreases text.len(),
{
    assert(text.take(k + 1).drop_last() == text.take(k));
    if k + 1 < text.len() {
        let rest = text.drop_last();
        assert(rest.take(k + 1) == text.take(k + 1));
        assert(rest.take(k) == text.take(k));
        lemma_prefix_width(font, rest, k);
        lemma_prefix_width(font, rest, rest.len() - 1);
        assert(rest.take(rest.len() as int) == rest);
    } else {
        assert(text.take(k + 1) == text);
    }
}

/// Each row of `text` drawn in `font` is the rows of its glyphs set side by
/// side in order with exactly one blank column between neighbours: glyph `k`
/// starts after the glyphs before it and one column for each of them, draws
/// its own row there column for column, and the column right after it is a
/// space whenever another glyph follows.
pub proof fn law_glyphs_stand_one_blank_column_apart(
    font: FontView,
    text: Seq<char>,
    row: int,
    k: int,
)
    requires
        font.wf(),
        0 <= row < font.height,
        0 <= k < text.len(),
    ensures
        enlarged(font, text)[row].len() == art_width(font, text) + text.len() - 1,
        forall|j: int|
            0 <= j < glyph_width(font, text[k]) ==> enlarged(font, text)[row][art_width(
                font,
                text.take(k),
            ) + k + j] == #[trigger] glyph_of(font, text[k])[row][j],
        k + 1 < text.len() ==> enlarged(font, text)[row][art_width(font, text.take(k + 1)) + k]
            == ' ',
    decreases text.len(),
{
    let n = text.len();
    let parts = row_parts(font, text, row);
    let line = joined(parts);
    assert(enlarged(font, text)[row] == line);
    lemma_row_widths(font, text, row);
    lemma_glyph_rows(font, text[k]);
    assert(glyph_of(font, text[k])[row].len() == glyph_width(font, text[k]));
    if n == 1 {
        assert(line == glyph_of(font, text[0])[row]);
        assert(text.take(0).len() == 0);
    } else {
        let prev = text.drop_last();
        let before = joined(parts.drop_last());
        assert(parts.drop_last() == row_parts(font, prev, row));
        assert(enlarged(font, prev)[row] == before);
        lemma_row_widths(font, prev, row);
        assert(before.len() == art_width(font, prev) + n - 2);
        assert(line == before + seq![' '] + parts.last());
        assert(parts.last() == glyph_of(font, text[n - 1])[row]);
        assert(text.take(n - 1) == prev);
        if k < n - 1 {
            law_glyphs_stand_one_blank_column_apart(font, prev, row, k);
            assert(prev[k] == text[k]);
            assert(prev.take(k) == text.take(k));
            lemma_prefix_width(font, prev, k);
            assert forall|j: int| 0 <= j < glyph_width(font, text[k]) implies enlarged(
                font,
                text,
            )[row][art_width(font, text.take(k)) + k + j] == #[trigger] glyph_of(
                font,
                text[k],
            )[row][j] by {
                assert(art_width(font, text.take(k)) + k + j < before.len());
                assert(before[art_width(font, prev.take(k)) + k + j] == glyph_of(
                    font,
                    prev[k],
                )[row][j]);
            }
            if k + 1 < n - 1 {
                assert(prev.take(k + 1) == text.take(k + 1));
                assert(art_width(font, text.take(k + 1)) + k < before.len());
            } else {
                assert(art_width(font, text.take(k + 1)) == art_width(font, prev));
            }
        } else {
            lemma_prefix_width(font, text, k);
            assert(art_width(font, text.take(k)) == art_width(font, prev));
        }
    }
}

proof fn lemma_row_widths(font: FontView, text: Seq<char>, row: int)
    requires
        font.wf(),
        0 <= row < font.height,
    ensures
        joined(row_parts(font, text, row)).len() == enlarged_width_in(font, text),
    decreases text.len(),
{
    if text.len() > 0 {
        let parts = row_parts(font, text, row);
        assert(parts.drop_last() == row_parts(font, text.drop_last(), row));
        lemma_row_widths(font, text.drop_last(), row);
        lemma_glyph_rows(font, text.last());
        let rows = glyph_of(font, text.last());
        assert(rows[row].len() == rows[0].len());
        assert(parts.last() == rows[row]);
        if text.len() == 1 {
            assert(text.drop_last().len() == 0);
        }
    }
}

/// Every row of text drawn in a font is as wide as [`enlarged_width`]
/// predicts, and there are as many rows as the font is tall: what a caller
/// measures before drawing is what gets drawn.
pub proof fn law_the_predicted_width_is_the_drawn_width(font: FontView, text: Seq<char>)
    requires
        font.wf(),
    ensures
        enlarged(font, text).len() == font.height,
        forall|row: int|
            0 <= row < font.height ==> (#[trigger] enlarged(font, text)[row]).len()
                == enlarged_width_in(font, text),
{
    assert forall|row: int| 0 <= row < font.height implies (#[trigger] enlarged(
        font,
        text,
    )[row]).len() == enlarged_width_in(font, text) by {
        lemma_row_widths(font, text, row);
    }
}

/// A character the font declares no glyph for is drawn as blank space four
/// columns wide, never as some other character's art.
pub proof fn law_an_unknown_character_leaves_a_gap(font: FontView, c: char)
    requires
        forall|i: int| 0 <= i < font.glyphs.len() ==> (#[trigger] font.glyphs[i]).0 != c,
    ensures
        glyph_of(font, c) == Seq::new(font.height, |_i: int| spaces(BLANK_WIDTH as nat)),
        !drawable(font, c) <== c != ' ',
        font.height > 0 ==> glyph_width(font, c) == BLANK_WIDTH,
{
    lemma_unknown_from(font.glyphs, c, font.height);
    if font.height > 0 {
        assert(glyph_of(font, c)[0] == spaces(BLANK_WIDTH as nat));
    }
}

proof fn lemma_unknown_from(glyphs: Seq<(char, Seq<Seq<char>>)>, c: char, height: nat)
    requires
        forall|i: int| 0 <= i < glyphs.len() ==> (#[trigger] glyphs[i]).0 != c,
    ensures
        glyph_rows(glyphs, c, height) == Seq::new(height, |_i: int| spaces(BLANK_WIDTH as nat)),
    decreases glyphs.len(),
{
    if glyphs.len() > 0 {
        assert(glyphs[0].0 != c);
        assert forall|i: int| 0 <= i < glyphs.drop_first().len() implies (
        #[trigger] glyphs.drop_first()[i]).0 != c by {
            assert(glyphs.drop_first()[i] == glyphs[i + 1]);
        }
        lemma_unknown_from(glyphs.drop_first(), c, height);
    }
}

} // verus!
