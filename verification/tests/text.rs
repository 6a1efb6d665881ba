use pomctl::text::{center, enlarge, enlarged_width, font, Font};

/// Every character a clock can be made of.
const REQUIRED: &str = "0123456789:";

#[test]
fn the_font_file_can_draw_any_clock() {
    assert!(
        font().can_draw(REQUIRED),
        "the font is missing art for a character a clock can contain, \
         which would draw the time with a hole in it"
    );
}

#[test]
fn an_empty_glyph_counts_as_missing_rather_than_drawable() {
    let font = Font::parse("@ 7\n ███\n░░░\n@ M\n");
    assert!(font.can_draw("7"));
    assert!(
        !font.can_draw("M"),
        "a declared but empty glyph must not pass for art, or the label \
         would render as a blank space next to the time"
    );
}

#[test]
fn a_short_glyph_sits_on_the_baseline() {
    let font = Font::parse("@ 8\n ██\n ██\n ██\n ██\n@ .\n ██\n");
    let (_, stop) = font
        .glyphs()
        .iter()
        .find(|(character, _)| *character == '.')
        .expect("the full stop was declared");

    assert!(
        stop[..stop.len() - 1]
            .iter()
            .all(|row| row.trim().is_empty()),
        "a full stop padded at the bottom would float level with the digits"
    );
    assert_eq!(stop.last().map(String::as_str), Some(" ██"));
}

#[test]
fn the_colon_keeps_a_gap_above_and_below_its_dots() {
    let font = font();
    let (_, colon) = font
        .glyphs()
        .iter()
        .find(|(character, _)| *character == ':')
        .expect("the font declares a colon");

    assert!(
        colon.first().is_some_and(|row| row.trim().is_empty()),
        "the colon must not touch the top of the digits"
    );
    let middle: Vec<bool> = colon.iter().map(|row| row.trim().is_empty()).collect();
    assert_eq!(
        middle.iter().filter(|blank| **blank).count(),
        3,
        "the colon should be two dots separated and inset by blank rows, \
         got {colon:?}"
    );
}

#[test]
fn every_glyph_is_the_same_height() {
    let font = font();
    for (character, rows) in font.glyphs() {
        assert_eq!(
            rows.len(),
            font.height(),
            "the glyph for {character:?} is {} rows against a font height of {}, \
             which would misalign every frame",
            rows.len(),
            font.height()
        );
    }
}

#[test]
fn every_row_of_a_glyph_is_the_same_width() {
    for (character, rows) in font().glyphs() {
        let widths: Vec<usize> = rows.iter().map(|row| row.chars().count()).collect();
        assert!(
            widths.windows(2).all(|pair| pair[0] == pair[1]),
            "the glyph for {character:?} has ragged rows: {widths:?}"
        );
    }
}

#[test]
fn enlarged_text_is_one_font_tall() {
    let drawn = enlarge("25:00");
    assert_eq!(drawn.len(), font().height());
    let widths: Vec<usize> = drawn.iter().map(|row| row.chars().count()).collect();
    assert!(widths.windows(2).all(|pair| pair[0] == pair[1]));
}

#[test]
fn the_predicted_width_matches_what_is_drawn() {
    for text in ["1", "25:00", "04:59", "0", "100:00"] {
        assert_eq!(
            enlarged_width(text),
            enlarge(text)[0].chars().count(),
            "width prediction disagrees with the drawing for {text:?}"
        );
    }
}

#[test]
fn a_character_without_a_glyph_leaves_a_gap() {
    let drawn = enlarge("?");
    assert!(
        drawn.iter().all(|row| row.trim().is_empty()),
        "an unknown character must not render as some other digit"
    );
}

#[test]
fn a_frame_always_fills_its_height() {
    let lines = vec!["one".to_owned(), "two".to_owned()];
    let frame = center(&lines, 20, 10);
    assert_eq!(frame.len(), 10);
    assert_eq!(frame[4], format!("{}one", " ".repeat(8)));
    assert_eq!(frame[5], format!("{}two", " ".repeat(8)));
}

#[test]
fn content_taller_than_the_frame_is_cut_to_fit() {
    let lines: Vec<String> = (0..40).map(|index| index.to_string()).collect();
    assert_eq!(center(&lines, 20, 5).len(), 5);
}

#[test]
fn centring_counts_characters_not_bytes() {
    // Each block is three bytes; measuring in bytes would push this left.
    let frame = center(&["███".to_owned()], 11, 1);
    assert_eq!(frame[0], "    ███");
}

#[test]
fn a_blank_line_stays_blank_rather_than_becoming_padding() {
    let frame = center(&[String::new()], 60, 1);
    assert_eq!(frame[0], "");
}

#[test]
fn a_line_wider_than_the_frame_is_left_alone() {
    let frame = center(&["a very long line".to_owned()], 4, 1);
    assert_eq!(frame[0], "a very long line");
}

#[test]
fn the_block_font_is_seven_rows_and_draws_digits_eight_wide() {
    let font = font();
    assert_eq!(font.height(), 7);
    assert_eq!(enlarged_width("0"), 8);
    assert_eq!(enlarged_width("12:34"), 4 * 8 + 2 + 4);
    assert_eq!(enlarged_width(""), 0);
    assert_eq!(enlarged_width("?"), 4);
}

#[test]
fn comments_and_art_before_the_first_glyph_are_ignored() {
    let font = Font::parse("# a note\nstray\n@   x trailing\n#x\nab\r\nc\n   \n\n");
    assert_eq!(font.height(), 2);
    let glyphs = font.glyphs();
    assert_eq!(glyphs.len(), 1);
    assert_eq!(glyphs[0].0, 'x');
    assert_eq!(glyphs[0].1, vec!["ab".to_owned(), "c ".to_owned()]);
}

#[test]
fn short_glyphs_are_lifted_as_wide_as_their_art() {
    let font = Font::parse("@ a\n1\n2\n3\n@ b\nxyz\n@ c\n");
    let glyphs = font.glyphs();
    assert_eq!(glyphs[1].1, vec!["   ".to_owned(), "   ".to_owned(), "xyz".to_owned()]);
    assert_eq!(glyphs[2].1, vec![String::new(), String::new(), String::new()]);
    assert!(!font.can_draw("c"));
    assert!(font.can_draw("a b"));
}

#[test]
fn a_frame_is_centred_top_to_bottom_with_blank_rows() {
    let frame = center(&["ab".to_owned()], 6, 4);
    assert_eq!(frame, vec!["".to_owned(), "  ab".to_owned(), "".to_owned(), "".to_owned()]);
}
