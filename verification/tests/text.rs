//! Page texts: boundaries, lines and glyph lookup.

use termpdf::geometry::NormalizedRect;
use termpdf::text::{
    build_line_map, byte_len, first_char, glyph_near_point, slice_text, PageLine, PageText, Span,
    TextGlyph, LINE_THRESHOLD,
};
use termpdf::unicode::{chars_of, is_word_char, same_text, string_from_chars, utf8_offset};

fn glyph(start: usize, end: usize, left: i32, top: i32, right: i32, bottom: i32) -> TextGlyph {
    TextGlyph { range: Span { start, end }, rect: NormalizedRect { left, top, right, bottom } }
}

/// One glyph per character, `per_line` to a line; lines lie 50 000 apart.
fn grid(text: &str, per_line: usize) -> PageText {
    let mut glyphs = Vec::new();
    let mut offset = 0;
    for (i, ch) in text.chars().enumerate() {
        let start = offset;
        offset += ch.len_utf8();
        let line = (i / per_line) as i32;
        let column = (i % per_line) as i32;
        glyphs.push(glyph(
            start,
            offset,
            column * 10_000,
            line * 50_000,
            column * 10_000 + 8_000,
            line * 50_000 + 40_000,
        ));
    }
    PageText::new(text.to_string(), glyphs)
}

#[test]
fn boundaries_follow_the_glyph_ends() {
    let text = grid("aé漢z", 10);
    assert_eq!(text.glyph_count(), 4);
    assert_eq!(text.text(), "aé漢z");
    assert_eq!(text.glyphs().len(), 4);
    assert_eq!(text.boundary_offset(0), 0);
    assert_eq!(text.boundary_offset(1), 1);
    assert_eq!(text.boundary_offset(2), 3);
    assert_eq!(text.boundary_offset(3), 6);
    assert_eq!(text.boundary_offset(4), 7);
    assert_eq!(text.boundary_offset(5), 7);
    assert_eq!(text.boundary_offset(usize::MAX), 7);
}

#[test]
fn boundaries_are_cut_back_to_the_text() {
    let text = PageText::new("ab".to_string(), vec![glyph(0, 1, 0, 0, 1, 1), glyph(1, 50, 0, 0, 1, 1)]);
    assert_eq!(text.boundary_offset(1), 1);
    assert_eq!(text.boundary_offset(2), 2);
    let empty = PageText::new(String::new(), Vec::new());
    assert_eq!(empty.glyph_count(), 0);
    assert_eq!(empty.boundary_offset(0), 0);
    assert_eq!(empty.line_count(), 0);
    assert_eq!(empty.line_index_for_glyph(0), None);
    assert!(empty.line(0).is_none());
    assert_eq!(empty.glyph_char(0), None);
}

#[test]
fn glyph_char_is_the_first_character_of_the_range() {
    let text = grid("aé漢z", 10);
    assert_eq!(text.glyph_char(0), Some('a'));
    assert_eq!(text.glyph_char(1), Some('é'));
    assert_eq!(text.glyph_char(2), Some('漢'));
    assert_eq!(text.glyph_char(3), Some('z'));
    assert_eq!(text.glyph_char(4), None);
    let wide = PageText::new("xyz".to_string(), vec![glyph(1, 3, 0, 0, 1, 1)]);
    assert_eq!(wide.glyph_char(0), Some('y'));
}

#[test]
fn glyph_char_of_a_range_that_cannot_be_cut_out_is_none() {
    let text = PageText::new(
        "é!".to_string(),
        vec![
            glyph(1, 2, 0, 0, 1, 1),
            glyph(0, 1, 0, 0, 1, 1),
            glyph(2, 2, 0, 0, 1, 1),
            glyph(3, 2, 0, 0, 1, 1),
            glyph(2, 9, 0, 0, 1, 1),
            glyph(2, 3, 0, 0, 1, 1),
        ],
    );
    assert_eq!(text.glyph_char(0), None);
    assert_eq!(text.glyph_char(1), None);
    assert_eq!(text.glyph_char(2), None);
    assert_eq!(text.glyph_char(3), None);
    assert_eq!(text.glyph_char(4), None);
    assert_eq!(text.glyph_char(5), Some('!'));
}

#[test]
fn slicing_text_needs_character_boundaries() {
    assert_eq!(slice_text("héllo", 0, 1), Some("h"));
    assert_eq!(slice_text("héllo", 1, 3), Some("é"));
    assert_eq!(slice_text("héllo", 3, 6), Some("llo"));
    assert_eq!(slice_text("héllo", 2, 2), None);
    assert_eq!(slice_text("héllo", 1, 2), None);
    assert_eq!(slice_text("héllo", 4, 3), None);
    assert_eq!(slice_text("héllo", 0, 7), None);
    assert_eq!(slice_text("héllo", 6, 6), Some(""));
    assert_eq!(slice_text("", 0, 0), Some(""));
    assert_eq!(byte_len("héllo"), 6);
    assert_eq!(first_char("éa"), Some('é'));
    assert_eq!(first_char(""), None);
}

#[test]
fn lines_break_where_the_middle_jumps() {
    let text = grid("abcdefg", 3);
    assert_eq!(text.line_count(), 3);
    assert_eq!(
        text.line(0),
        Some(&PageLine { glyph_range: Span { start: 0, end: 3 }, center_y: 20_000 })
    );
    assert_eq!(
        text.line(1),
        Some(&PageLine { glyph_range: Span { start: 3, end: 6 }, center_y: 70_000 })
    );
    assert_eq!(
        text.line(2),
        Some(&PageLine { glyph_range: Span { start: 6, end: 7 }, center_y: 120_000 })
    );
    assert!(text.line(3).is_none());
    assert_eq!(text.line_index_for_glyph(0), Some(0));
    assert_eq!(text.line_index_for_glyph(2), Some(0));
    assert_eq!(text.line_index_for_glyph(3), Some(1));
    assert_eq!(text.line_index_for_glyph(6), Some(2));
    assert_eq!(text.line_index_for_glyph(7), None);
}

#[test]
fn line_threshold_is_exclusive() {
    assert_eq!(LINE_THRESHOLD, 15_000);
    let glyphs = vec![
        glyph(0, 1, 0, 0, 10, 100_000),
        glyph(1, 2, 0, 15_000, 10, 115_000),
        glyph(2, 3, 0, 30_000, 10, 130_001),
        glyph(3, 4, 0, 14_999, 10, 115_000),
        glyph(4, 5, 0, 14_999, 10, 115_002),
    ];
    let (lines, index) = build_line_map(&glyphs);
    // Middles: 50 000, 65 000, 80 000.5, 64 999.5, 65 000.5.
    assert_eq!(index, vec![0, 0, 1, 2, 2]);
    assert_eq!(lines.len(), 3);
    assert_eq!(lines[0].glyph_range, Span { start: 0, end: 2 });
    assert_eq!(lines[1].glyph_range, Span { start: 2, end: 3 });
    assert_eq!(lines[2].glyph_range, Span { start: 3, end: 5 });
}

#[test]
fn line_middle_is_smoothed_by_a_fifth() {
    let glyphs = vec![
        glyph(0, 1, 0, 0, 10, 200),
        glyph(1, 2, 0, 0, 10, 400),
        glyph(2, 3, 0, 0, 10, 1000),
        glyph(3, 4, 0, -100, 10, 0),
    ];
    let (lines, index) = build_line_map(&glyphs);
    assert_eq!(index, vec![0, 0, 0, 0]);
    // 100; (4 * 100 + 200) / 5 = 120; (4 * 120 + 500) / 5 = 196;
    // (4 * 196 - 50) / 5 = 146.8, rounded down.
    assert_eq!(lines, vec![PageLine { glyph_range: Span { start: 0, end: 4 }, center_y: 146 }]);
    let (none, no_index) = build_line_map(&Vec::new());
    assert!(none.is_empty());
    assert!(no_index.is_empty());
}

#[test]
fn smoothing_rounds_down_below_zero() {
    let glyphs = vec![glyph(0, 1, 0, -10, 10, -10), glyph(1, 2, 0, -12, 10, -11)];
    let (lines, _) = build_line_map(&glyphs);
    // Middles: -10 and -11.5, rounded down to -12; (4 * -10 - 12) / 5 = -10.4.
    assert_eq!(lines[0].center_y, -11);
}

#[test]
fn a_point_picks_the_glyph_that_holds_it() {
    let text = grid("abcdef", 3);
    assert_eq!(glyph_near_point(&text, 0, 0), 0);
    assert_eq!(glyph_near_point(&text, 12_000, 10_000), 1);
    assert_eq!(glyph_near_point(&text, 28_000, 90_000), 5);
    assert_eq!(glyph_near_point(&text, 8_000, 40_000), 0);
}

#[test]
fn a_point_outside_every_glyph_picks_the_nearest_middle() {
    let text = grid("abcdef", 3);
    // Between the lines, nearer to the second; between column 0 and 1.
    assert_eq!(glyph_near_point(&text, 9_000, 46_000), 3);
    assert_eq!(glyph_near_point(&text, 9_000, 44_000), 0);
    assert_eq!(glyph_near_point(&text, 1_000_000, 1_000_000), 5);
    assert_eq!(glyph_near_point(&text, -1_000_000, -1_000_000), 0);
}

#[test]
fn of_glyphs_equally_near_the_first_is_picked() {
    let glyphs = vec![
        glyph(0, 1, 10, 10, 10, 10),
        glyph(1, 2, 100, 0, 200, 100),
        glyph(2, 3, 300, 0, 400, 100),
    ];
    let text = PageText::new("abc".to_string(), glyphs);
    assert_eq!(glyph_near_point(&text, 250, 50), 1);
    let flat = PageText::new("ab".to_string(), vec![glyph(0, 1, 5, 5, 5, 5), glyph(1, 2, 7, 7, 7, 7)]);
    assert_eq!(glyph_near_point(&flat, 7, 7), 0);
    let empty = PageText::new(String::new(), Vec::new());
    assert_eq!(glyph_near_point(&empty, 1, 1), 0);
}

#[test]
fn word_characters_are_letters_digits_and_underscore() {
    assert!(is_word_char('a'));
    assert!(is_word_char('Z'));
    assert!(is_word_char('7'));
    assert!(is_word_char('_'));
    assert!(is_word_char('é'));
    assert!(is_word_char('漢'));
    assert!(!is_word_char(' '));
    assert!(!is_word_char('-'));
    assert!(!is_word_char('.'));
    assert!(!is_word_char('\n'));
}

#[test]
fn strings_and_characters_convert_both_ways() {
    assert_eq!(chars_of("aé漢"), vec!['a', 'é', '漢']);
    assert_eq!(chars_of(""), Vec::<char>::new());
    assert_eq!(string_from_chars(&vec!['x', 'ß', '😀']), "xß😀");
    assert_eq!(string_from_chars(&Vec::new()), "");
    assert!(same_text("abc", "abc"));
    assert!(!same_text("abc", "abd"));
    let chars = vec!['a', 'é', '漢', '😀'];
    assert_eq!(utf8_offset(&chars, 0), 0);
    assert_eq!(utf8_offset(&chars, 1), 1);
    assert_eq!(utf8_offset(&chars, 2), 3);
    assert_eq!(utf8_offset(&chars, 3), 6);
    assert_eq!(utf8_offset(&chars, 4), 10);
}
