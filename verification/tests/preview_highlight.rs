use glintindex_core::preview::highlight::{combine_highlights, find_matches, find_matches_checked};
use glintindex_core::preview::{HighlightedMatch, Style};

#[test]
fn find_matches_basic() {
    let matches = find_matches("Hello world, hello!", "hello");
    assert_eq!(matches.len(), 2);
    assert_eq!(matches[0].start, 0);
    assert_eq!(matches[0].end, 5);
    assert_eq!(matches[1].start, 13);
    assert_eq!(matches[1].end, 18);
}

#[test]
fn find_matches_case_insensitive() {
    let matches = find_matches("Hello HELLO hello", "hello");
    assert_eq!(matches.len(), 3);
}

#[test]
fn find_matches_empty_query() {
    let matches = find_matches("Hello world", "");
    assert!(matches.is_empty());
}

#[test]
fn find_matches_no_match() {
    let matches = find_matches("Hello world", "xyz");
    assert!(matches.is_empty());
}

#[test]
fn find_matches_overlapping() {
    let matches = find_matches("aaa", "aa");
    assert_eq!(matches.len(), 2);
    assert_eq!(matches[0].start, 0);
    assert_eq!(matches[1].start, 1);
}

#[test]
fn combine_highlights_basic() {
    let syntax_spans = vec![(0, 5, Style::new((255, 0, 0), false, false))];
    let matches = vec![HighlightedMatch { start: 2, end: 4, text: "lo".to_string() }];
    let match_style = Style::new((255, 255, 0), true, false);

    let result = combine_highlights(&syntax_spans, &matches, match_style);
    assert!(!result.is_empty());
}

#[test]
fn combine_highlights_empty() {
    let result = combine_highlights(&[], &[], Style::default());
    assert!(result.is_empty());
}

#[test]
fn match_text_preserved() {
    let matches = find_matches("test test test", "test");
    assert_eq!(matches[0].text, "test");
    assert_eq!(matches[1].text, "test");
    assert_eq!(matches[2].text, "test");
}

#[test]
fn find_matches_at_boundaries() {
    let matches = find_matches("hello", "hello");
    assert_eq!(matches.len(), 1);
    assert_eq!(matches[0].start, 0);
    assert_eq!(matches[0].end, 5);
}

#[test]
fn find_matches_special_chars() {
    let matches = find_matches("foo.bar.baz", ".");
    assert_eq!(matches.len(), 2);
}

#[test]
fn find_matches_unicode() {
    let matches = find_matches("café café", "café");
    assert_eq!(matches.len(), 2);
}

#[test]
fn combine_highlights_splits_span_around_match() {
    let red = Style::new((255, 0, 0), false, false);
    let yellow = Style::new((255, 255, 0), true, false);
    let syntax_spans = vec![(0, 5, red)];
    let matches = vec![HighlightedMatch { start: 2, end: 4, text: "lo".to_string() }];
    let result = combine_highlights(&syntax_spans, &matches, yellow);
    assert_eq!(result, vec![(0, 2, red), (2, 4, yellow), (4, 5, red)]);
}

#[test]
fn combine_highlights_match_across_two_spans() {
    let red = Style::new((255, 0, 0), false, false);
    let blue = Style::new((0, 0, 255), false, true);
    let yellow = Style::new((255, 255, 0), true, false);
    let syntax_spans = vec![(0, 3, red), (3, 6, blue)];
    let matches = vec![HighlightedMatch { start: 2, end: 5, text: "lo ".to_string() }];
    let result = combine_highlights(&syntax_spans, &matches, yellow);
    assert_eq!(result, vec![(0, 2, red), (2, 3, yellow), (3, 5, yellow), (5, 6, blue)]);
}

#[test]
fn combine_highlights_match_without_spans_keeps_match_style() {
    let yellow = Style::new((255, 255, 0), true, false);
    let matches = vec![HighlightedMatch { start: 0, end: 2, text: "ab".to_string() }];
    let result = combine_highlights(&[], &matches, yellow);
    assert_eq!(result, vec![(0, 2, yellow)]);
}

#[test]
fn find_matches_reports_text_of_the_line_not_the_query() {
    let matches = find_matches("Hello HELLO", "hello");
    assert_eq!(matches[0].text, "Hello");
    assert_eq!(matches[1].text, "HELLO");
    assert_eq!(matches[1].start, 6);
    assert_eq!(matches[1].end, 11);
}

#[test]
fn find_matches_checked_matches_unchecked_on_ascii() {
    let checked = find_matches_checked("abcabc", "bc").unwrap();
    let plain = find_matches("abcabc", "bc");
    assert_eq!(checked.len(), plain.len());
    for (a, b) in checked.iter().zip(plain.iter()) {
        assert_eq!((a.start, a.end, a.text.as_str()), (b.start, b.end, b.text.as_str()));
    }
}

#[test]
fn find_matches_checked_refuses_cut_inside_character() {
    // "İ" (two bytes) lowercases to "i" followed by U+0307; the query
    // U+0307 occurs at byte 1 of the lowercased line, which falls inside
    // the two bytes of "İ" in the line itself.
    let r = find_matches_checked("İ", "\u{307}");
    assert!(r.is_none());
}

#[test]
fn find_matches_checked_empty_query_is_empty() {
    let r = find_matches_checked("anything", "").unwrap();
    assert!(r.is_empty());
}

#[test]
fn combine_highlights_without_matches_keeps_tiled_spans() {
    let red = Style::new((255, 0, 0), false, false);
    let blue = Style::new((0, 0, 255), true, false);
    let green = Style::new((0, 255, 0), false, true);
    let spans = vec![(0, 3, red), (3, 4, blue), (4, 9, green)];
    let combined = combine_highlights(&spans, &[], Style::new((255, 255, 0), true, true));
    assert_eq!(combined, spans);
}

#[test]
fn find_matches_checked_succeeds_on_ascii_text() {
    let r = find_matches_checked("Hello HELLO hello", "hElLo");
    let ms = r.expect("ASCII text can always be sliced");
    assert_eq!(ms.len(), 3);
    assert_eq!(ms[0].start, 0);
    assert_eq!(ms[1].start, 6);
    assert_eq!(ms[2].start, 12);
    assert_eq!(ms[1].text, "HELLO");
}

#[test]
fn find_matches_steps_over_multibyte_letters() {
    let ms = find_matches("éé", "é");
    assert_eq!(ms.len(), 2);
    assert_eq!((ms[0].start, ms[0].end, ms[0].text.as_str()), (0, 2, "é"));
    assert_eq!((ms[1].start, ms[1].end, ms[1].text.as_str()), (2, 4, "é"));
    let upper = find_matches_checked("ÉxÉ", "é").unwrap();
    assert_eq!(upper.len(), 2);
    assert_eq!((upper[0].start, upper[1].start), (0, 3));
    assert_eq!(upper[1].text, "É");
}

#[test]
fn combine_highlights_without_matches_keeps_spans_up_to_the_largest_offset() {
    let red = Style::new((255, 0, 0), false, false);
    let spans = vec![(0, 7, red), (7, usize::MAX, Style::default())];
    assert_eq!(combine_highlights(&spans, &[], red), spans);
}
