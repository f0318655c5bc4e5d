use argus_tui::highlight::{highlight_match_range, highlighted};

const RED: u32 = 1;
const MATCH: u32 = 0;

fn spans(v: &[(&str, u32)]) -> Vec<(String, u32)> {
    v.iter().map(|(t, s)| (t.to_string(), *s)).collect()
}

#[test]
fn highlight_match_range_splits_spans_and_fully_overrides_the_matched_range() {
    let line = spans(&[("hello world", RED)]);
    let out = highlight_match_range(line, 6, 11, MATCH);
    let rendered: String = out.iter().map(|s| s.0.as_str()).collect();
    assert_eq!(rendered, "hello world");
    assert_eq!(out[0].1, RED);
    let matched = out.last().unwrap();
    assert_eq!(matched.0, "world");
    assert_eq!(matched.1, MATCH);
}

#[test]
fn highlight_match_range_cuts_across_spans() {
    let line = spans(&[("ab", 2), ("", 3), ("cde", 3), ("fg", 4)]);
    let out = highlight_match_range(line, 1, 3, MATCH);
    assert_eq!(out, spans(&[("a", 2), ("b", MATCH), ("c", MATCH), ("de", 3), ("fg", 4)]));
}

#[test]
fn highlight_match_range_leaves_a_line_alone_for_an_empty_range() {
    let line = spans(&[("ab", 2), ("", 3)]);
    assert_eq!(highlight_match_range(line.clone(), 4, 4, MATCH), line);
    assert_eq!(highlight_match_range(line.clone(), 5, 1, MATCH), line);
}

#[test]
fn highlight_match_range_keeps_a_span_whole_in_the_match_style() {
    let line = spans(&[("xyz", MATCH), ("", 1)]);
    assert_eq!(highlight_match_range(line, 0, 2, MATCH), spans(&[("xyz", MATCH)]));
}

#[test]
fn highlighted_isolates_each_hit_char() {
    let runs = highlighted("src/app.rs", &[4, 5, 6]);
    let expect: Vec<(String, bool)> = vec![
        ("src/".to_string(), false),
        ("a".to_string(), true),
        ("p".to_string(), true),
        ("p".to_string(), true),
        (".rs".to_string(), false),
    ];
    assert_eq!(runs, expect);
}

#[test]
fn highlighted_without_hits_is_one_plain_run() {
    assert_eq!(highlighted("abc", &[]), vec![("abc".to_string(), false)]);
    assert_eq!(highlighted("", &[]), vec![(String::new(), false)]);
    assert_eq!(highlighted("ab", &[0]), vec![("a".to_string(), true), ("b".to_string(), false)]);
}
