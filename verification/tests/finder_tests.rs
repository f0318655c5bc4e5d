use argus_tui::fuzzy_finder::{
    finder_results, match_files, truncate_preview, MAX_QUERY_CHARS, FinderFocus, FinderMatch, FinderMode, FuzzyFinderState, PREVIEW_MAX_LINES,
    RESULT_LIMIT,
};
use argus_tui::preview::{find_match_char_range, line_visual_rows, match_line_index, preview_scroll};

fn paths(v: &[&str]) -> Vec<String> {
    v.iter().map(|s| s.to_string()).collect()
}

fn plain(path: &str) -> FinderMatch {
    FinderMatch { path: path.to_string(), indices: vec![], line: None, line_text: None }
}

#[test]
fn match_files_empty_query_returns_candidates_in_order() {
    let candidates = paths(&["b.rs", "a.rs"]);
    let results = match_files("", &candidates);
    let got: Vec<String> = results.iter().map(|m| m.path.clone()).collect();
    assert_eq!(got, candidates);
    assert!(results.iter().all(|m| m.indices.is_empty()));
}

#[test]
fn match_files_ranks_exact_prefix_above_scattered_match() {
    let candidates = paths(&["src/app.rs", "src/other/appendix.rs"]);
    let results = match_files("app", &candidates);
    assert_eq!(results[0].path, "src/app.rs".to_string());
}

#[test]
fn match_files_ignores_accents_in_both_directions() {
    let candidates = paths(&["não.rs", "outro.rs"]);
    assert_eq!(match_files("nao", &candidates)[0].path, "não.rs".to_string());

    let candidates = paths(&["nao.rs", "outro.rs"]);
    assert_eq!(match_files("não", &candidates)[0].path, "nao.rs".to_string());
}

#[test]
fn match_files_drops_non_matching_candidates() {
    let candidates = paths(&["readme.md", "src/lib.rs"]);
    let results = match_files("zzz", &candidates);
    assert!(results.is_empty());
}

#[test]
fn match_files_respects_result_limit() {
    let candidates: Vec<String> = (0..RESULT_LIMIT + 50).map(|i| format!("file{i}.rs")).collect();
    let results = match_files("file", &candidates);
    assert_eq!(results.len(), RESULT_LIMIT);
}

#[test]
fn match_files_blank_query_is_capped_too() {
    let candidates: Vec<String> = (0..RESULT_LIMIT + 5).map(|i| format!("f{i}")).collect();
    let results = match_files("   ", &candidates);
    assert_eq!(results.len(), RESULT_LIMIT);
    assert_eq!(results[0].path, "f0".to_string());
}

#[test]
fn match_files_reports_hit_indices() {
    let candidates = paths(&["abc"]);
    let results = match_files("ac", &candidates);
    assert_eq!(results.len(), 1);
    assert_eq!(results[0].indices, vec![0, 2]);
}

#[test]
fn finder_state_toggle_mark_and_confirm_targets() {
    let mut state = FuzzyFinderState::new(7, "/root".to_string());
    state.results = vec![plain("a.rs"), plain("b.rs")];

    assert_eq!(state.confirm_targets(), vec!["a.rs".to_string()]);

    state.toggle_mark();
    state.move_selection(1);
    state.toggle_mark();
    assert_eq!(state.confirm_targets(), vec!["a.rs".to_string(), "b.rs".to_string()]);

    state.selected = 1;
    state.toggle_mark();
    assert_eq!(state.confirm_targets(), vec!["a.rs".to_string()]);
}

#[test]
fn marking_twice_restores_the_marks() {
    let mut state = FuzzyFinderState::new(1, "/w".to_string());
    state.results = vec![plain("x.rs"), plain("y.rs")];
    state.toggle_mark();
    let before = state.marked.clone();
    state.move_selection(1);
    state.toggle_mark();
    state.toggle_mark();
    assert_eq!(state.marked, before);
}

#[test]
fn confirm_targets_sorts_marked_paths() {
    let mut state = FuzzyFinderState::new(1, "/w".to_string());
    state.results = vec![plain("z.rs"), plain("m.rs")];
    state.toggle_mark();
    state.move_selection(1);
    state.toggle_mark();
    assert_eq!(state.confirm_targets(), vec!["m.rs".to_string(), "z.rs".to_string()]);
}

#[test]
fn move_selection_clamps_to_the_list() {
    let mut state = FuzzyFinderState::new(1, "/w".to_string());
    state.move_selection(3);
    assert_eq!(state.selected, 0);
    state.results = vec![plain("a"), plain("b"), plain("c")];
    state.move_selection(10);
    assert_eq!(state.selected, 2);
    state.move_selection(-10);
    assert_eq!(state.selected, 0);
}

#[test]
fn selected_abs_path_joins_the_root() {
    let mut state = FuzzyFinderState::new(1, "/root".to_string());
    assert_eq!(state.selected_abs_path(), None);
    state.results = vec![plain("src/a.rs")];
    assert_eq!(state.selected_abs_path(), Some("/root/src/a.rs".to_string()));
}

#[test]
fn toggles_switch_mode_focus_and_ignored() {
    let mut state = FuzzyFinderState::new(1, "/w".to_string());
    state.results = vec![plain("a")];
    state.toggle_mode();
    assert_eq!(state.mode, FinderMode::Content);
    assert!(state.results.is_empty());
    state.toggle_focus();
    assert_eq!(state.focus, FinderFocus::Preview);
    state.toggle_show_ignored();
    assert!(state.show_ignored);
}

#[test]
fn truncate_preview_caps_long_files() {
    let short = "one\ntwo\n";
    assert_eq!(truncate_preview(short), "one\ntwo");
    assert_eq!(truncate_preview("a\r\nb"), "a\nb");
    let long: String = (0..PREVIEW_MAX_LINES + 1).map(|i| format!("line{i}\n")).collect();
    let cut = truncate_preview(&long);
    let lines: Vec<&str> = cut.lines().collect();
    assert_eq!(lines.len(), PREVIEW_MAX_LINES + 1);
    assert_eq!(lines[PREVIEW_MAX_LINES], "…");
    assert_eq!(lines[0], "line0");
}

#[test]
fn line_visual_rows_counts_wrapped_rows_not_logical_lines() {
    assert_eq!(line_visual_rows(0, 80), 1, "an empty line still occupies one row");
    assert_eq!(line_visual_rows(80, 80), 1, "exactly one width's worth fits on one row");
    assert_eq!(line_visual_rows(81, 80), 2, "one cell over wraps into a second row");
    assert_eq!(line_visual_rows(250, 80), 4, "a long line spans ceil(250/80) rows");
}

#[test]
fn find_match_char_range_is_accent_and_case_insensitive() {
    assert_eq!(find_match_char_range("nao", "isso não funciona"), Some((5, 8)));
    assert_eq!(find_match_char_range("NÃO", "isso nao funciona"), Some((5, 8)));
    assert_eq!(find_match_char_range("xyz", "no match here"), None);
}

#[test]
fn match_line_index_only_in_content_mode() {
    let mut hit = plain("a.rs");
    hit.line = Some(3);
    let results = vec![hit];
    assert_eq!(match_line_index(FinderMode::Content, &results, 0), Some(2));
    assert_eq!(match_line_index(FinderMode::Files, &results, 0), None);
}

#[test]
fn preview_scroll_centres_the_match() {
    let widths = vec![10usize; 100];
    let s = preview_scroll(&widths, Some(50), 80, 20, 0);
    assert_eq!(s.scroll_y, 40);
    assert_eq!(s.offset_min, -40);
    assert_eq!(s.offset_max, 40);
    let top = preview_scroll(&widths, None, 80, 20, 0);
    assert_eq!(top.scroll_y, 0);
}

#[test]
fn line_visual_rows_counts_very_wide_lines_in_full() {
    assert_eq!(line_visual_rows(65536, 80), 820, "ceil(65536 / 80)");
    assert_eq!(line_visual_rows(65536, 0), 65535, "a zero wrap width counts as one column, capped");
    assert_eq!(line_visual_rows(usize::MAX, 1), 65535, "the count stops at 65535 rows");
    assert_eq!(line_visual_rows(10, 0), 10);
}

#[test]
fn finder_results_refuses_a_query_longer_than_the_limit() {
    let long = "a".repeat(MAX_QUERY_CHARS + 1);
    let candidates = paths(&["a.rs", &long]);
    assert!(finder_results(&long, &candidates).is_empty());
}

#[test]
fn finder_results_matches_a_query_at_the_limit() {
    let q = "a".repeat(MAX_QUERY_CHARS);
    let candidates = paths(&["b.rs", &q]);
    let results = finder_results(&q, &candidates);
    assert_eq!(results.len(), 1);
    assert_eq!(results[0].path, q);
    assert_eq!(results[0].indices.len(), MAX_QUERY_CHARS);
}

#[test]
fn finder_results_on_a_blank_query_lists_candidates() {
    let candidates = paths(&["b.rs", "a.rs"]);
    let got: Vec<String> = finder_results(&" ".repeat(MAX_QUERY_CHARS + 5), &candidates).iter().map(|m| m.path.clone()).collect();
    assert_eq!(got, candidates);
}
