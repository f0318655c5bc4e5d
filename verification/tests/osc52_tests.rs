use argus_tui::pty_output::{find_subslice, scan_osc52, OSC52_MAX_PENDING};

fn scan(partial: &mut Vec<u8>, data: &[u8]) -> Option<String> {
    scan_osc52(partial, data)
}

#[test]
fn app_finds_a_bel_terminated_sequence() {
    let mut partial = Vec::new();
    let found = scan(&mut partial, b"before\x1b]52;c;aGVsbG8=\x07after");
    assert_eq!(found.as_deref(), Some("hello"));
    assert!(partial.is_empty());
}

#[test]
fn app_finds_a_string_terminator_sequence() {
    let mut partial = Vec::new();
    let found = scan(&mut partial, b"\x1b]52;c;aGVsbG8=\x1b\\rest");
    assert_eq!(found.as_deref(), Some("hello"));
}

#[test]
fn app_reassembles_a_sequence_split_across_chunks() {
    let mut partial = Vec::new();
    assert_eq!(scan(&mut partial, b"noise \x1b]52;c;aGVs"), None);
    assert_eq!(scan(&mut partial, b"bG8=\x07 more noise").as_deref(), Some("hello"));
}

#[test]
fn app_ignores_a_clipboard_query() {
    let mut partial = Vec::new();
    assert_eq!(scan(&mut partial, b"\x1b]52;c;?\x07"), None);
    assert!(partial.is_empty());
}

#[test]
fn app_returns_the_last_of_multiple_sequences_in_one_chunk() {
    let mut partial = Vec::new();
    let found = scan(&mut partial, b"\x1b]52;c;Zmlyc3Q=\x07\x1b]52;c;c2Vjb25k\x07");
    assert_eq!(found.as_deref(), Some("second"));
}

#[test]
fn app_caps_pending_bytes_on_an_unterminated_sequence() {
    let mut partial = Vec::new();
    let huge = vec![b'a'; OSC52_MAX_PENDING + 1];
    let mut chunk = b"\x1b]52;c;".to_vec();
    chunk.extend_from_slice(&huge);
    assert_eq!(scan(&mut partial, &chunk), None);
    assert!(partial.is_empty(), "pending buffer should be dropped once it exceeds the cap");
}

#[test]
fn app_plain_output_leaves_no_residue() {
    let mut partial = Vec::new();
    assert_eq!(scan(&mut partial, b"just some regular agent output\n"), None);
    assert!(partial.is_empty());
}

#[test]
fn pty_output_finds_a_bel_terminated_sequence() {
    let mut partial = Vec::new();
    let found = scan_osc52(&mut partial, b"before\x1b]52;c;aGVsbG8=\x07after");
    assert_eq!(found.as_deref(), Some("hello"));
    assert!(partial.is_empty());
}

#[test]
fn pty_output_finds_a_string_terminator_sequence() {
    let mut partial = Vec::new();
    let found = scan_osc52(&mut partial, b"\x1b]52;c;aGVsbG8=\x1b\\rest");
    assert_eq!(found.as_deref(), Some("hello"));
}

#[test]
fn pty_output_reassembles_a_sequence_split_across_chunks() {
    let mut partial = Vec::new();
    assert_eq!(scan_osc52(&mut partial, b"noise \x1b]52;c;aGVs"), None);
    assert_eq!(scan_osc52(&mut partial, b"bG8=\x07 more noise").as_deref(), Some("hello"));
}

#[test]
fn pty_output_ignores_a_clipboard_query() {
    let mut partial = Vec::new();
    assert_eq!(scan_osc52(&mut partial, b"\x1b]52;c;?\x07"), None);
    assert!(partial.is_empty());
}

#[test]
fn pty_output_returns_the_last_of_multiple_sequences_in_one_chunk() {
    let mut partial = Vec::new();
    let found = scan_osc52(&mut partial, b"\x1b]52;c;Zmlyc3Q=\x07\x1b]52;c;c2Vjb25k\x07");
    assert_eq!(found.as_deref(), Some("second"));
}

#[test]
fn pty_output_caps_pending_bytes_on_an_unterminated_sequence() {
    let mut partial = Vec::new();
    let huge = vec![b'a'; OSC52_MAX_PENDING + 1];
    let mut chunk = b"\x1b]52;c;".to_vec();
    chunk.extend_from_slice(&huge);
    assert_eq!(scan_osc52(&mut partial, &chunk), None);
    assert!(partial.is_empty(), "pending buffer should be dropped once it exceeds the cap");
}

#[test]
fn pty_output_plain_output_leaves_no_residue() {
    let mut partial = Vec::new();
    assert_eq!(scan_osc52(&mut partial, b"just some regular agent output\n"), None);
    assert!(partial.is_empty());
}

#[test]
fn a_dangling_escape_is_kept_for_the_next_chunk() {
    let mut partial = Vec::new();
    assert_eq!(scan_osc52(&mut partial, b"output\x1b]52"), None);
    assert_eq!(partial, b"\x1b]52".to_vec());
    assert_eq!(scan_osc52(&mut partial, b";c;aGVsbG8=\x07").as_deref(), Some("hello"));
    assert!(partial.is_empty());
    let mut other = Vec::new();
    assert_eq!(scan_osc52(&mut other, b"noise \x1b]5"), None);
    assert_eq!(other, b"\x1b]5".to_vec());
    assert_eq!(scan_osc52(&mut other, b"2;c;aGVsbG8=\x07").as_deref(), Some("hello"));
    let mut lone = Vec::new();
    assert_eq!(scan_osc52(&mut lone, b"text\x1b"), None);
    assert_eq!(lone, b"\x1b".to_vec());
    let mut none = Vec::new();
    assert_eq!(scan_osc52(&mut none, b"text]5"), None);
    assert!(none.is_empty());
}

#[test]
fn a_payload_without_selection_is_decoded_whole() {
    let mut partial = Vec::new();
    assert_eq!(scan_osc52(&mut partial, b"\x1b]52;aGk=\x07").as_deref(), Some("hi"));
}

#[test]
fn invalid_base64_yields_nothing() {
    let mut partial = Vec::new();
    assert_eq!(scan_osc52(&mut partial, b"\x1b]52;c;!!!\x07"), None);
    assert!(partial.is_empty());
}

#[test]
fn find_subslice_finds_the_first_occurrence() {
    assert_eq!(find_subslice(b"abcabc", b"ca"), Some(2));
    assert_eq!(find_subslice(b"abc", b"x"), None);
    assert_eq!(find_subslice(b"ab", b"abc"), None);
}
