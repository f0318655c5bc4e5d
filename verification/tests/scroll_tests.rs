use argus_tui::scroll_coalesce::{ScrollAccelerator, MAX_LINES_PER_BURST, MAX_STREAK};
use argus_tui::stable_scroll::StableScroll;
use argus_tui::preview_subject::PreviewSubject;

const MILLI: u128 = 1_000_000;

#[test]
fn a_single_unhurried_notch_is_not_accelerated() {
    let mut accel = ScrollAccelerator::new();
    assert_eq!(accel.accelerate(1, None), 1);
    assert_eq!(accel.accelerate(1, Some(500 * MILLI)), 1);
}

#[test]
fn consecutive_fast_bursts_ramp_up() {
    let mut accel = ScrollAccelerator::new();
    assert_eq!(accel.accelerate(1, None), 1);
    let fast = Some(20 * MILLI);
    assert_eq!(accel.accelerate(1, fast), 2);
    assert_eq!(accel.accelerate(1, fast), 2);
    assert_eq!(accel.accelerate(1, fast), 3);
}

#[test]
fn a_pause_resets_the_streak() {
    let mut accel = ScrollAccelerator::new();
    let fast = Some(20 * MILLI);
    accel.accelerate(1, fast);
    accel.accelerate(1, fast);
    assert!(accel.accelerate(1, fast) > 1, "should be accelerated by now");
    let slow = Some(500 * MILLI);
    assert_eq!(accel.accelerate(1, slow), 1, "a real pause should drop back to 1:1");
}

#[test]
fn output_never_exceeds_the_burst_cap() {
    let mut accel = ScrollAccelerator::new();
    let fast = Some(20 * MILLI);
    let mut last = accel.accelerate(3, None);
    for _ in 0..MAX_STREAK + 4 {
        last = accel.accelerate(3, fast);
    }
    assert_eq!(last, MAX_LINES_PER_BURST);
}

#[test]
fn direction_is_preserved_when_scaled() {
    let mut accel = ScrollAccelerator::new();
    let fast = Some(20 * MILLI);
    accel.accelerate(-1, None);
    let scaled = accel.accelerate(-1, fast);
    assert!(scaled < 0, "scroll-down should stay negative once accelerated");
}

#[test]
fn a_gap_right_at_the_window_still_continues_the_streak() {
    let mut accel = ScrollAccelerator::new();
    accel.accelerate(1, None);
    assert_eq!(accel.accelerate(2, Some(100 * MILLI)), 3);
    let mut other = ScrollAccelerator::new();
    other.accelerate(1, None);
    assert_eq!(other.accelerate(2, Some(100 * MILLI + 1)), 2);
}

#[test]
fn large_bursts_are_capped_in_both_directions() {
    let mut accel = ScrollAccelerator::new();
    assert_eq!(accel.accelerate(100, None), MAX_LINES_PER_BURST);
    assert_eq!(accel.accelerate(-100, None), -MAX_LINES_PER_BURST);
    assert_eq!(accel.accelerate(0, Some(MILLI)), 0);
}

#[test]
fn same_subject_keeps_offset_across_repeated_calls() {
    let mut s = StableScroll::new();
    s.set_subject("a.rs");
    s.scroll_clamped(5, i32::MIN, i32::MAX);
    s.set_subject("a.rs");
    assert_eq!(s.offset(), 5);
}

#[test]
fn different_subject_resets_offset() {
    let mut s = StableScroll::new();
    s.set_subject("a.rs");
    s.scroll_clamped(5, i32::MIN, i32::MAX);
    s.set_subject("b.rs");
    assert_eq!(s.offset(), 0);
}

#[test]
fn scroll_clamped_does_not_overshoot_past_the_bound() {
    let mut s = StableScroll::new();
    s.set_subject("a.rs");
    for _ in 0..10 {
        s.scroll_clamped(-1, 0, 20);
    }
    assert_eq!(s.offset(), 0, "offset must not go negative past the clamp");
    s.scroll_clamped(1, 0, 20);
    assert_eq!(s.offset(), 1);
}

#[test]
fn reset_zeroes_offset_and_forgets_the_subject() {
    let mut s = StableScroll::new();
    s.set_subject("a.rs");
    s.scroll_clamped(5, i32::MIN, i32::MAX);
    s.reset();
    assert_eq!(s.offset(), 0);
    s.scroll_clamped(2, i32::MIN, i32::MAX);
    s.set_subject("a.rs");
    assert_eq!(s.offset(), 0, "reset must forget the old subject so the next set_subject is treated as a change");
}

#[test]
fn scroll_clamped_does_not_overflow_at_the_extremes() {
    let mut s: StableScroll<&str> = StableScroll::new();
    s.scroll_clamped(i32::MAX, i32::MIN, i32::MAX);
    s.scroll_clamped(i32::MAX, i32::MIN, i32::MAX);
    assert_eq!(s.offset(), i32::MAX);
    s.scroll_clamped(i32::MIN, -3, 3);
    assert_eq!(s.offset(), -1);
    s.scroll_clamped(i32::MIN, -3, 3);
    assert_eq!(s.offset(), -3);
}

#[test]
fn preview_subject_keeps_offset_until_the_file_or_line_changes() {
    let subject = |p: &str, l: Option<u64>| PreviewSubject { path: p.to_string(), line: l };
    let mut s = StableScroll::new();
    s.set_subject(subject("src/a.rs", Some(3)));
    s.scroll_clamped(5, i32::MIN, i32::MAX);
    s.set_subject(subject("src/a.rs", Some(3)));
    assert_eq!(s.offset(), 5, "the same file and line keep the manual scroll");
    s.set_subject(subject("src/a.rs", Some(4)));
    assert_eq!(s.offset(), 0, "another match line in the same file resets it");
    s.scroll_clamped(2, i32::MIN, i32::MAX);
    s.set_subject(subject("src/b.rs", Some(4)));
    assert_eq!(s.offset(), 0, "another file resets it");
}
