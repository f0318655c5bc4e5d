use argus_tui::input::{Event, KeyCode, KeyEvent, KeyEventKind, KeyModifiers, MouseButton, MouseEventKind};
use argus_tui::paste_coalesce::{classify, seed_char, text_char, DrainStep};
use argus_tui::terminal_protocol::{key_to_bytes, sgr_mouse_button};
use argus_tui::text_input::{apply, apply_paste, TextInputAction};

fn key(code: KeyCode, modifiers: KeyModifiers) -> KeyEvent {
    KeyEvent::press(code, modifiers)
}

fn none() -> KeyModifiers {
    KeyModifiers::none()
}

fn shift() -> KeyModifiers {
    KeyModifiers::with(true, false, false)
}

fn ctrl() -> KeyModifiers {
    KeyModifiers::with(false, true, false)
}

fn alt() -> KeyModifiers {
    KeyModifiers::with(false, false, true)
}

#[test]
fn ctrl_letter_encodes_as_control_byte() {
    let bytes = key_to_bytes(&key(KeyCode::Char('c'), ctrl()));
    assert_eq!(bytes, Some(vec![3]));
}

#[test]
fn plain_char_encodes_as_utf8() {
    let bytes = key_to_bytes(&key(KeyCode::Char('a'), none()));
    assert_eq!(bytes, Some(b"a".to_vec()));
}

#[test]
fn alt_char_prefixes_esc_meta_escape() {
    assert_eq!(key_to_bytes(&key(KeyCode::Char('b'), alt())), Some(vec![0x1b, b'b']));
    assert_eq!(key_to_bytes(&key(KeyCode::Char('f'), alt())), Some(vec![0x1b, b'f']));
    assert_eq!(key_to_bytes(&key(KeyCode::Char('y'), alt())), Some(vec![0x1b, b'y']));
}

#[test]
fn ctrl_alt_letter_combines_control_byte_with_meta_escape() {
    let bytes = key_to_bytes(&key(KeyCode::Char('c'), KeyModifiers::with(false, true, true)));
    assert_eq!(bytes, Some(vec![0x1b, 3]));
}

#[test]
fn ctrl_underscore_encodes_undo_byte() {
    assert_eq!(key_to_bytes(&key(KeyCode::Char('_'), ctrl())), Some(vec![0x1f]));
}

#[test]
fn ctrl_shift_dash_encodes_undo_byte() {
    assert_eq!(key_to_bytes(&key(KeyCode::Char('-'), KeyModifiers::with(true, true, false))), Some(vec![0x1f]));
}

#[test]
fn enter_encodes_as_carriage_return() {
    let bytes = key_to_bytes(&key(KeyCode::Enter, none()));
    assert_eq!(bytes, Some(vec![b'\r']));
}

#[test]
fn shift_enter_encodes_as_csi_u_sequence() {
    let bytes = key_to_bytes(&key(KeyCode::Enter, shift()));
    assert_eq!(bytes, Some(b"\x1b[13;2u".to_vec()));
}

#[test]
fn alt_enter_encodes_as_csi_u_sequence() {
    let bytes = key_to_bytes(&key(KeyCode::Enter, alt()));
    assert_eq!(bytes, Some(b"\x1b[13;3u".to_vec()));
}

#[test]
fn shift_alt_enter_encodes_as_csi_u_sequence() {
    let bytes = key_to_bytes(&key(KeyCode::Enter, KeyModifiers::with(true, false, true)));
    assert_eq!(bytes, Some(b"\x1b[13;4u".to_vec()));
}

#[test]
fn arrow_keys_encode_as_csi_sequences() {
    assert_eq!(key_to_bytes(&key(KeyCode::Up, none())), Some(b"\x1b[A".to_vec()));
    assert_eq!(key_to_bytes(&key(KeyCode::Down, none())), Some(b"\x1b[B".to_vec()));
}

#[test]
fn ctrl_arrow_encodes_modifier_in_csi_sequence() {
    assert_eq!(key_to_bytes(&key(KeyCode::Left, ctrl())), Some(b"\x1b[1;5D".to_vec()));
    assert_eq!(key_to_bytes(&key(KeyCode::Right, ctrl())), Some(b"\x1b[1;5C".to_vec()));
}

#[test]
fn alt_backspace_encodes_as_esc_del() {
    assert_eq!(key_to_bytes(&key(KeyCode::Backspace, alt())), Some(vec![0x1b, 0x7f]));
}

#[test]
fn plain_backspace_encodes_as_del() {
    assert_eq!(key_to_bytes(&key(KeyCode::Backspace, none())), Some(vec![0x7f]));
}

#[test]
fn function_keys_encode_known_range() {
    assert_eq!(key_to_bytes(&key(KeyCode::F(1), none())), Some(b"\x1bOP".to_vec()));
    assert_eq!(key_to_bytes(&key(KeyCode::F(5), none())), Some(b"\x1b[15~".to_vec()));
    assert_eq!(key_to_bytes(&key(KeyCode::F(13), none())), None);
}

#[test]
fn multibyte_chars_encode_as_utf8() {
    assert_eq!(key_to_bytes(&key(KeyCode::Char('é'), none())), Some("é".as_bytes().to_vec()));
    assert_eq!(key_to_bytes(&key(KeyCode::Char('é'), alt())), Some(vec![0x1b, 0xc3, 0xa9]));
}

#[test]
fn navigation_keys_without_a_sequence_encode_nothing() {
    assert_eq!(key_to_bytes(&key(KeyCode::CapsLock, none())), None);
    assert_eq!(key_to_bytes(&key(KeyCode::Tab, none())), Some(vec![9]));
    assert_eq!(key_to_bytes(&key(KeyCode::PageUp, none())), Some(b"\x1b[5~".to_vec()));
}

#[test]
fn sgr_mouse_button_down_is_not_a_release() {
    assert_eq!(sgr_mouse_button(MouseEventKind::Down(MouseButton::Left)), Some((0, false)));
}

#[test]
fn sgr_mouse_button_up_is_a_release() {
    assert_eq!(sgr_mouse_button(MouseEventKind::Up(MouseButton::Right)), Some((2, true)));
}

#[test]
fn sgr_mouse_button_drag_adds_motion_offset() {
    assert_eq!(sgr_mouse_button(MouseEventKind::Drag(MouseButton::Left)), Some((32, false)));
}

#[test]
fn sgr_mouse_button_wheel_ticks_are_pseudo_buttons() {
    assert_eq!(sgr_mouse_button(MouseEventKind::ScrollUp), Some((64, false)));
    assert_eq!(sgr_mouse_button(MouseEventKind::ScrollDown), Some((65, false)));
}

#[test]
fn sgr_mouse_button_hover_reports_motion() {
    assert_eq!(sgr_mouse_button(MouseEventKind::Moved), Some((35, false)));
    assert_eq!(sgr_mouse_button(MouseEventKind::Drag(MouseButton::Middle)), Some((33, false)));
}

#[test]
fn char_appends_and_continues() {
    let mut input = "ab".to_string();
    let action = apply(&mut input, key(KeyCode::Char('c'), none()));
    assert!(matches!(action, TextInputAction::Continue));
    assert_eq!(input, "abc");
}

#[test]
fn backspace_pops_and_continues() {
    let mut input = "abc".to_string();
    let action = apply(&mut input, key(KeyCode::Backspace, none()));
    assert!(matches!(action, TextInputAction::Continue));
    assert_eq!(input, "ab");
}

#[test]
fn backspace_on_empty_input_stays_empty() {
    let mut input = String::new();
    let action = apply(&mut input, key(KeyCode::Backspace, none()));
    assert!(matches!(action, TextInputAction::Continue));
    assert_eq!(input, "");
}

#[test]
fn enter_submits_without_touching_input() {
    let mut input = "abc".to_string();
    let action = apply(&mut input, key(KeyCode::Enter, none()));
    assert!(matches!(action, TextInputAction::Submit));
    assert_eq!(input, "abc");
}

#[test]
fn esc_cancels_without_touching_input() {
    let mut input = "abc".to_string();
    let action = apply(&mut input, key(KeyCode::Esc, none()));
    assert!(matches!(action, TextInputAction::Cancel));
    assert_eq!(input, "abc");
}

#[test]
fn other_keys_are_ignored() {
    let mut input = "abc".to_string();
    let action = apply(&mut input, key(KeyCode::Left, none()));
    assert!(matches!(action, TextInputAction::Continue));
    assert_eq!(input, "abc");
}

#[test]
fn paste_into_a_field_drops_line_breaks() {
    let mut input = "a".to_string();
    apply_paste(&mut input, "b\r\nc\nd");
    assert_eq!(input, "abcd");
}

#[test]
fn text_char_accepts_plain_and_shifted_chars() {
    assert_eq!(text_char(&key(KeyCode::Char('a'), none())), Some('a'));
    assert_eq!(text_char(&key(KeyCode::Char('A'), shift())), Some('A'));
}

#[test]
fn text_char_maps_enter_and_tab() {
    assert_eq!(text_char(&key(KeyCode::Enter, none())), Some('\n'));
    assert_eq!(text_char(&key(KeyCode::Tab, none())), Some('\t'));
}

#[test]
fn text_char_rejects_control_combos_and_navigation() {
    assert_eq!(text_char(&key(KeyCode::Char('c'), ctrl())), None);
    assert_eq!(text_char(&key(KeyCode::Left, none())), None);
    assert_eq!(text_char(&key(KeyCode::Backspace, none())), None);
}

#[test]
fn classify_ignores_release_without_ending_the_burst() {
    let mut release = key(KeyCode::Char('a'), none());
    release.kind = KeyEventKind::Release;
    assert!(matches!(classify(&Event::Key(release)), DrainStep::Ignore));
}

#[test]
fn classify_treats_non_key_events_as_a_boundary() {
    assert!(matches!(classify(&Event::Resize(80, 24)), DrainStep::Boundary));
}

#[test]
fn classify_treats_navigation_keys_as_a_boundary() {
    let arrow = key(KeyCode::Left, none());
    assert!(matches!(classify(&Event::Key(arrow)), DrainStep::Boundary));
}

#[test]
fn classify_collects_typed_text() {
    assert_eq!(classify(&Event::Key(key(KeyCode::Char('x'), none()))), DrainStep::Text('x'));
    assert_eq!(seed_char(&key(KeyCode::Enter, none())), Some('\n'));
    assert_eq!(seed_char(&key(KeyCode::Char('x'), alt())), None);
}
