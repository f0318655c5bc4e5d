use argus_tui::app_model::{AppModel, Effect, Focus, HookEventKind, RuntimeStatus, SidebarTab, StatusMessage};
use argus_tui::desktop::{startup_path_event, CloseDecision, CloseDecisionDto};
use argus_tui::explorer::{ExplorerModel, FileEntry};
use argus_tui::input::{KeyCode, KeyEvent, KeyModifiers, MouseButton, MouseEvent, MouseEventKind};
use argus_tui::layout::Rect;
use argus_tui::modal::{modal_key, Modal, ModalEffect};
use argus_tui::mouse::{click_target, close_button_at, ClickTarget, HitMap};
use argus_tui::notification::NotificationCenter;

fn press(code: KeyCode) -> KeyEvent {
    KeyEvent::press(code, KeyModifiers::none())
}

fn ctrl(c: char) -> KeyEvent {
    KeyEvent::press(KeyCode::Char(c), KeyModifiers::with(false, true, false))
}

fn rect(x: u16, y: u16, width: u16, height: u16) -> Rect {
    Rect { x, y, width, height }
}

fn one_workspace() -> AppModel {
    let mut app = AppModel::new(34);
    app.add_workspace(1, "/w".to_string(), 10, "main".to_string());
    app
}

#[test]
fn a_new_workspace_focuses_its_session() {
    let app = one_workspace();
    assert_eq!(app.active_workspace, Some(1));
    assert_eq!(app.focus, Focus::Terminal);
    assert_eq!(app.focused_session_id(), Some(10));
    assert_eq!(app.workspaces[0].sessions, vec![10]);
}

#[test]
fn typed_keys_go_to_the_focused_session() {
    let mut app = one_workspace();
    let effects = app.on_key(press(KeyCode::Char('a')), 0, 0);
    assert_eq!(effects.len(), 1);
    assert!(matches!(&effects[0], Effect::WriteToSession { session_id: 10, bytes } if bytes == b"a"));
}

#[test]
fn ctrl_b_leaves_the_terminal_for_the_sidebar() {
    let mut app = one_workspace();
    let effects = app.on_key(ctrl('b'), 0, 0);
    assert!(effects.is_empty());
    assert_eq!(app.focus, Focus::Sidebar);
    let back = app.on_key(press(KeyCode::Esc), 0, 0);
    assert_eq!(app.focus, Focus::Terminal);
    assert!(back.iter().all(|e| !matches!(e, Effect::WriteToSession { .. })));
}

#[test]
fn f9_toggles_mouse_capture_and_says_so() {
    let mut app = one_workspace();
    let before = app.mouse_capture_enabled;
    let effects = app.on_key(press(KeyCode::F(9)), 0, 0);
    assert_eq!(app.mouse_capture_enabled, !before);
    assert_eq!(effects.len(), 1);
    let expected = if app.mouse_capture_enabled { StatusMessage::MouseCaptureOn } else { StatusMessage::MouseCaptureOff };
    assert!(matches!(&effects[0], Effect::Status(m) if *m == expected));
}

#[test]
fn f8_toggles_focus_mode() {
    let mut app = one_workspace();
    let effects = app.on_key(press(KeyCode::F(8)), 0, 0);
    assert!(app.focus_mode);
    assert!(matches!(effects.as_slice(), [Effect::ResizeForLayout]));
    app.on_key(press(KeyCode::F(8)), 0, 0);
    assert!(!app.focus_mode);
}

#[test]
fn sidebar_keys_spawn_and_switch_tabs() {
    let mut app = one_workspace();
    app.on_key(ctrl('b'), 0, 0);
    let effects = app.on_key(press(KeyCode::Char('n')), 0, 0);
    assert!(matches!(effects.as_slice(), [Effect::SpawnSession { workspace_id: 1 }]));
    app.on_key(press(KeyCode::Char('2')), 0, 0);
    assert_eq!(app.workspaces[0].sidebar_tab, SidebarTab::Explorer);
    app.on_key(press(KeyCode::Tab), 0, 0);
    assert_eq!(app.workspaces[0].sidebar_tab, SidebarTab::Agents);
    app.on_key(press(KeyCode::Char('q')), 0, 0);
    assert!(app.should_quit);
}

#[test]
fn new_workspace_prompt_spawns_on_enter() {
    let mut app = one_workspace();
    app.on_key(ctrl('b'), 0, 0);
    app.on_key(press(KeyCode::Char('w')), 0, 0);
    assert!(matches!(app.modal, Some(Modal::NewWorkspacePath { .. })));
    app.on_paste("/tmp/pro\nject");
    let effects = app.on_key(press(KeyCode::Enter), 0, 0);
    assert!(app.modal.is_none());
    assert!(matches!(effects.as_slice(), [Effect::SpawnWorkspace { directory }] if directory == "/tmp/project"));
}

#[test]
fn modal_key_edits_submits_and_cancels() {
    let m = Modal::RenameSession { session_id: 5, input: "ab".to_string() };
    let (next, effect) = modal_key(m, press(KeyCode::Backspace));
    assert!(matches!(effect, ModalEffect::Nothing));
    assert!(matches!(&next, Some(Modal::RenameSession { session_id: 5, input }) if input == "a"));
    let (next, effect) = modal_key(next.unwrap(), press(KeyCode::Enter));
    assert!(next.is_none());
    assert!(matches!(effect, ModalEffect::RenameSession { session_id: 5, name } if name == "a"));
    let blank = Modal::NewWorkspacePath { input: "   ".to_string() };
    let (next, effect) = modal_key(blank, press(KeyCode::Enter));
    assert!(next.is_none());
    assert!(matches!(effect, ModalEffect::Nothing));
    let confirm = Modal::ConfirmCloseSession { session_id: 9 };
    let (next, effect) = modal_key(confirm, press(KeyCode::Char('y')));
    assert!(next.is_none());
    assert!(matches!(effect, ModalEffect::ConfirmCloseSession { session_id: 9 }));
    let (next, effect) = modal_key(Modal::ConfirmCloseWorkspace { workspace_id: 2 }, press(KeyCode::Esc));
    assert!(next.is_none());
    assert!(matches!(effect, ModalEffect::Nothing));
}

#[test]
fn pasting_into_the_terminal_brackets_the_text() {
    let mut app = one_workspace();
    let effects = app.on_paste("x");
    assert!(matches!(effects.as_slice(), [Effect::WriteToSession { session_id: 10, bytes }] if bytes == b"\x1b[200~x\x1b[201~"));
}

#[test]
fn hook_events_drive_the_session_status() {
    let mut app = one_workspace();
    app.apply_hook_status(10, HookEventKind::Notification);
    assert_eq!(app.sessions[0].status, Some(RuntimeStatus::Waiting));
    app.on_key(press(KeyCode::Enter), 0, 0);
    assert_eq!(app.sessions[0].status, Some(RuntimeStatus::Thinking));
    app.apply_hook_status(10, HookEventKind::Stopped);
    assert_eq!(app.sessions[0].status, Some(RuntimeStatus::Idle));
    assert!(!app.sessions[0].unread);
}

#[test]
fn a_gone_session_is_forgotten() {
    let mut app = one_workspace();
    assert!(app.add_session(1, 11, "second".to_string()));
    app.on_session_gone(10);
    assert_eq!(app.workspaces[0].sessions, vec![11]);
    assert!(app.sessions.iter().all(|s| s.id != 10));
    assert_ne!(app.focused_session_id(), Some(10));
}

#[test]
fn cycling_workspaces_wraps_around() {
    let mut app = one_workspace();
    app.add_workspace(2, "/v".to_string(), 20, "other".to_string());
    assert_eq!(app.active_workspace, Some(2));
    app.cycle_workspace(1);
    assert_eq!(app.active_workspace, Some(1));
    app.cycle_workspace(-1);
    assert_eq!(app.active_workspace, Some(2));
    assert!(app.remove_workspace(2));
    assert_eq!(app.workspaces.len(), 1);
}

#[test]
fn click_targets_follow_the_hit_map() {
    let mut h = HitMap::new();
    h.topbar_tabs.push((rect(0, 0, 10, 1), 1));
    h.sidebar_content_area = rect(0, 1, 20, 10);
    h.terminal_area = rect(20, 1, 40, 10);
    h.notification_close.push((rect(50, 20, 1, 1), 7));
    assert!(matches!(click_target(&h, 3, 0), ClickTarget::WorkspaceTab(1)));
    assert!(matches!(click_target(&h, 3, 5), ClickTarget::SidebarContent));
    assert!(matches!(click_target(&h, 30, 5), ClickTarget::Terminal));
    assert!(matches!(click_target(&h, 70, 30), ClickTarget::Nothing));
    assert_eq!(close_button_at(&h, 50, 20), Some(7));
    assert_eq!(close_button_at(&h, 51, 20), None);
}

#[test]
fn a_press_in_the_terminal_is_reported_to_a_mouse_app() {
    let mut app = one_workspace();
    let mut h = HitMap::new();
    h.full = rect(0, 0, 100, 40);
    h.terminal_area = rect(34, 2, 66, 36);
    let down = MouseEvent { kind: MouseEventKind::Down(MouseButton::Left), column: 40, row: 5, modifiers: KeyModifiers::none() };
    let effects = app.on_mouse(down, &h, true, false);
    assert!(app.forwarding_mouse);
    assert!(matches!(effects.as_slice(), [Effect::WriteToSession { session_id: 10, bytes }] if bytes == b"\x1b[<0;6;3M"));
    let up = MouseEvent { kind: MouseEventKind::Up(MouseButton::Left), column: 0, row: 0, modifiers: KeyModifiers::none() };
    let effects = app.on_mouse(up, &h, true, false);
    assert!(!app.forwarding_mouse);
    assert_eq!(effects.len(), 1);
}

#[test]
fn explorer_toggles_and_flattens() {
    let mut e = ExplorerModel::new();
    e.dirs.push(("/w".to_string(), vec![
        FileEntry { path: "/w/src".to_string(), is_dir: true },
        FileEntry { path: "/w/a.rs".to_string(), is_dir: false },
    ]));
    e.dirs.push(("/w/src".to_string(), vec![FileEntry { path: "/w/src/lib.rs".to_string(), is_dir: false }]));
    let rows = e.flatten(&"/w".to_string());
    assert_eq!(rows.len(), 2);
    assert!(!e.toggle_dir(&"/w/src".to_string()), "already listed, nothing to load");
    let rows = e.flatten(&"/w".to_string());
    assert_eq!(rows.len(), 3);
    assert_eq!(rows[1], ("/w/src/lib.rs".to_string(), 1, false));
    e.toggle_dir(&"/w/src".to_string());
    assert_eq!(e.flatten(&"/w".to_string()).len(), 2);
    assert!(e.toggle_dir(&"/w/other".to_string()), "expanding an unlisted directory asks for its listing");
}

#[test]
fn notifications_push_and_dismiss() {
    let mut center = NotificationCenter::new();
    center.info("a".to_string(), "one".to_string());
    center.warn("b".to_string(), "two".to_string());
    center.error("c".to_string(), "three".to_string());
    let ids: Vec<u64> = center.visible().iter().map(|n| n.id).collect();
    assert_eq!(ids, vec![0, 1, 2]);
    center.dismiss(1);
    let ids: Vec<u64> = center.visible().iter().map(|n| n.id).collect();
    assert_eq!(ids, vec![0, 2]);
    center.dismiss(99);
    assert_eq!(center.visible().len(), 2);
    for i in 0..10 {
        center.info(format!("t{i}"), String::new());
    }
    assert!(center.visible().len() <= 4);
    assert_eq!(center.visible().back().unwrap().id, 12);
}

#[test]
fn desktop_events_convert() {
    let ok = startup_path_event(&Ok(()));
    assert!(ok.ok && ok.error.is_none());
    let err = startup_path_event(&Err("no such dir".to_string()));
    assert!(!err.ok);
    assert_eq!(err.error.as_deref(), Some("no such dir"));
    assert_eq!(CloseDecisionDto::from(CloseDecision::AlreadyClosed), CloseDecisionDto::AlreadyClosed);
}

#[test]
fn notifications_expire_by_age() {
    let mut center = NotificationCenter::new();
    center.info("a".to_string(), String::new());
    center.info("b".to_string(), String::new());
    center.info("c".to_string(), String::new());
    center.expire(&vec![5_000_000_000, 1, 3_999_999_999]);
    let ids: Vec<u64> = center.visible().iter().map(|n| n.id).collect();
    assert_eq!(ids, vec![1, 2], "only the card past the 4 s lifetime goes");
    center.expire(&vec![4_000_000_000, 0]);
    let ids: Vec<u64> = center.visible().iter().map(|n| n.id).collect();
    assert_eq!(ids, vec![2], "a card exactly at the lifetime goes too");
    center.tick();
    assert_eq!(center.visible().len(), 1, "a card just shown survives a tick");
}

#[test]
fn explorer_enter_pastes_the_path_relative_to_the_root() {
    let mut app = one_workspace();
    app.on_dir_loaded(1, "/w".to_string(), vec![
        FileEntry { path: "/w/src".to_string(), is_dir: true },
        FileEntry { path: "/w/a.rs".to_string(), is_dir: false },
    ]);
    app.on_key(ctrl('b'), 0, 0);
    app.on_key(press(KeyCode::Char('2')), 0, 0);
    app.on_key(press(KeyCode::Down), 0, 0);
    let effects = app.on_key(press(KeyCode::Enter), 0, 0);
    assert!(matches!(effects.as_slice(), [Effect::WriteToSession { session_id: 10, bytes }] if bytes == b"\x1b[200~@a.rs \x1b[201~"));
    assert_eq!(app.focus, Focus::Sidebar);
}

#[test]
fn finder_enter_pastes_marked_paths_in_order_and_focuses_the_terminal() {
    let mut app = one_workspace();
    app.on_key(ctrl('b'), 0, 0);
    app.on_key(press(KeyCode::Char('2')), 0, 0);
    app.on_key(ctrl('f'), 0, 0);
    app.on_finder_indexed(1, false, vec!["z.rs".to_string(), "b.rs".to_string()]);
    assert_eq!(app.fuzzy_finder.as_ref().unwrap().results.len(), 2);
    app.on_key(ctrl('t'), 0, 0);
    app.on_key(press(KeyCode::Down), 0, 0);
    app.on_key(ctrl('t'), 0, 0);
    assert_eq!(app.fuzzy_finder.as_ref().unwrap().marked.len(), 2);
    let effects = app.on_key(press(KeyCode::Enter), 0, 0);
    assert!(app.fuzzy_finder.is_none());
    assert_eq!(app.focus, Focus::Terminal);
    assert_eq!(effects.len(), 2);
    assert!(matches!(&effects[0], Effect::WriteToSession { session_id: 10, bytes } if bytes == b"\x1b[200~@b.rs @z.rs \x1b[201~"));
    assert!(matches!(effects[1], Effect::ResizeFocusedSession));
}

#[test]
fn finder_typing_refreshes_and_requests_a_preview() {
    let mut app = one_workspace();
    app.on_key(ctrl('b'), 0, 0);
    app.on_key(press(KeyCode::Char('2')), 0, 0);
    app.on_key(ctrl('f'), 0, 0);
    app.on_finder_indexed(1, false, vec!["src/app.rs".to_string(), "lib.rs".to_string()]);
    let effects = app.on_key(press(KeyCode::Char('a')), 0, 0);
    let f = app.fuzzy_finder.as_ref().unwrap();
    assert_eq!(f.results.len(), 1);
    assert!(matches!(effects.as_slice(), [Effect::FinderPreview { path, generation }] if path == "/w/src/app.rs" && *generation == f.preview_gen));
    let effects = app.on_key(ctrl('g'), 0, 0);
    assert!(matches!(&effects[0], Effect::IndexFiles { workspace_id: 1, root, all: true } if root == "/w"));
}
