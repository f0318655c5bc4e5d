use argus_tui::git::{commit_message_key, GitBranch, GitCommand, GitFileEntry, GitRepoState, GitState, LOG_PAGE};
use argus_tui::input::{KeyCode, KeyEvent, KeyModifiers};

fn press(code: KeyCode) -> KeyEvent {
    KeyEvent::press(code, KeyModifiers::none())
}

fn repo(path: &str) -> GitRepoState {
    let mut r = GitRepoState::new(path.to_string());
    r.status.push(GitFileEntry { path: "a.rs".to_string(), staged: false });
    r.status.push(GitFileEntry { path: "b.rs".to_string(), staged: true });
    r.branches.push(GitBranch { name: "main".to_string(), is_current: false });
    r.branches.push(GitBranch { name: "dev".to_string(), is_current: true });
    r.branches.push(GitBranch { name: "fix".to_string(), is_current: false });
    r
}

fn two_repos() -> GitState {
    let mut g = GitState::new();
    g.repos.push(repo("/w"));
    g.repos.push(repo("/w/sub"));
    g
}

#[test]
fn git_keys_move_between_repos_and_files() {
    let mut g = two_repos();
    g.handle_key(press(KeyCode::Down));
    assert_eq!(g.selected_file, 1);
    g.handle_key(press(KeyCode::Char('j')));
    assert_eq!(g.selected_file, 1);
    g.handle_key(press(KeyCode::Right));
    assert_eq!((g.selected_repo, g.selected_file), (1, 0));
    g.handle_key(press(KeyCode::Right));
    assert_eq!(g.selected_repo, 1);
    g.handle_key(press(KeyCode::Left));
    g.handle_key(press(KeyCode::Left));
    assert_eq!(g.selected_repo, 0);
    g.handle_key(press(KeyCode::Char('k')));
    assert_eq!(g.selected_file, 0);
}

#[test]
fn space_stages_or_unstages_the_highlighted_file() {
    let mut g = two_repos();
    let cmd = g.handle_key(press(KeyCode::Char(' ')));
    assert!(matches!(cmd, GitCommand::Stage { repo, paths } if repo == "/w" && paths == vec!["a.rs".to_string()]));
    g.handle_key(press(KeyCode::Down));
    let cmd = g.handle_key(press(KeyCode::Char(' ')));
    assert!(matches!(cmd, GitCommand::Unstage { repo, paths } if repo == "/w" && paths == vec!["b.rs".to_string()]));
}

#[test]
fn remote_actions_and_commit_prompt() {
    let mut g = two_repos();
    g.commit_message = "wip".to_string();
    assert!(matches!(g.handle_key(press(KeyCode::Char('c'))), GitCommand::OpenCommitMessage { repo, input } if repo == "/w" && input == "wip"));
    assert!(matches!(g.handle_key(press(KeyCode::Char('f'))), GitCommand::Fetch { repo } if repo == "/w"));
    assert!(matches!(g.handle_key(press(KeyCode::Char('p'))), GitCommand::Pull { .. }));
    assert!(matches!(g.handle_key(press(KeyCode::Char('P'))), GitCommand::Push { .. }));
    assert!(matches!(g.handle_key(press(KeyCode::Char('z'))), GitCommand::Nothing));
    let mut empty = GitState::new();
    assert!(matches!(empty.handle_key(press(KeyCode::Char('f'))), GitCommand::Nothing));
}

#[test]
fn b_switches_to_the_branch_after_the_current_one() {
    let mut g = two_repos();
    assert!(matches!(g.handle_key(press(KeyCode::Char('b'))), GitCommand::SwitchBranch { name, .. } if name == "fix"));
    g.repos[0].branches[1].is_current = false;
    assert!(matches!(g.handle_key(press(KeyCode::Char('b'))), GitCommand::SwitchBranch { name, .. } if name == "dev"));
    g.repos[0].branches.truncate(1);
    assert!(matches!(g.handle_key(press(KeyCode::Char('b'))), GitCommand::Nothing));
}

#[test]
fn the_log_loads_page_by_page() {
    let mut g = two_repos();
    let cmd = g.handle_key(press(KeyCode::Char('l')));
    assert!(g.show_log);
    assert!(matches!(cmd, GitCommand::Log { skip: 0, limit, .. } if limit == LOG_PAGE));
    g.on_log_loaded(&"/w".to_string(), 0, Some(30));
    assert_eq!(g.repos[0].log_len, 30);
    assert!(!g.repos[0].log_complete);
    assert!(matches!(g.handle_key(press(KeyCode::Char('m'))), GitCommand::Log { skip: 30, .. }));
    g.on_log_loaded(&"/w".to_string(), 30, Some(5));
    assert_eq!(g.repos[0].log_len, 35);
    assert!(g.repos[0].log_complete);
    assert!(matches!(g.handle_key(press(KeyCode::Char('m'))), GitCommand::Nothing));
    assert!(matches!(g.handle_key(press(KeyCode::Char('l'))), GitCommand::Nothing));
    assert!(!g.show_log);
    assert!(matches!(g.handle_key(press(KeyCode::Char('l'))), GitCommand::Nothing), "log already loaded");
}

#[test]
fn repos_are_added_once_and_refreshed_by_path() {
    let mut g = GitState::new();
    let paths = vec!["/a".to_string(), "/b".to_string(), "/a".to_string()];
    g.add_repos(&paths);
    assert_eq!(g.repos.len(), 2);
    g.add_repos(&paths);
    assert_eq!(g.repos.len(), 2);
    assert_eq!(g.find_repo(&"/b".to_string()), Some(1));
    assert_eq!(g.find_repo(&"/c".to_string()), None);
    g.on_refreshed(&"/b".to_string(), Some(vec![GitFileEntry { path: "x".to_string(), staged: false }]), None);
    assert_eq!(g.repos[1].status.len(), 1);
    assert!(g.repos[0].status.is_empty());
}

#[test]
fn commit_prompt_commits_the_trimmed_message() {
    let (open, msg) = commit_message_key("fix it".to_string(), press(KeyCode::Char('!')));
    assert_eq!(open.as_deref(), Some("fix it!"));
    assert!(msg.is_none());
    let (open, msg) = commit_message_key("  fix it ".to_string(), press(KeyCode::Enter));
    assert!(open.is_none());
    assert_eq!(msg.as_deref(), Some("fix it"));
    let (open, msg) = commit_message_key("   ".to_string(), press(KeyCode::Enter));
    assert!(open.is_none() && msg.is_none());
    let (open, msg) = commit_message_key("x".to_string(), press(KeyCode::Esc));
    assert!(open.is_none() && msg.is_none());
    let mut g = GitState::new();
    g.commit_message = "draft".to_string();
    g.clear_commit_message();
    assert!(g.commit_message.is_empty());
}
