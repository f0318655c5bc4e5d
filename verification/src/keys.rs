use vstd::prelude::*;

use crate::app_model::{
    find_session, lemma_session_index, lemma_ws_index, find_workspace, renamed_in, session_ids_same, session_index, ws_index,
    ws_shape_same, AppModel, Effect, Focus, RuntimeStatus, SessionModel, SidebarTab, StatusMessage, WorkspaceModel,
};
use crate::fuzzy_finder::{
    marked_set, marked_unique, mode_toggled, finder_results, finder_results_spec, matches_view, toggled, FinderFocus,
    FinderMatch, FinderMode, FuzzyFinderState, PREVIEW_PAGE_SIZE,
};
use crate::explorer::{
    remove_all_equal, dir_for_selection, dir_for_selection_spec, expanded_position, flatten_spec, has_listing, is_expanded, listing,
    rows_view, ExplorerModel, ExplorerRow,
};
use crate::paths::{parent_path, path_parent, path_strip_prefix, string_views, strip_path_prefix};
use crate::input::{KeyCode, KeyEvent};
use crate::modal::{modal_key, modal_key_spec, Modal, ModalEffect};
use crate::terminal_protocol::{key_bytes_spec, key_to_bytes};
use crate::paths::path_join;
use crate::reports::{bracketed_paste, prompt_paths_text};
use crate::text::{blank, is_blank, string_pop, string_push};
use crate::preview_subject::PreviewSubject;

verus! {

/// Whether every path of an index is short enough for the matcher.
pub open spec fn index_ok(index: Option<Vec<String>>) -> bool {
    match index {
        Some(v) => forall|j: int| 0 <= j < v@.len() ==> (#[trigger] v@[j])@.len() <= u32::MAX,
        None => true,
    }
}

/// The file index the finder of `f` searches in Files mode, if walked.
pub open spec fn finder_index(ws: Seq<WorkspaceModel>, f: FuzzyFinderState) -> Option<Vec<String>> {
    match ws_index(ws, f.workspace_id) {
        Some(i) => if f.show_ignored {
            ws[i].file_index_all
        } else {
            ws[i].file_index
        },
        None => None,
    }
}

/// The first result whose path is `p`.
pub open spec fn result_position(results: Seq<FinderMatch>, p: Seq<char>) -> Option<int>
    decreases results.len(),
{
    if results.len() == 0 {
        None
    } else {
        match result_position(results.drop_last(), p) {
            Some(i) => Some(i),
            None => if results.last().path@ == p {
                Some(results.len() - 1)
            } else {
                None
            },
        }
    }
}

proof fn lemma_result_position(results: Seq<FinderMatch>, p: Seq<char>)
    ensures
        match result_position(results, p) {
            Some(i) => 0 <= i < results.len() && results[i].path@ == p,
            None => forall|k: int| 0 <= k < results.len() ==> results[k].path@ != p,
        },
    decreases results.len(),
{
    if results.len() > 0 {
        assert(forall|k: int| 0 <= k < results.len() - 1 ==> results.drop_last()[k] == results[k]);
        lemma_result_position(results.drop_last(), p);
    }
}

fn find_result(results: &Vec<FinderMatch>, p: &String) -> (r: Option<usize>)
    ensures
        match r {
            Some(i) => result_position(results@, p@) == Some(i as int),
            None => result_position(results@, p@) is None,
        },
{
    let mut i: usize = 0;
    while i < results.len()
        invariant
            i <= results@.len(),
            result_position(results@.take(i as int), p@) is None,
        decreases results@.len() - i,
    {
        assert(results@.take(i + 1).drop_last() == results@.take(i as int));
        if results[i].path == *p {
            proof {
                lemma_result_position_prefix(results@, p@, i as int + 1);
            }
            return Some(i);
        }
        i = i + 1;
    }
    assert(results@.take(results@.len() as int) == results@);
    None
}

proof fn lemma_result_position_prefix(results: Seq<FinderMatch>, p: Seq<char>, k: int)
    requires
        0 <= k <= results.len(),
        result_position(results.take(k), p) is Some,
    ensures
        result_position(results, p) == result_position(results.take(k), p),
    decreases results.len() - k,
{
    if k < results.len() {
        assert(results.take(k + 1).drop_last() == results.take(k));
        lemma_result_position_prefix(results, p, k + 1);
    } else {
        assert(results.take(k) == results);
    }
}

/// Keeping the workspaces' ids and indexes, the session ids and the finder
/// keeps the model's invariants.
pub proof fn lemma_keep_invariants(a: AppModel, b: AppModel)
    requires
        ws_shape_same(a.workspaces@, b.workspaces@),
        session_ids_same(a.sessions@, b.sessions@),
        a.fuzzy_finder == b.fuzzy_finder,
        b.wf(),
        b.indexes_ok(),
        b.finder_ok(),
    ensures
        a.wf(),
        a.indexes_ok(),
        a.finder_ok(),
{
    assert forall|i: int, j: int| 0 <= i < j < a.workspaces@.len() implies (#[trigger] a.workspaces@[i]).id
        != (#[trigger] a.workspaces@[j]).id by {
        assert(a.workspaces@[i].id == b.workspaces@[i].id);
        assert(a.workspaces@[j].id == b.workspaces@[j].id);
    }
    assert forall|i: int, j: int| 0 <= i < j < a.sessions@.len() implies (#[trigger] a.sessions@[i]).id
        != (#[trigger] a.sessions@[j]).id by {
        assert(a.sessions@[i].id == b.sessions@[i].id);
        assert(a.sessions@[j].id == b.sessions@[j].id);
    }
    assert forall|k: int| 0 <= k < a.workspaces@.len() implies index_ok((#[trigger] a.workspaces@[k]).file_index)
        && index_ok(a.workspaces@[k].file_index_all) by {
        assert(a.workspaces@[k].file_index == b.workspaces@[k].file_index);
        assert(a.workspaces@[k].file_index_all == b.workspaces@[k].file_index_all);
        assert(index_ok(b.workspaces@[k].file_index));
    }
}

/// One bracketed paste that types `@path` for each of `paths`, separated
/// by spaces, and a final space.
pub open spec fn prompt_paste_bytes(paths: Seq<Seq<char>>) -> Seq<u8> {
    crate::reports::paste_open() + vstd::utf8::encode_utf8(crate::reports::at_paths(paths) + seq![' '])
        + crate::reports::paste_close()
}

/// `e` writes the prompt paste of `paths` to session `session_id`.
pub open spec fn is_prompt_paste(e: Effect, session_id: u128, paths: Seq<Seq<char>>) -> bool {
    e matches Effect::WriteToSession { session_id: s, bytes } && s == session_id && bytes@ == prompt_paste_bytes(paths)
}

/// The focused session of the workspace with this id, if listed.
pub open spec fn ws_focused_session(ws: Seq<WorkspaceModel>, id: u128) -> Option<u128> {
    match ws_index(ws, id) {
        Some(i) => ws[i].focused_session,
        None => None,
    }
}

/// `n` is the finder `f` after asking for a preview of its highlighted
/// row, with `r` the effects: the preview generation is bumped; with a row
/// highlighted, its file and match line become the preview's subject (the
/// manual scroll kept only when that subject is unchanged) and its load is
/// requested; with none, the preview is cleared. Nothing else changes.
pub open spec fn preview_requested(f: FuzzyFinderState, n: FuzzyFinderState, r: Seq<Effect>) -> bool {
    &&& n.preview_gen == f.preview_gen.wrapping_add(1)
    &&& if f.selected < f.results@.len() {
        let path = path_join(f.root@, f.results@[f.selected as int].path@);
        let line = f.results@[f.selected as int].line;
        &&& n == (FuzzyFinderState { preview_gen: n.preview_gen, preview_scroll: n.preview_scroll, ..f })
        &&& n.preview_scroll.subject_spec() matches Some(s) && s.path@ == path && s.line == line
        &&& n.preview_scroll.offset_spec() == (if f.preview_scroll.subject_spec() matches Some(s0) && s0.path@
            == path && s0.line == line {
            f.preview_scroll.offset_spec()
        } else {
            0
        })
        &&& r.len() == 1
        &&& r[0] matches Effect::FinderPreview { path: p, generation } && p@ == path && generation == n.preview_gen
    } else {
        &&& n == (FuzzyFinderState {
            preview_gen: n.preview_gen,
            preview: None,
            preview_path: None,
            preview_scroll: n.preview_scroll,
            ..f
        })
        &&& n.preview_scroll.subject_spec() is None
        &&& n.preview_scroll.offset_spec() == 0
        &&& r.len() == 0
    }
}

/// `n` is the finder `f` after re-running its search over the workspaces
/// `ws`, with `r` the effects: the search generation is bumped. Files mode
/// matches against the workspace's index at once, puts the highlight on
/// the top row (or, unless `reset`, back on the path it was on while that
/// path is still listed) and asks for its preview. Content mode clears the
/// results for a blank query and otherwise hands the query to a grep.
pub open spec fn refreshed(ws: Seq<WorkspaceModel>, f: FuzzyFinderState, n: FuzzyFinderState, reset: bool, r: Seq<Effect>) -> bool {
    &&& n.search_gen == f.search_gen.wrapping_add(1)
    &&& f.mode == FinderMode::Files ==> {
        let cands = match finder_index(ws, f) {
            Some(v) => v@,
            None => Seq::empty(),
        };
        let kept = if reset || f.selected >= f.results@.len() {
            None
        } else {
            result_position(n.results@, f.results@[f.selected as int].path@)
        };
        &&& matches_view(n.results@, finder_results_spec(f.query@, cands))
        &&& n.selected == match kept {
            Some(p) => p as usize,
            None => 0usize,
        }
        &&& preview_requested(
            FuzzyFinderState { search_gen: n.search_gen, results: n.results, selected: n.selected, ..f },
            n,
            r,
        )
    }
    &&& f.mode == FinderMode::Content && blank(f.query@) ==> {
        &&& n.results@.len() == 0
        &&& n == (FuzzyFinderState {
            search_gen: n.search_gen,
            results: n.results,
            selected: 0,
            preview: None,
            preview_path: None,
            ..f
        })
        &&& r.len() == 0
    }
    &&& f.mode == FinderMode::Content && !blank(f.query@) ==> {
        &&& n == (FuzzyFinderState { search_gen: n.search_gen, ..f })
        &&& r.len() == 1
        &&& r[0] matches Effect::FinderGrep { workspace_id, root, query, show_ignored, generation }
            && workspace_id == f.workspace_id && root@ == f.root@ && query@ == f.query@ && show_ignored
            == f.show_ignored && generation == n.search_gen
    }
}

/// `key` is the char `c` with Ctrl held.
pub open spec fn ctrl_char(key: KeyEvent, c: char) -> bool {
    key.code == KeyCode::Char(c) && key.modifiers.control
}

/// The effects the app runs for what a modal asked: the same action, and
/// nothing for `Nothing`.
pub open spec fn modal_effects(e: ModalEffect) -> Seq<Effect> {
    match e {
        ModalEffect::Nothing => Seq::empty(),
        ModalEffect::SpawnWorkspace { directory } => seq![Effect::SpawnWorkspace { directory }],
        ModalEffect::RenameSession { session_id, name } => seq![Effect::RenameSession { session_id, name }],
        ModalEffect::CreateFile { workspace_id, path, parent } => seq![
            Effect::CreateFile { workspace_id, path, parent },
        ],
        ModalEffect::CreateDir { workspace_id, path, parent } => seq![Effect::CreateDir { workspace_id, path, parent }],
        ModalEffect::RenamePath { workspace_id, from, to, parent } => seq![
            Effect::RenamePath { workspace_id, from, to, parent },
        ],
        ModalEffect::ConfirmCloseSession { session_id } => seq![Effect::ConfirmCloseSession { session_id }],
        ModalEffect::ConfirmCloseWorkspace { workspace_id } => seq![Effect::ConfirmCloseWorkspace { workspace_id }],
        ModalEffect::DeletePath { workspace_id, path, parent } => seq![
            Effect::DeletePath { workspace_id, path, parent },
        ],
    }
}

/// What a key does while the terminal has focus (see `handle_terminal_key`):
/// `post` is the model after it and `r` the effects.
pub open spec fn terminal_key_post(pre: AppModel, post: AppModel, key: KeyEvent, r: Seq<Effect>) -> bool {
    &&& post.flags_same(&pre)
    &&& ws_shape_same(post.workspaces@, pre.workspaces@)
    &&& session_ids_same(post.sessions@, pre.sessions@)
    &&& post.workspaces@.len() == pre.workspaces@.len()
    &&& post.active_workspace == pre.active_workspace
    &&& ctrl_char(key, 'b') ==> {
        &&& post.focus == Focus::Sidebar
        &&& !post.focus_mode
        &&& post.sessions@ == pre.sessions@
        &&& r.len() == (if pre.focus_mode {
            1int
        } else {
            0int
        })
        &&& pre.focus_mode ==> r[0] is ResizeForLayout
    }
    &&& !ctrl_char(key, 'b') ==> {
        &&& post.focus == pre.focus
        &&& post.focus_mode == pre.focus_mode
        &&& post.workspaces@ == pre.workspaces@
        &&& post.sessions@.len() == pre.sessions@.len()
        &&& match (pre.focused_session_spec(), key_bytes_spec(key)) {
            (Some(sid), Some(bytes)) => {
                &&& r.len() == 1
                &&& r[0] matches Effect::WriteToSession { session_id, bytes: b } && session_id == sid && b@
                    == bytes
                &&& match session_index(pre.sessions@, sid) {
                    Some(i) => {
                        let was = pre.sessions@[i].status;
                        let cancel = key.code == KeyCode::Esc || ctrl_char(key, 'c');
                        &&& post.sessions@[i].status == (if was == Some(RuntimeStatus::Waiting) {
                            if cancel {
                                Some(RuntimeStatus::Idle)
                            } else if key.code == KeyCode::Enter {
                                Some(RuntimeStatus::Thinking)
                            } else {
                                was
                            }
                        } else {
                            was
                        })
                        &&& post.sessions@[i].id == sid
                        &&& post.sessions@[i].unread == pre.sessions@[i].unread
                        &&& forall|k: int|
                            0 <= k < pre.sessions@.len() && k != i ==> post.sessions@[k]
                                == pre.sessions@[k]
                    },
                    None => post.sessions@ == pre.sessions@,
                }
            },
            _ => r.len() == 0 && post.sessions@ == pre.sessions@,
        }
    }
}

/// What a key does on the Agents list (see `handle_agents_key`): `post` is
/// the model after it and `r` the effects.
pub open spec fn agents_key_post(pre: AppModel, post: AppModel, key: KeyEvent, r: Seq<Effect>) -> bool {
    &&& ws_shape_same(post.workspaces@, pre.workspaces@)
    &&& post.fuzzy_finder == pre.fuzzy_finder
    &&& post.should_quit == pre.should_quit
    &&& post.wf()
    &&& post.sessions@ == pre.sessions@
    &&& post.active_workspace == pre.active_workspace
    &&& post.workspaces@.len() == pre.workspaces@.len()
    &&& pre.active_index() is None ==> post.workspaces@ == pre.workspaces@ && r.len() == 0
        && post.modal == pre.modal && post.focus == pre.focus
    &&& pre.active_index() is Some ==> {
        let i = pre.active_index()->0;
        let w = pre.workspaces@[i];
        let n = post.workspaces@[i];
        let sel = w.agents_selected;
        let has = sel < w.sessions@.len();
        &&& forall|k: int| 0 <= k < pre.workspaces@.len() && k != i ==> post.workspaces@[k]
            == pre.workspaces@[k]
        &&& n.id == w.id
        &&& n.sessions@ == w.sessions@
        &&& (key.code == KeyCode::Up || key.code == KeyCode::Char('k')) ==> n.agents_selected == (if sel
            > 0 {
            sel - 1
        } else {
            0
        }) && r.len() == 0
        &&& (key.code == KeyCode::Down || key.code == KeyCode::Char('j')) ==> n.agents_selected == (if sel
            + 1 < w.sessions@.len() {
            sel + 1
        } else {
            sel as int
        }) && r.len() == 0
        &&& key.code == KeyCode::Char('n') ==> r == seq![Effect::SpawnSession { workspace_id: w.id }]
        &&& key.code == KeyCode::Char('x') ==> if has {
            r == seq![Effect::RequestCloseSession { session_id: w.sessions@[sel as int] }]
        } else {
            r.len() == 0
        }
        &&& (key.code == KeyCode::Char('r') || key.code == KeyCode::Char('R')) ==> r.len() == 0 && if has {
            post.modal matches Some(Modal::RenameSession { session_id, input }) && session_id
                == w.sessions@[sel as int] && input@.len() == 0
        } else {
            post.modal == pre.modal
        }
        &&& key.code == KeyCode::Enter ==> if has {
            &&& n.focused_session == Some(w.sessions@[sel as int])
            &&& post.focus == Focus::Terminal
            &&& r == seq![Effect::ResizeFocusedSession]
        } else {
            r.len() == 0 && post.focus == pre.focus
        }
    }
}

/// What a key does on the Explorer (see `handle_explorer_key`): `post` is
/// the model after it and `r` the effects.
pub open spec fn explorer_key_post(pre: AppModel, post: AppModel, key: KeyEvent, r: Seq<Effect>) -> bool {
    &&& ws_shape_same(post.workspaces@, pre.workspaces@)
    &&& post.should_quit == pre.should_quit
    &&& post.focus == pre.focus
    &&& post.wf()
    &&& post.indexes_ok()
    &&& post.finder_ok()
    &&& post.sessions@ == pre.sessions@
    &&& post.active_workspace == pre.active_workspace
    &&& post.workspaces@.len() == pre.workspaces@.len()
    &&& !ctrl_char(key, 'f') ==> post.fuzzy_finder == pre.fuzzy_finder
    &&& ctrl_char(key, 'f') ==> post.modal == pre.modal
    &&& !ctrl_char(key, 'f') && pre.active_index() is Some ==> {
        let i = pre.active_index()->0;
        let w = pre.workspaces@[i];
        let n = post.workspaces@[i];
        let rows = flatten_spec(w.explorer.dirs@, w.explorer.expanded@, w.root@);
        let sel = w.explorer.selected;
        let has = sel < rows.len();
        &&& forall|k: int| 0 <= k < pre.workspaces@.len() && k != i ==> post.workspaces@[k]
            == pre.workspaces@[k]
        &&& n.id == w.id
        &&& n.root@ == w.root@
        &&& n.sessions@ == w.sessions@
        &&& n.focused_session == w.focused_session
        &&& n.explorer.dirs@ == w.explorer.dirs@
        &&& (key.code == KeyCode::Up || key.code == KeyCode::Char('k')) ==> n.explorer.selected == (if sel
            > 0 {
            sel - 1
        } else {
            0
        }) && r.len() == 0
        &&& (key.code == KeyCode::Down || key.code == KeyCode::Char('j')) ==> n.explorer.selected == (if sel
            + 1 < rows.len() {
            sel + 1
        } else {
            sel as int
        }) && r.len() == 0
        &&& key.code == KeyCode::Char(' ') ==> if has && rows[sel as int].2 {
            let p = rows[sel as int].0;
            if is_expanded(w.explorer.expanded@, p) {
                !is_expanded(n.explorer.expanded@, p) && r.len() == 0
            } else {
                &&& is_expanded(n.explorer.expanded@, p)
                &&& (listing(w.explorer.dirs@, p) is None) == (r.len() == 1)
                &&& r.len() == 1 ==> (r[0] matches Effect::ListDir { workspace_id, path } && workspace_id
                    == w.id && path@ == p)
            }
        } else {
            n.explorer.expanded@ == w.explorer.expanded@ && r.len() == 0
        }
        &&& key.code == KeyCode::Enter ==> if has && w.focused_session is Some {
            let p = rows[sel as int].0;
            let rel = match path_strip_prefix(p, w.root@) {
                Some(q) => q,
                None => p,
            };
            r.len() == 1 && is_prompt_paste(r[0], w.focused_session->0, seq![rel])
        } else {
            r.len() == 0
        }
        &&& key.code == KeyCode::Char('a') ==> (post.modal matches Some(
            Modal::NewFile { workspace_id, dir, input },
        ) && workspace_id == w.id && input@.len() == 0 && dir@ == dir_for_selection_spec(rows, sel as int, w.root@))
        &&& key.code == KeyCode::Char('A') ==> (post.modal matches Some(
            Modal::NewDir { workspace_id, dir, input },
        ) && workspace_id == w.id && input@.len() == 0 && dir@ == dir_for_selection_spec(rows, sel as int, w.root@))
        &&& key.code == KeyCode::Char('r') ==> if has {
            post.modal matches Some(Modal::RenamePath { workspace_id, from, input }) && workspace_id
                == w.id && from@ == rows[sel as int].0 && input@.len() == 0
        } else {
            post.modal == pre.modal
        }
        &&& (key.code == KeyCode::Char('x') || key.code == KeyCode::Delete) ==> if has {
            post.modal matches Some(Modal::ConfirmDeletePath { workspace_id, path, parent })
                && workspace_id == w.id && path@ == rows[sel as int].0 && parent@ == (match path_parent(
                rows[sel as int].0,
            ) {
                Some(q) => q,
                None => w.root@,
            })
        } else {
            post.modal == pre.modal
        }
    }
    &&& !ctrl_char(key, 'f') && pre.active_index() is None ==> post.workspaces@ == pre.workspaces@ && r.len() == 0
}

/// What a key does while the sidebar has focus (see `handle_sidebar_key`):
/// `post` is the model after it and `r` the effects.
pub open spec fn sidebar_key_post(pre: AppModel, post: AppModel, key: KeyEvent, r: Seq<Effect>) -> bool {
    &&& post.wf()
    &&& post.indexes_ok()
    &&& post.finder_ok()
    &&& post.sessions@ == pre.sessions@
    &&& pre.modal is None && pre.fuzzy_finder is None ==> post.modal is None
        || post.fuzzy_finder is None
    &&& ctrl_char(key, 'c') || key.code == KeyCode::Char('q') ==> post.should_quit && r.len() == 0
    &&& !ctrl_char(key, 'c') && key.code != KeyCode::Char('q') ==> post.should_quit == pre.should_quit
    &&& !ctrl_char(key, 'c') && key.code == KeyCode::Char('1') ==> r.len() == 0 && (pre.active_index() is Some
        ==> post.workspaces@[pre.active_index()->0].sidebar_tab == SidebarTab::Agents)
    &&& !ctrl_char(key, 'c') && key.code == KeyCode::Char('2') ==> r.len() == 0 && (pre.active_index() is Some
        ==> post.workspaces@[pre.active_index()->0].sidebar_tab == SidebarTab::Explorer)
    &&& !ctrl_char(key, 'c') && (key.code == KeyCode::Char('[') || key.code == KeyCode::Char(']')) ==> {
        &&& post.workspaces@ == pre.workspaces@
        &&& pre.workspaces@.len() > 0 ==> {
            let len = pre.workspaces@.len() as int;
            let cur = match pre.active_index() {
                Some(i) => i,
                None => 0,
            };
            let dir: int = if key.code == KeyCode::Char('[') {
                -1
            } else {
                1
            };
            &&& post.active_workspace == Some(pre.workspaces@[(cur + dir) % len].id)
            &&& r == seq![Effect::ResizeFocusedSession]
        }
        &&& pre.workspaces@.len() == 0 ==> r.len() == 0
    }
    &&& !ctrl_char(key, 'c') && key.code == KeyCode::Char('w') ==> r.len() == 0 && (post.modal matches Some(
        Modal::NewWorkspacePath { input },
    ) && input@.len() == 0)
    &&& !ctrl_char(key, 'c') && key.code == KeyCode::Char('W') ==> match pre.active_workspace {
        Some(id) => r == seq![Effect::RequestCloseWorkspace { workspace_id: id }],
        None => r.len() == 0,
    }
    &&& !ctrl_char(key, 'c') && key.code == KeyCode::Tab ==> r.len() == 0 && (pre.active_index() is Some ==> {
        let i = pre.active_index()->0;
        post.workspaces@[i].sidebar_tab == if pre.workspaces@[i].sidebar_tab == SidebarTab::Agents {
            SidebarTab::Explorer
        } else {
            SidebarTab::Agents
        }
    })
    &&& !ctrl_char(key, 'c') && key.code == KeyCode::Esc && pre.focused_session_spec() is Some ==> post.focus == Focus::Terminal && r.len() == 0
    &&& sidebar_delegates(pre, key) ==> match pre.active_index() {
        Some(i) => match pre.workspaces@[i].sidebar_tab {
            SidebarTab::Agents => agents_key_post(pre, post, key, r),
            SidebarTab::Explorer => explorer_key_post(pre, post, key, r),
        },
        None => post == pre && r.len() == 0,
    }
}

/// Whether the sidebar hands `key` to the active tab's own keymap: it is
/// none of the sidebar's own keys, and not an Esc that can go back to a
/// focused session.
pub open spec fn sidebar_delegates(pre: AppModel, key: KeyEvent) -> bool {
    &&& !ctrl_char(key, 'c')
    &&& key.code != KeyCode::Char('q')
    &&& key.code != KeyCode::Char('1')
    &&& key.code != KeyCode::Char('2')
    &&& key.code != KeyCode::Tab
    &&& key.code != KeyCode::Char('[')
    &&& key.code != KeyCode::Char(']')
    &&& key.code != KeyCode::Char('w')
    &&& key.code != KeyCode::Char('W')
    &&& !(key.code == KeyCode::Esc && pre.focused_session_spec() is Some)
}

/// What a key does while a modal is open (see `handle_modal_key`): `post`
/// is the model after it and `r` the effects.
pub open spec fn modal_key_post(pre: AppModel, post: AppModel, key: KeyEvent, r: Seq<Effect>) -> bool {
    &&& post.wf()
    &&& post.indexes_ok()
    &&& post.finder_ok()
    &&& post.workspaces@ == pre.workspaces@
    &&& post.active_workspace == pre.active_workspace
    &&& post.focus == pre.focus
    &&& post.fuzzy_finder == pre.fuzzy_finder
    &&& post.sessions@.len() == pre.sessions@.len()
    &&& r.len() <= 1
    &&& exists|e: ModalEffect|
        {
            &&& #[trigger] modal_key_spec(pre.modal->0, key, post.modal, e)
            &&& r == modal_effects(e)
            &&& match e {
                ModalEffect::RenameSession { session_id, name } => renamed_in(
                    pre.sessions@,
                    post.sessions@,
                    session_id,
                    name@,
                ),
                _ => post.sessions@ == pre.sessions@,
            }
        }
}

/// `post` is `pre` after confirming its finder, with `r` the effects: the
/// confirm targets go as one prompt paste to the focused session of the
/// finder's workspace, followed by a resize, and focus moves to the
/// terminal; with no targets or no focused session nothing is sent and
/// focus stays.
pub open spec fn finder_confirmed(pre: AppModel, post: AppModel, r: Seq<Effect>) -> bool {
    let f = pre.fuzzy_finder->0;
    let t = f.confirm_targets_spec();
    let to = ws_focused_session(pre.workspaces@, f.workspace_id);
    if t.len() > 0 && to is Some {
        &&& r.len() == 2
        &&& is_prompt_paste(r[0], to->0, t)
        &&& r[1] == Effect::ResizeFocusedSession
        &&& post.focus == Focus::Terminal
    } else {
        r.len() == 0 && post.focus == pre.focus
    }
}

/// What a key does while the finder of `pre` is open (see
/// `handle_finder_key`): `post` is the model after it and `r` the effects;
/// `min`/`max` bound the preview's manual scroll.
pub open spec fn finder_key_post(pre: AppModel, post: AppModel, key: KeyEvent, min: i32, max: i32, r: Seq<Effect>) -> bool {
    let f = pre.fuzzy_finder->0;
    let n = post.fuzzy_finder->0;
    let ws = pre.workspaces@;
    let preview = f.focus == FinderFocus::Preview;
    let navigation = key.code == KeyCode::Up || key.code == KeyCode::Down || key.code == KeyCode::PageUp
        || key.code == KeyCode::PageDown;
    &&& post.finder_ok()
    &&& post == (AppModel { fuzzy_finder: post.fuzzy_finder, focus: post.focus, ..pre })
    &&& key.code != KeyCode::Enter ==> post.focus == pre.focus
    &&& if key.code == KeyCode::Esc {
        post.fuzzy_finder is None && r.len() == 0
    } else if key.code == KeyCode::Enter {
        post.fuzzy_finder is None && finder_confirmed(pre, post, r)
    } else if key.code == KeyCode::Tab {
        &&& post.fuzzy_finder == Some(
            FuzzyFinderState {
                focus: if f.focus == FinderFocus::Results {
                    FinderFocus::Preview
                } else {
                    FinderFocus::Results
                },
                ..f
            },
        )
        &&& r.len() == 0
    } else if ctrl_char(key, ' ') {
        &&& post.fuzzy_finder is Some
        &&& exists|g: FuzzyFinderState| #[trigger] refreshed(ws, g, n, true, r) && mode_toggled(f, g)
    } else if ctrl_char(key, 't') {
        &&& post.fuzzy_finder == Some(FuzzyFinderState { marked: n.marked, ..f })
        &&& f.selected < f.results@.len() ==> marked_set(n.marked@) == toggled(
            marked_set(f.marked@),
            f.results@[f.selected as int].path@,
        )
        &&& f.selected >= f.results@.len() ==> n.marked@ == f.marked@
        &&& r.len() == 0
    } else if ctrl_char(key, 'g') {
        let g = FuzzyFinderState { show_ignored: !f.show_ignored, ..f };
        let need = g.show_ignored && (ws_index(ws, f.workspace_id) matches Some(i) && ws[i].file_index_all is None);
        let first: Seq<Effect> = if need {
            seq![Effect::IndexFiles { workspace_id: f.workspace_id, root: f.root, all: true }]
        } else {
            Seq::empty()
        };
        &&& post.fuzzy_finder is Some
        &&& r.len() >= first.len()
        &&& r.take(first.len() as int) == first
        &&& refreshed(ws, g, n, true, r.skip(first.len() as int))
    } else if preview && navigation {
        let delta: int = if key.code == KeyCode::Up {
            -1
        } else if key.code == KeyCode::Down {
            1
        } else if key.code == KeyCode::PageUp {
            -PREVIEW_PAGE_SIZE
        } else {
            PREVIEW_PAGE_SIZE as int
        };
        &&& post.fuzzy_finder == Some(FuzzyFinderState { preview_scroll: n.preview_scroll, ..f })
        &&& n.preview_scroll.offset_spec() == crate::stable_scroll::clamp_int(
            f.preview_scroll.offset_spec() + delta,
            min as int,
            max as int,
        )
        &&& n.preview_scroll.subject_spec() == f.preview_scroll.subject_spec()
        &&& r.len() == 0
    } else if key.code == KeyCode::Up || key.code == KeyCode::Down {
        let sel: int = if f.results@.len() == 0 {
            0
        } else {
            crate::stable_scroll::clamp_int(
                f.selected + if key.code == KeyCode::Up {
                    -1int
                } else {
                    1int
                },
                0,
                f.results@.len() - 1,
            )
        };
        &&& post.fuzzy_finder is Some
        &&& preview_requested(FuzzyFinderState { selected: sel as usize, ..f }, n, r)
    } else if key.code == KeyCode::Backspace {
        &&& post.fuzzy_finder is Some
        &&& exists|g: FuzzyFinderState|
            #[trigger] refreshed(ws, g, n, true, r) && g == (FuzzyFinderState { query: g.query, ..f }) && g.query@ == (
            if f.query@.len() == 0 {
                f.query@
            } else {
                f.query@.drop_last()
            })
    } else if key.code is Char && !key.modifiers.control {
        &&& post.fuzzy_finder is Some
        &&& exists|g: FuzzyFinderState|
            #[trigger] refreshed(ws, g, n, true, r) && g == (FuzzyFinderState { query: g.query, ..f }) && g.query@
                == f.query@.push(key.code->Char_0)
    } else {
        post == pre && r.len() == 0
    }
}

impl AppModel {
    /// The finder's own invariants: no path marked twice, and a result list
    /// that `i32` arithmetic can walk.
    pub open spec fn finder_ok(&self) -> bool {
        match self.fuzzy_finder {
            Some(f) => marked_unique(f.marked@) && f.results@.len() <= i32::MAX && f.selected <= i32::MAX,
            None => true,
        }
    }

    /// Every walked file index holds paths the matcher accepts.
    pub open spec fn indexes_ok(&self) -> bool {
        forall|k: int|
            0 <= k < self.workspaces@.len() ==> index_ok((#[trigger] self.workspaces@[k]).file_index) && index_ok(
                self.workspaces@[k].file_index_all,
            )
    }

    /// Declares what the finder's preview should now show, bumping the
    /// preview generation: the highlighted row's file (with its match line),
    /// for which a load is requested; with no row highlighted, the preview
    /// is cleared.
    pub fn request_finder_preview(&mut self) -> (r: Vec<Effect>)
        ensures
            *final(self) == (AppModel { fuzzy_finder: final(self).fuzzy_finder, ..*old(self) }),
            final(self).should_quit == old(self).should_quit,
            final(self).focus_mode == old(self).focus_mode,
            final(self).workspaces@ == old(self).workspaces@,
            final(self).sessions@ == old(self).sessions@,
            final(self).active_workspace == old(self).active_workspace,
            final(self).focus == old(self).focus,
            final(self).modal == old(self).modal,
            match old(self).fuzzy_finder {
                None => final(self).fuzzy_finder is None && r@.len() == 0,
                Some(f) => final(self).fuzzy_finder is Some && preview_requested(f, final(self).fuzzy_finder->0, r@),
            },
    {
        let mut effects: Vec<Effect> = Vec::new();
        match self.fuzzy_finder.take() {
            None => {},
            Some(mut finder) => {
                finder.preview_gen = finder.preview_gen.wrapping_add(1);
                match finder.selected_abs_path() {
                    None => {
                        finder.preview = None;
                        finder.preview_path = None;
                        finder.preview_scroll.reset();
                    },
                    Some(path) => {
                        let line = finder.results[finder.selected].line;
                        finder.preview_scroll.set_subject(PreviewSubject { path: path.clone(), line });
                        effects.push(Effect::FinderPreview { path, generation: finder.preview_gen });
                    },
                }
                self.fuzzy_finder = Some(finder);
            },
        }
        effects
    }

    /// Re-runs the finder's search for its query, mode and ignored-files
    /// toggle, bumping the search generation. Files mode matches against
    /// the workspace's index at once and then requests a preview; the
    /// highlight goes to the top, or with `reset_selection` false stays on
    /// the path it was on when that path is still listed. Content mode hands
    /// a non-blank query to a background grep, and clears the results for a
    /// blank one.
    pub fn refresh_finder_results(&mut self, reset_selection: bool) -> (r: Vec<Effect>)
        requires
            old(self).indexes_ok(),
            old(self).finder_ok(),
        ensures
            *final(self) == (AppModel { fuzzy_finder: final(self).fuzzy_finder, ..*old(self) }),
            final(self).modal == old(self).modal,
            final(self).should_quit == old(self).should_quit,
            final(self).focus_mode == old(self).focus_mode,
            final(self).workspaces@ == old(self).workspaces@,
            final(self).sessions@ == old(self).sessions@,
            final(self).active_workspace == old(self).active_workspace,
            final(self).focus == old(self).focus,
            final(self).finder_ok(),
            match old(self).fuzzy_finder {
                None => final(self).fuzzy_finder is None && r@.len() == 0,
                Some(f) => final(self).fuzzy_finder is Some && refreshed(
                    old(self).workspaces@,
                    f,
                    final(self).fuzzy_finder->0,
                    reset_selection,
                    r@,
                ),
            },
    {
        let mut finder = match self.fuzzy_finder.take() {
            Some(f) => f,
            None => {
                return Vec::new();
            },
        };
        finder.search_gen = finder.search_gen.wrapping_add(1);
        let kept: Option<String> = if reset_selection || finder.selected >= finder.results.len() {
            None
        } else {
            Some(finder.results[finder.selected].path.clone())
        };
        match finder.mode {
            FinderMode::Files => {
                proof {
                    lemma_ws_index(self.workspaces@, finder.workspace_id);
                }
                let results = match find_workspace(&self.workspaces, finder.workspace_id) {
                    Some(i) => {
                        let index = if finder.show_ignored {
                            &self.workspaces[i].file_index_all
                        } else {
                            &self.workspaces[i].file_index
                        };
                        match index {
                            Some(cands) => {
                                assert(index_ok(self.workspaces@[i as int].file_index));
                                assert(index_ok(self.workspaces@[i as int].file_index_all));
                                finder_results(finder.query.as_str(), cands)
                            },
                            None => {
                                let empty: Vec<String> = Vec::new();
                                finder_results(finder.query.as_str(), &empty)
                            },
                        }
                    },
                    None => {
                        let empty: Vec<String> = Vec::new();
                        finder_results(finder.query.as_str(), &empty)
                    },
                };
                finder.results = results;
                proof {
                    crate::fuzzy_finder::lemma_match_files_len(finder.query@, match finder_index(self.workspaces@, finder) {
                        Some(v) => v@,
                        None => Seq::empty(),
                    });
                }
                finder.selected = match kept {
                    Some(p) => match find_result(&finder.results, &p) {
                        Some(i) => {
                            proof {
                                lemma_result_position(finder.results@, p@);
                            }
                            i
                        },
                        None => 0,
                    },
                    None => 0,
                };
                self.fuzzy_finder = Some(finder);
                self.request_finder_preview()
            },
            FinderMode::Content => {
                if is_blank(finder.query.as_str()) {
                    finder.results.clear();
                    finder.selected = 0;
                    finder.preview = None;
                    finder.preview_path = None;
                    self.fuzzy_finder = Some(finder);
                    Vec::new()
                } else {
                    let mut effects: Vec<Effect> = Vec::new();
                    effects.push(
                        Effect::FinderGrep {
                            workspace_id: finder.workspace_id,
                            root: finder.root.clone(),
                            query: finder.query.clone(),
                            show_ignored: finder.show_ignored,
                            generation: finder.search_gen,
                        },
                    );
                    self.fuzzy_finder = Some(finder);
                    effects
                }
            },
        }
    }

    /// Writes `@path` for each target as one bracketed paste to the
    /// focused session of `workspace_id`. Nothing is written without
    /// targets or without a focused session there.
    pub fn insert_prompt_paths(&self, workspace_id: u128, targets: &Vec<String>) -> (r: Option<Effect>)
        ensures
            ({
                let focused = match ws_index(self.workspaces@, workspace_id) {
                    Some(i) => self.workspaces@[i].focused_session,
                    None => None,
                };
                if targets@.len() == 0 || focused is None {
                    r is None
                } else {
                    r matches Some(e) && is_prompt_paste(e, focused->0, targets@.map_values(|p: String| p@))
                }
            }),
    {
        if targets.len() == 0 {
            return None;
        }
        proof {
            lemma_ws_index(self.workspaces@, workspace_id);
        }
        let session = match find_workspace(&self.workspaces, workspace_id) {
            Some(i) => self.workspaces[i].focused_session,
            None => None,
        };
        match session {
            Some(session_id) => {
                let text = prompt_paths_text(targets);
                Some(Effect::WriteToSession { session_id, bytes: bracketed_paste(text.as_str()) })
            },
            None => None,
        }
    }

    /// Opens the fuzzy finder on the active workspace, asking for its file
    /// index when it was never walked, and runs the first search.
    pub fn open_fuzzy_finder(&mut self) -> (r: Vec<Effect>)
        requires
            old(self).indexes_ok(),
            old(self).finder_ok(),
        ensures
            final(self).modal == old(self).modal,
            final(self).should_quit == old(self).should_quit,
            final(self).focus_mode == old(self).focus_mode,
            final(self).focus == old(self).focus,
            final(self).finder_ok(),
            final(self).workspaces@ == old(self).workspaces@,
            final(self).sessions@ == old(self).sessions@,
            final(self).active_workspace == old(self).active_workspace,
            old(self).active_index() is None ==> final(self).fuzzy_finder == old(self).fuzzy_finder && r@.len() == 0,
            old(self).active_index() is Some ==> {
                let w = old(self).workspaces@[old(self).active_index()->0];
                let f = final(self).fuzzy_finder->0;
                &&& final(self).fuzzy_finder is Some
                &&& f.workspace_id == w.id
                &&& f.root@ == w.root@
                &&& f.mode == FinderMode::Files
                &&& f.query@ == Seq::<char>::empty()
                &&& !f.show_ignored
                &&& f.marked@.len() == 0
                &&& f.search_gen == 1
                &&& w.file_index is None ==> r@.len() > 0 && (r@[0] matches Effect::IndexFiles {
                    workspace_id,
                    root,
                    all,
                } && workspace_id == w.id && root@ == w.root@ && !all)
                &&& w.file_index is Some ==> r@.len() <= 1
            },
    {
        let i = match self.active_index_exec() {
            Some(i) => i,
            None => {
                return Vec::new();
            },
        };
        proof {
            lemma_ws_index(self.workspaces@, self.active_workspace->0);
        }
        let mut effects: Vec<Effect> = Vec::new();
        let id = self.workspaces[i].id;
        let root = self.workspaces[i].root.clone();
        if self.workspaces[i].file_index.is_none() {
            effects.push(Effect::IndexFiles { workspace_id: id, root: root.clone(), all: false });
        }
        self.fuzzy_finder = Some(FuzzyFinderState::new(id, root));
        let mut more = self.refresh_finder_results(true);
        effects.append(&mut more);
        effects
    }

    /// Confirms the finder: closes it and inserts its targets into the
    /// workspace's focused session, moving focus to the terminal when
    /// anything was inserted.
    fn confirm_finder(&mut self) -> (r: Vec<Effect>)
        requires
            old(self).fuzzy_finder is Some,
        ensures
            *final(self) == (AppModel { fuzzy_finder: None, focus: final(self).focus, ..*old(self) }),
            finder_confirmed(*old(self), *final(self), r@),
    {
        let finder = match self.fuzzy_finder.take() {
            Some(f) => f,
            None => {
                return Vec::new();
            },
        };
        let targets = finder.confirm_targets();
        assert(targets@.map_values(|p: String| p@) =~= string_views(targets@));
        let mut effects: Vec<Effect> = Vec::new();
        match self.insert_prompt_paths(finder.workspace_id, &targets) {
            Some(e) => {
                effects.push(e);
                self.focus = Focus::Terminal;
                effects.push(Effect::ResizeFocusedSession);
            },
            None => {},
        }
        effects
    }

    /// The finder's keymap: Esc closes, Enter confirms, Tab switches the
    /// navigated pane, Ctrl+Space switches mode, Ctrl+T marks, Ctrl+G shows
    /// ignored files; arrows and PageUp/PageDown scroll the preview when it
    /// has focus and move the highlight otherwise; Backspace and plain
    /// chars edit the query.
    #[verifier::rlimit(60)]
    #[verifier::spinoff_prover]
    pub fn handle_finder_key(&mut self, key: KeyEvent, min: i32, max: i32) -> (r: Vec<Effect>)
        requires
            old(self).indexes_ok(),
            old(self).finder_ok(),
            old(self).fuzzy_finder is Some,
            min <= max,
        ensures
            finder_key_post(*old(self), *final(self), key, min, max, r@),
    {
        let preview_focused = match &self.fuzzy_finder {
            Some(f) => f.focus == FinderFocus::Preview,
            None => false,
        };
        let navigation = key.code == KeyCode::Up || key.code == KeyCode::Down || key.code == KeyCode::PageUp
            || key.code == KeyCode::PageDown;
        if key.code == KeyCode::Esc {
            self.fuzzy_finder = None;
            Vec::new()
        } else if key.code == KeyCode::Enter {
            self.confirm_finder()
        } else if key.code == KeyCode::Tab {
            let mut f = self.fuzzy_finder.take().unwrap();
            f.toggle_focus();
            self.fuzzy_finder = Some(f);
            Vec::new()
        } else if key.code == KeyCode::Char(' ') && key.modifiers.control {
            let mut f = self.fuzzy_finder.take().unwrap();
            f.toggle_mode();
            let ghost g = f;
            self.fuzzy_finder = Some(f);
            let r = self.refresh_finder_results(true);
            assert(refreshed(old(self).workspaces@, g, self.fuzzy_finder->0, true, r@));
            r
        } else if key.code == KeyCode::Char('t') && key.modifiers.control {
            let mut f = self.fuzzy_finder.take().unwrap();
            f.toggle_mark();
            self.fuzzy_finder = Some(f);
            Vec::new()
        } else if key.code == KeyCode::Char('g') && key.modifiers.control {
            let mut f = self.fuzzy_finder.take().unwrap();
            f.toggle_show_ignored();
            let workspace_id = f.workspace_id;
            let root = f.root.clone();
            let show = f.show_ignored;
            self.fuzzy_finder = Some(f);
            let mut effects: Vec<Effect> = Vec::new();
            proof {
                lemma_ws_index(self.workspaces@, workspace_id);
            }
            let need_index = show && match find_workspace(&self.workspaces, workspace_id) {
                Some(i) => self.workspaces[i].file_index_all.is_none(),
                None => false,
            };
            if need_index {
                effects.push(Effect::IndexFiles { workspace_id, root, all: true });
            }
            let ghost first = effects@;
            let mut more = self.refresh_finder_results(true);
            let ghost rest = more@;
            effects.append(&mut more);
            assert(effects@.take(first.len() as int) == first);
            assert(effects@.skip(first.len() as int) == rest);
            effects
        } else if preview_focused && navigation {
            let delta: i32 = if key.code == KeyCode::Up {
                -1
            } else if key.code == KeyCode::Down {
                1
            } else if key.code == KeyCode::PageUp {
                -PREVIEW_PAGE_SIZE
            } else {
                PREVIEW_PAGE_SIZE
            };
            let mut f = self.fuzzy_finder.take().unwrap();
            f.scroll_preview(delta, min, max);
            self.fuzzy_finder = Some(f);
            Vec::new()
        } else if key.code == KeyCode::Up || key.code == KeyCode::Down {
            let mut f = self.fuzzy_finder.take().unwrap();
            f.move_selection(if key.code == KeyCode::Up {
                -1
            } else {
                1
            });
            self.fuzzy_finder = Some(f);
            self.request_finder_preview()
        } else if key.code == KeyCode::Backspace {
            let mut f = self.fuzzy_finder.take().unwrap();
            string_pop(&mut f.query);
            let ghost g = f;
            self.fuzzy_finder = Some(f);
            let r = self.refresh_finder_results(true);
            assert(refreshed(old(self).workspaces@, g, self.fuzzy_finder->0, true, r@));
            r
        } else {
            match key.code {
                KeyCode::Char(c) => {
                    if !key.modifiers.control {
                        let mut f = self.fuzzy_finder.take().unwrap();
                        string_push(&mut f.query, c);
                        let ghost g = f;
                        self.fuzzy_finder = Some(f);
                        let r = self.refresh_finder_results(true);
                        assert(refreshed(old(self).workspaces@, g, self.fuzzy_finder->0, true, r@));
                        r
                    } else {
                        Vec::new()
                    }
                },
                _ => Vec::new(),
            }
        }
    }

    /// A key while the terminal has focus. Ctrl+B goes back to the sidebar
    /// (leaving Focus Mode, and putting the Agents highlight on the focused
    /// session). Any other key is encoded and written to the focused
    /// session; a session waiting on the user is moved on by the key that
    /// answers it: Esc or Ctrl+C cancels (Idle), Enter confirms (Thinking).
    pub fn handle_terminal_key(&mut self, key: KeyEvent) -> (r: Vec<Effect>)
        ensures
            terminal_key_post(*old(self), *final(self), key, r@),
    {
        let mut effects: Vec<Effect> = Vec::new();
        if key.code == KeyCode::Char('b') && key.modifiers.control {
            self.focus = Focus::Sidebar;
            if self.focus_mode {
                self.focus_mode = false;
                effects.push(Effect::ResizeForLayout);
            }
            self.sync_agents_selection_to_focused();
            return effects;
        }
        match self.focused_session_id() {
            Some(session_id) => match key_to_bytes(&key) {
                Some(bytes) => {
                    effects.push(Effect::WriteToSession { session_id, bytes });
                    let cancel = key.code == KeyCode::Esc || (key.code == KeyCode::Char('c')
                        && key.modifiers.control);
                    proof {
                        lemma_session_index(self.sessions@, session_id);
                    }
                    match find_session(&self.sessions, session_id) {
                        Some(i) => {
                            if self.sessions[i].status == Some(RuntimeStatus::Waiting) {
                                let next = if cancel {
                                    Some(RuntimeStatus::Idle)
                                } else if key.code == KeyCode::Enter {
                                    Some(RuntimeStatus::Thinking)
                                } else {
                                    Some(RuntimeStatus::Waiting)
                                };
                                let ghost before = self.sessions@;
                                let mut entry = self.sessions.remove(i);
                                entry.status = next;
                                let ghost e = entry;
                                self.sessions.insert(i, entry);
                                assert(self.sessions@ =~= before.update(i as int, e));
                            }
                        },
                        None => {},
                    }
                },
                None => {},
            },
            None => {},
        }
        effects
    }

    /// A key on the Agents list: j/k or arrows move the highlight, `n`
    /// spawns a session, `x` asks to close the highlighted one, `r`/`R`
    /// opens the rename prompt for it, Enter shows it in the terminal.
    pub fn handle_agents_key(&mut self, key: KeyEvent) -> (r: Vec<Effect>)
        requires
            old(self).wf(),
        ensures
            agents_key_post(*old(self), *final(self), key, r@),
    {
        let mut effects: Vec<Effect> = Vec::new();
        let i = match self.active_index_exec() {
            Some(i) => i,
            None => {
                return effects;
            },
        };
        proof {
            lemma_ws_index(self.workspaces@, self.active_workspace->0);
        }
        let ghost before = self.workspaces@;
        let sel = self.workspaces[i].agents_selected;
        let count = self.workspaces[i].sessions.len();
        let id = self.workspaces[i].id;
        if key.code == KeyCode::Up || key.code == KeyCode::Char('k') {
            let mut entry = self.workspaces.remove(i);
            entry.agents_selected = if sel > 0 {
                sel - 1
            } else {
                0
            };
            let ghost e = entry;
            self.workspaces.insert(i, entry);
            assert(self.workspaces@ =~= before.update(i as int, e));
        } else if key.code == KeyCode::Down || key.code == KeyCode::Char('j') {
            if count > 0 && sel < count - 1 {
                let mut entry = self.workspaces.remove(i);
                entry.agents_selected = sel + 1;
                let ghost e = entry;
                self.workspaces.insert(i, entry);
                assert(self.workspaces@ =~= before.update(i as int, e));
            }
        } else if key.code == KeyCode::Char('n') {
            effects.push(Effect::SpawnSession { workspace_id: id });
        } else if key.code == KeyCode::Char('x') {
            if sel < count {
                effects.push(Effect::RequestCloseSession { session_id: self.workspaces[i].sessions[sel] });
            }
        } else if key.code == KeyCode::Char('r') || key.code == KeyCode::Char('R') {
            if sel < count {
                self.modal = Some(
                    Modal::RenameSession { session_id: self.workspaces[i].sessions[sel], input: String::new() },
                );
            }
        } else if key.code == KeyCode::Enter {
            if sel < count {
                let target = self.workspaces[i].sessions[sel];
                let mut entry = self.workspaces.remove(i);
                entry.focused_session = Some(target);
                let ghost e = entry;
                self.workspaces.insert(i, entry);
                assert(self.workspaces@ =~= before.update(i as int, e));
                self.focus = Focus::Terminal;
                effects.push(Effect::ResizeFocusedSession);
            }
        }
        proof {
            assert forall|a: int, b: int| 0 <= a < b < self.workspaces@.len() implies (#[trigger] self.workspaces@[a]).id
                != (#[trigger] self.workspaces@[b]).id by {
                assert(self.workspaces@[a].id == before[a].id);
                assert(self.workspaces@[b].id == before[b].id);
            }
        }
        effects
    }

    /// A key on the Explorer: Ctrl+F opens the fuzzy finder; j/k or arrows
    /// move the highlight over the flattened tree; Space expands or
    /// collapses the highlighted directory (asking for its listing the
    /// first time); Enter inserts the highlighted path, relative to the
    /// root, into the focused session's prompt; `a`/`A` prompt for a new
    /// file/folder where `dir_for_selection` says; `r` prompts to rename and
    /// `x`/Delete asks to delete the highlighted path.
    pub fn handle_explorer_key(&mut self, key: KeyEvent) -> (r: Vec<Effect>)
        requires
            old(self).wf(),
            old(self).indexes_ok(),
            old(self).finder_ok(),
        ensures
            explorer_key_post(*old(self), *final(self), key, r@),
    {
        if key.code == KeyCode::Char('f') && key.modifiers.control {
            return self.open_fuzzy_finder();
        }
        let mut effects: Vec<Effect> = Vec::new();
        let i = match self.active_index_exec() {
            Some(i) => i,
            None => {
                return effects;
            },
        };
        proof {
            lemma_ws_index(self.workspaces@, self.active_workspace->0);
        }
        let ghost before = self.workspaces@;
        let id = self.workspaces[i].id;
        let root = self.workspaces[i].root.clone();
        let rows = self.workspaces[i].explorer.flatten(&root);
        let ghost rv = rows_view(rows@);
        assert(rows@.len() == rv.len());
        let sel = self.workspaces[i].explorer.selected;
        let mut entry = self.workspaces.remove(i);
        if key.code == KeyCode::Up || key.code == KeyCode::Char('k') {
            entry.explorer.selected = if sel > 0 {
                sel - 1
            } else {
                0
            };
        } else if key.code == KeyCode::Down || key.code == KeyCode::Char('j') {
            if rows.len() > 0 && sel < rows.len() - 1 {
                entry.explorer.selected = sel + 1;
            }
        } else if key.code == KeyCode::Char(' ') {
            if sel < rows.len() && rows[sel].2 {
                let path = rows[sel].0.clone();
                assert(path@ == rv[sel as int].0);
                match expanded_position(&entry.explorer.expanded, &path) {
                    Some(k) => {
                        remove_all_equal(&mut entry.explorer.expanded, &path);
                    },
                    None => {
                        let listed = has_listing(&entry.explorer.dirs, &path);
                        entry.explorer.expanded.push(path.clone());
                        assert(entry.explorer.expanded@[entry.explorer.expanded@.len() - 1]@ == path@);
                        if !listed {
                            effects.push(Effect::ListDir { workspace_id: id, path });
                        }
                    },
                }
            }
        } else if key.code == KeyCode::Enter {
            if sel < rows.len() {
                let path = &rows[sel].0;
                let rel = match strip_path_prefix(path.as_str(), root.as_str()) {
                    Some(q) => q,
                    None => path.clone(),
                };
                let ghost relv = rel@;
                let mut targets: Vec<String> = Vec::new();
                targets.push(rel);
                assert(targets@.map_values(|p: String| p@) =~= seq![relv]);
                let ghost e0 = entry;
                self.workspaces.insert(i, entry);
                assert(self.workspaces@ =~= before);
                match self.insert_prompt_paths(id, &targets) {
                    Some(e) => effects.push(e),
                    None => {},
                }
                entry = self.workspaces.remove(i);
                assert(entry == e0);
            }
        } else if key.code == KeyCode::Char('a') || key.code == KeyCode::Char('A') {
            let dir = dir_for_selection(&rows, sel, &root);
            self.modal = Some(
                if key.code == KeyCode::Char('a') {
                    Modal::NewFile { workspace_id: id, dir, input: String::new() }
                } else {
                    Modal::NewDir { workspace_id: id, dir, input: String::new() }
                },
            );
        } else if key.code == KeyCode::Char('r') {
            if sel < rows.len() {
                self.modal = Some(Modal::RenamePath { workspace_id: id, from: rows[sel].0.clone(), input: String::new() });
            }
        } else if key.code == KeyCode::Char('x') || key.code == KeyCode::Delete {
            if sel < rows.len() {
                let path = rows[sel].0.clone();
                let parent = match parent_path(path.as_str()) {
                    Some(q) => q,
                    None => root.clone(),
                };
                self.modal = Some(Modal::ConfirmDeletePath { workspace_id: id, path, parent });
            }
        }
        let ghost e = entry;
        self.workspaces.insert(i, entry);
        assert(self.workspaces@ =~= before.update(i as int, e));
        proof {
            assert forall|a: int, b: int| 0 <= a < b < self.workspaces@.len() implies (#[trigger] self.workspaces@[a]).id
                != (#[trigger] self.workspaces@[b]).id by {
                assert(self.workspaces@[a].id == before[a].id);
                assert(self.workspaces@[b].id == before[b].id);
            }
            assert forall|k: int| 0 <= k < self.workspaces@.len() implies index_ok(
                (#[trigger] self.workspaces@[k]).file_index,
            ) && index_ok(self.workspaces@[k].file_index_all) by {
                assert(self.workspaces@[k].file_index == before[k].file_index);
                assert(self.workspaces@[k].file_index_all == before[k].file_index_all);
            }
        }
        effects
    }

    /// A key on the sidebar: Ctrl+C or `q` quits; `1`/`2` pick the Agents or
    /// Explorer tab and Tab flips between them; `[`/`]` switch workspace;
    /// `w` prompts for a new workspace and `W` asks to close the active one;
    /// Esc goes back to the focused session. Any other key goes to the
    /// active tab's own keymap.
    pub fn handle_sidebar_key(&mut self, key: KeyEvent) -> (r: Vec<Effect>)
        requires
            old(self).wf(),
            old(self).indexes_ok(),
            old(self).finder_ok(),
            old(self).workspaces@.len() <= i32::MAX,
        ensures
            sidebar_key_post(*old(self), *final(self), key, r@),
    {
        if key.code == KeyCode::Char('c') && key.modifiers.control {
            self.should_quit = true;
            proof {
                lemma_keep_invariants(*self, *old(self));
            }
            return Vec::new();
        }
        let mut effects: Vec<Effect> = Vec::new();
        let ghost mut delegated = false;
        match key.code {
            KeyCode::Char('q') => {
                self.should_quit = true;
            },
            KeyCode::Char('1') => {
                self.set_sidebar_tab(SidebarTab::Agents);
                proof {
                    if let Some(id) = old(self).active_workspace {
                        lemma_ws_index(old(self).workspaces@, id);
                    }
                }
            },
            KeyCode::Char('2') => {
                self.set_sidebar_tab(SidebarTab::Explorer);
                proof {
                    if let Some(id) = old(self).active_workspace {
                        lemma_ws_index(old(self).workspaces@, id);
                    }
                }
            },
            KeyCode::Tab => {
                self.cycle_sidebar_tab();
                proof {
                    if let Some(id) = old(self).active_workspace {
                        lemma_ws_index(old(self).workspaces@, id);
                    }
                }
            },
            KeyCode::Char('[') => {
                if self.workspaces.len() > 0 {
                    self.cycle_workspace(-1);
                    effects.push(Effect::ResizeFocusedSession);
                }
            },
            KeyCode::Char(']') => {
                if self.workspaces.len() > 0 {
                    self.cycle_workspace(1);
                    effects.push(Effect::ResizeFocusedSession);
                }
            },
            KeyCode::Char('w') => {
                self.modal = Some(Modal::NewWorkspacePath { input: String::new() });
            },
            KeyCode::Char('W') => {
                match self.active_workspace {
                    Some(id) => effects.push(Effect::RequestCloseWorkspace { workspace_id: id }),
                    None => {},
                }
            },
            _ => {
                if key.code == KeyCode::Esc && self.focused_session_id().is_some() {
                    self.focus = Focus::Terminal;
                } else {
                    match self.active_index_exec() {
                        Some(i) => {
                            proof {
                                lemma_ws_index(self.workspaces@, self.active_workspace->0);
                            }
                            assert(*self == *old(self));
                            effects = match self.workspaces[i].sidebar_tab {
                                SidebarTab::Agents => self.handle_agents_key(key),
                                SidebarTab::Explorer => self.handle_explorer_key(key),
                            };
                            assert(sidebar_delegates(*old(self), key));
                            proof {
                                delegated = true;
                            }
                        },
                        None => {},
                    }
                }
            },
        }
        proof {
            if !delegated {
                lemma_keep_invariants(*self, *old(self));
            }
        }
        effects
    }

    /// A key while a modal is open; see `modal_key`. A typed rename is also
    /// applied to the session right away.
    pub fn handle_modal_key(&mut self, key: KeyEvent) -> (r: Vec<Effect>)
        requires
            old(self).modal is Some,
            old(self).wf(),
            old(self).indexes_ok(),
            old(self).finder_ok(),
        ensures
            modal_key_post(*old(self), *final(self), key, r@),
    {
        let modal = self.modal.take().unwrap();
        let (next, effect) = modal_key(modal, key);
        let ghost e = effect;
        self.modal = next;
        let mut effects: Vec<Effect> = Vec::new();
        match effect {
            ModalEffect::Nothing => {},
            ModalEffect::SpawnWorkspace { directory } => effects.push(Effect::SpawnWorkspace { directory }),
            ModalEffect::RenameSession { session_id, name } => {
                self.rename_session(session_id, name.clone());
                effects.push(Effect::RenameSession { session_id, name });
            },
            ModalEffect::CreateFile { workspace_id, path, parent } => effects.push(
                Effect::CreateFile { workspace_id, path, parent },
            ),
            ModalEffect::CreateDir { workspace_id, path, parent } => effects.push(
                Effect::CreateDir { workspace_id, path, parent },
            ),
            ModalEffect::RenamePath { workspace_id, from, to, parent } => effects.push(
                Effect::RenamePath { workspace_id, from, to, parent },
            ),
            ModalEffect::ConfirmCloseSession { session_id } => effects.push(Effect::ConfirmCloseSession { session_id }),
            ModalEffect::ConfirmCloseWorkspace { workspace_id } => effects.push(
                Effect::ConfirmCloseWorkspace { workspace_id },
            ),
            ModalEffect::DeletePath { workspace_id, path, parent } => effects.push(
                Effect::DeletePath { workspace_id, path, parent },
            ),
        }
        proof {
            lemma_keep_invariants(*self, *old(self));
            assert(modal_key_spec(old(self).modal->0, key, self.modal, e));
            assert(effects@ =~= modal_effects(e));
        }
        effects
    }

    /// Where a key goes: F9 toggles mouse capture anywhere; an open modal,
    /// then an open finder, take every other key; F8 toggles Focus Mode;
    /// the rest goes to whichever of terminal and sidebar has focus.
    pub open spec fn key_route(&self, key: KeyEvent) -> KeyRoute {
        if key.code == KeyCode::F(9) {
            KeyRoute::MouseCapture
        } else if self.modal is Some {
            KeyRoute::Modal
        } else if self.fuzzy_finder is Some {
            KeyRoute::Finder
        } else if key.code == KeyCode::F(8) {
            KeyRoute::FocusMode
        } else if self.focus == Focus::Terminal {
            KeyRoute::Terminal
        } else {
            KeyRoute::Sidebar
        }
    }

    /// Handles one key press; `preview_min`/`preview_max` are the finder
    /// preview's scroll limits from the last frame.
    pub fn on_key(&mut self, key: KeyEvent, preview_min: i32, preview_max: i32) -> (r: Vec<Effect>)
        requires
            old(self).wf(),
            old(self).indexes_ok(),
            old(self).finder_ok(),
            old(self).workspaces@.len() <= i32::MAX,
            preview_min <= preview_max,
        ensures
            final(self).wf(),
            final(self).indexes_ok(),
            final(self).finder_ok(),
            old(self).key_route(key) == KeyRoute::MouseCapture ==> {
                &&& final(self).mouse_capture_enabled == !old(self).mouse_capture_enabled
                &&& r@ == seq![
                    Effect::Status(
                        if final(self).mouse_capture_enabled {
                            StatusMessage::MouseCaptureOn
                        } else {
                            StatusMessage::MouseCaptureOff
                        },
                    ),
                ]
                &&& *final(self) == (AppModel { mouse_capture_enabled: !old(self).mouse_capture_enabled, ..*old(self) })
            },
            old(self).key_route(key) == KeyRoute::Modal ==> modal_key_post(*old(self), *final(self), key, r@),
            old(self).key_route(key) == KeyRoute::Finder ==> finder_key_post(
                *old(self),
                *final(self),
                key,
                preview_min,
                preview_max,
                r@,
            ),
            old(self).key_route(key) == KeyRoute::Terminal ==> terminal_key_post(*old(self), *final(self), key, r@),
            old(self).key_route(key) == KeyRoute::Terminal ==> match old(self).focused_session_spec() {
                Some(sid) => {
                    &&& key.code == KeyCode::Esc ==> r@.len() == 1 && (r@[0] matches Effect::WriteToSession {
                        session_id,
                        bytes,
                    } && session_id == sid && bytes@ == seq![0x1bu8])
                    &&& match session_index(old(self).sessions@, sid) {
                        Some(i) => old(self).sessions@[i].status == Some(RuntimeStatus::Waiting) ==> {
                            &&& (key.code == KeyCode::Esc || ctrl_char(key, 'c')) ==> final(self).sessions@[i].status
                                == Some(RuntimeStatus::Idle)
                            &&& key.code == KeyCode::Enter ==> final(self).sessions@[i].status == Some(
                                RuntimeStatus::Thinking,
                            )
                            &&& (key.code == KeyCode::Up || key.code == KeyCode::Down || key.code == KeyCode::Tab)
                                ==> final(self).sessions@[i].status == Some(RuntimeStatus::Waiting)
                        },
                        None => true,
                    }
                },
                None => r@.len() == 0 || ctrl_char(key, 'b'),
            },
            old(self).key_route(key) == KeyRoute::Sidebar ==> sidebar_key_post(*old(self), *final(self), key, r@),
            old(self).key_route(key) == KeyRoute::FocusMode ==> {
                &&& *final(self) == (AppModel {
                    focus_mode: !old(self).focus_mode,
                    focus: final(self).focus,
                    ..*old(self)
                })
                &&& final(self).focus_mode == !old(self).focus_mode
                &&& final(self).focus == (if final(self).focus_mode && old(self).focused_session_spec() is Some {
                    Focus::Terminal
                } else {
                    old(self).focus
                })
                &&& r@ == seq![Effect::ResizeForLayout]
            },
            old(self).key_route(key) == KeyRoute::Terminal || old(self).key_route(key) == KeyRoute::Sidebar ==> final(self).modal is Some || final(self).modal == old(self).modal,
            old(self).modal is None || old(self).fuzzy_finder is None ==> final(self).modal is None
                || final(self).fuzzy_finder is None,
    {
        if key.code == KeyCode::F(9) {
            self.mouse_capture_enabled = !self.mouse_capture_enabled;
            let mut effects: Vec<Effect> = Vec::new();
            effects.push(
                Effect::Status(
                    if self.mouse_capture_enabled {
                        StatusMessage::MouseCaptureOn
                    } else {
                        StatusMessage::MouseCaptureOff
                    },
                ),
            );
            return effects;
        }
        if self.modal.is_some() {
            return self.handle_modal_key(key);
        }
        if self.fuzzy_finder.is_some() {
            return self.handle_finder_key(key, preview_min, preview_max);
        }
        if key.code == KeyCode::F(8) {
            self.focus_mode = !self.focus_mode;
            if self.focus_mode {
                self.focus_terminal();
            }
            let mut effects: Vec<Effect> = Vec::new();
            effects.push(Effect::ResizeForLayout);
            return effects;
        }
        match self.focus {
            Focus::Terminal => self.handle_terminal_key(key),
            Focus::Sidebar => self.handle_sidebar_key(key),
        }
    }

    /// A bracketed paste: into the open modal's field, else into the
    /// finder's query (re-running the search), else, with the terminal
    /// focused, to the focused session as one paste.
    pub fn on_paste(&mut self, text: &str) -> (r: Vec<Effect>)
        requires
            old(self).indexes_ok(),
            old(self).finder_ok(),
        ensures
            final(self).finder_ok(),
            final(self).workspaces@ == old(self).workspaces@,
            final(self).sessions@ == old(self).sessions@,
            final(self).focus == old(self).focus,
            old(self).modal is Some ==> r@.len() == 0 && final(self).modal is Some && final(self).fuzzy_finder
                == old(self).fuzzy_finder,
            old(self).modal is None && old(self).fuzzy_finder is Some ==> final(self).fuzzy_finder is Some && exists|
                g: FuzzyFinderState,
            |
                #[trigger] refreshed(old(self).workspaces@, g, final(self).fuzzy_finder->0, true, r@) && g == (
                FuzzyFinderState { query: g.query, ..old(self).fuzzy_finder->0 }) && g.query@ == old(
                self,
            ).fuzzy_finder->0.query@ + text@.filter(|c: char| crate::text_input::not_line_break(c)),
            old(self).modal is None && old(self).fuzzy_finder is None ==> if old(self).focus == Focus::Terminal
                && old(self).focused_session_spec() is Some {
                r@.len() == 1 && (r@[0] matches Effect::WriteToSession { session_id, bytes } && Some(session_id)
                    == old(self).focused_session_spec() && bytes@ == crate::reports::paste_open()
                    + vstd::utf8::encode_utf8(text@) + crate::reports::paste_close())
            } else {
                r@.len() == 0
            },
    {
        if self.modal.is_some() {
            let mut m = self.modal.take().unwrap();
            m.paste(text);
            self.modal = Some(m);
            return Vec::new();
        }
        if self.fuzzy_finder.is_some() {
            let mut f = self.fuzzy_finder.take().unwrap();
            crate::text_input::apply_paste(&mut f.query, text);
            let ghost g = f;
            self.fuzzy_finder = Some(f);
            let r = self.refresh_finder_results(true);
            assert(refreshed(old(self).workspaces@, g, self.fuzzy_finder->0, true, r@));
            return r;
        }
        let mut effects: Vec<Effect> = Vec::new();
        if self.focus == Focus::Terminal {
            match self.focused_session_id() {
                Some(session_id) => effects.push(Effect::WriteToSession { session_id, bytes: bracketed_paste(text) }),
                None => {},
            }
        }
        effects
    }
}

/// Which handler a key goes to.
#[derive(Debug, Clone, Copy, PartialEq, Eq, Structural)]
pub enum KeyRoute {
    MouseCapture,
    Modal,
    Finder,
    FocusMode,
    Terminal,
    Sidebar,
}

} // verus!
