use vstd::prelude::*;

use crate::app_model::{
    find_workspace, lemma_ws_index, session_ids_same, ws_index, ws_shape_same, AppModel, Effect, Focus,
};
use crate::explorer::{listing, FileEntry};
use crate::desktop::CloseDecision;
use crate::fuzzy_finder::{FinderMatch, FinderMode, FuzzyFinderState, HighlightedLines};
use crate::modal::Modal;
use crate::keys::{index_ok, lemma_keep_invariants, preview_requested};

verus! {

proof fn lemma_listing_none(s: Seq<(String, Vec<FileEntry>)>, dir: Seq<char>)
    requires
        forall|k: int| 0 <= k < s.len() ==> (#[trigger] s[k]).0@ != dir,
    ensures
        listing(s, dir) is None,
    decreases s.len(),
{
    if s.len() > 0 {
        assert(forall|k: int| 0 <= k < s.len() - 1 ==> s.drop_last()[k] == s[k]);
        lemma_listing_none(s.drop_last(), dir);
    }
}

proof fn lemma_listing_push(s: Seq<(String, Vec<FileEntry>)>, e: (String, Vec<FileEntry>))
    requires
        listing(s, e.0@) is None,
    ensures
        listing(s.push(e), e.0@) == Some(e.1@),
        forall|d: Seq<char>| d != e.0@ ==> #[trigger] listing(s.push(e), d) == listing(s, d),
{
    assert(s.push(e).drop_last() == s);
    assert forall|d: Seq<char>| d != e.0@ implies #[trigger] listing(s.push(e), d) == listing(s, d) by {
        assert(s.push(e).drop_last() == s);
    }
}

proof fn lemma_listing_update(s: Seq<(String, Vec<FileEntry>)>, i: int, e: (String, Vec<FileEntry>))
    requires
        0 <= i < s.len(),
        s[i].0@ == e.0@,
        forall|k: int| 0 <= k < i ==> (#[trigger] s[k]).0@ != e.0@,
    ensures
        listing(s.update(i, e), e.0@) == Some(e.1@),
        forall|d: Seq<char>| d != e.0@ ==> #[trigger] listing(s.update(i, e), d) == listing(s, d),
    decreases s.len(),
{
    let u = s.update(i, e);
    if i == s.len() - 1 {
        assert(u.drop_last() == s.drop_last());
        assert(forall|k: int| 0 <= k < s.len() - 1 ==> s.drop_last()[k] == s[k]);
        lemma_listing_none(s.drop_last(), e.0@);
        assert forall|d: Seq<char>| d != e.0@ implies #[trigger] listing(u, d) == listing(s, d) by {
            assert(u.drop_last() == s.drop_last());
        }
    } else {
        assert(u.drop_last() == s.drop_last().update(i, e));
        assert(forall|k: int| 0 <= k < s.len() - 1 ==> s.drop_last()[k] == s[k]);
        lemma_listing_update(s.drop_last(), i, e);
        assert(u.last() == s.last());
        assert forall|d: Seq<char>| d != e.0@ implies #[trigger] listing(u, d) == listing(s, d) by {
            assert(listing(u.drop_last(), d) == listing(s.drop_last(), d));
        }
    }
}

/// Sets the listing of `dir` to `entries`, replacing an earlier one.
pub fn put_listing(dirs: &mut Vec<(String, Vec<FileEntry>)>, dir: String, entries: Vec<FileEntry>)
    ensures
        listing(final(dirs)@, dir@) == Some(entries@),
        forall|d: Seq<char>| d != dir@ ==> #[trigger] listing(final(dirs)@, d) == listing(old(dirs)@, d),
{
    let mut i: usize = 0;
    while i < dirs.len()
        invariant
            i <= dirs@.len(),
            dirs@ == old(dirs)@,
            forall|k: int| 0 <= k < i ==> (#[trigger] dirs@[k]).0@ != dir@,
        decreases dirs@.len() - i,
    {
        if dirs[i].0 == dir {
            let ghost before = dirs@;
            let ghost e = (dir, entries);
            dirs.remove(i);
            dirs.insert(i, (dir, entries));
            assert(dirs@ =~= before.update(i as int, e));
            proof {
                lemma_listing_update(before, i as int, e);
                assert forall|d: Seq<char>| d != dir@ implies #[trigger] listing(dirs@, d) == listing(before, d) by {
                    assert(listing(before.update(i as int, e), d) == listing(before, d));
                }
            }
            return;
        }
        i = i + 1;
    }
    let ghost before = dirs@;
    proof {
        lemma_listing_none(before, dir@);
    }
    let ghost e = (dir, entries);
    dirs.push((dir, entries));
    proof {
        lemma_listing_push(before, e);
        assert forall|d: Seq<char>| d != dir@ implies #[trigger] listing(dirs@, d) == listing(before, d) by {
            assert(listing(before.push(e), d) == listing(before, d));
        }
    }
}

impl AppModel {
    /// A directory listing arrived for a workspace: it replaces any earlier
    /// listing of that directory.
    pub fn on_dir_loaded(&mut self, workspace_id: u128, dir: String, entries: Vec<FileEntry>)
        requires
            old(self).wf(),
            old(self).indexes_ok(),
            old(self).finder_ok(),
        ensures
            final(self).wf(),
            final(self).indexes_ok(),
            final(self).finder_ok(),
            final(self).flags_same(old(self)),
            final(self).sessions@ == old(self).sessions@,
            final(self).active_workspace == old(self).active_workspace,
            final(self).focus == old(self).focus,
            ws_shape_same(final(self).workspaces@, old(self).workspaces@),
            match ws_index(old(self).workspaces@, workspace_id) {
                Some(i) => {
                    let n = final(self).workspaces@[i];
                    let w = old(self).workspaces@[i];
                    &&& listing(n.explorer.dirs@, dir@) == Some(entries@)
                    &&& forall|d: Seq<char>| d != dir@ ==> listing(n.explorer.dirs@, d) == listing(
                        w.explorer.dirs@,
                        d,
                    )
                    &&& n.explorer.expanded@ == w.explorer.expanded@
                    &&& n.explorer.selected == w.explorer.selected
                    &&& forall|k: int| 0 <= k < old(self).workspaces@.len() && k != i ==> final(self).workspaces@[k]
                        == old(self).workspaces@[k]
                },
                None => final(self).workspaces@ == old(self).workspaces@,
            },
    {
        proof {
            lemma_ws_index(self.workspaces@, workspace_id);
        }
        match find_workspace(&self.workspaces, workspace_id) {
            Some(i) => {
                let ghost before = self.workspaces@;
                let mut entry = self.workspaces.remove(i);
                put_listing(&mut entry.explorer.dirs, dir, entries);
                let ghost e = entry;
                self.workspaces.insert(i, entry);
                assert(self.workspaces@ =~= before.update(i as int, e));
            },
            None => {},
        }
        proof {
            lemma_keep_invariants(*self, *old(self));
        }
    }

    /// What a change on disk under a workspace asks for: every directory
    /// listed so far is listed again, the file index is walked again (and
    /// the one with ignored files too when it was ever built), and the git
    /// status and branch are refreshed.
    pub fn fs_changed_effects(&self, workspace_id: u128) -> (r: Vec<Effect>)
        ensures
            match ws_index(self.workspaces@, workspace_id) {
                None => r@.len() == 0,
                Some(i) => {
                    let w = self.workspaces@[i];
                    let n = w.explorer.dirs@.len() as int;
                    let extra: int = if w.file_index_all is Some {
                        1
                    } else {
                        0
                    };
                    &&& r@.len() == n + 3 + extra
                    &&& forall|k: int|
                        0 <= k < n ==> ((#[trigger] r@[k]) matches Effect::ListDir { workspace_id: ws, path }
                            && ws == workspace_id && path@ == w.explorer.dirs@[k].0@)
                    &&& r@[n] matches Effect::IndexFiles { workspace_id: ws, root, all } && ws == workspace_id
                        && root@ == w.root@ && !all
                    &&& extra == 1 ==> (r@[n + 1] matches Effect::IndexFiles { workspace_id: ws, root, all } && ws
                        == workspace_id && root@ == w.root@ && all)
                    &&& r@[n + 1 + extra] matches Effect::RefreshGitStatus { workspace_id: ws, root } && ws
                        == workspace_id && root@ == w.root@
                    &&& r@[n + 2 + extra] matches Effect::RefreshGitBranch { workspace_id: ws, root } && ws
                        == workspace_id && root@ == w.root@
                },
            },
    {
        let mut effects: Vec<Effect> = Vec::new();
        proof {
            lemma_ws_index(self.workspaces@, workspace_id);
        }
        let i = match find_workspace(&self.workspaces, workspace_id) {
            Some(i) => i,
            None => {
                return effects;
            },
        };
        let w = &self.workspaces[i];
        let mut k: usize = 0;
        while k < w.explorer.dirs.len()
            invariant
                k <= w.explorer.dirs@.len(),
                effects@.len() == k,
                forall|j: int|
                    0 <= j < k ==> ((#[trigger] effects@[j]) matches Effect::ListDir { workspace_id: ws, path } && ws
                        == workspace_id && path@ == w.explorer.dirs@[j].0@),
            decreases w.explorer.dirs@.len() - k,
        {
            effects.push(Effect::ListDir { workspace_id, path: w.explorer.dirs[k].0.clone() });
            k = k + 1;
        }
        effects.push(Effect::IndexFiles { workspace_id, root: w.root.clone(), all: false });
        if w.file_index_all.is_some() {
            effects.push(Effect::IndexFiles { workspace_id, root: w.root.clone(), all: true });
        }
        effects.push(Effect::RefreshGitStatus { workspace_id, root: w.root.clone() });
        effects.push(Effect::RefreshGitBranch { workspace_id, root: w.root.clone() });
        effects
    }

    /// A file index was walked: it is stored (the one with ignored files
    /// when `all`), and an open Files-mode finder searching exactly that
    /// index re-runs its search, keeping its highlight.
    pub fn on_finder_indexed(&mut self, workspace_id: u128, all: bool, files: Vec<String>) -> (r: Vec<Effect>)
        requires
            old(self).wf(),
            old(self).indexes_ok(),
            old(self).finder_ok(),
            forall|j: int| 0 <= j < files@.len() ==> (#[trigger] files@[j])@.len() <= u32::MAX,
        ensures
            final(self).wf(),
            final(self).indexes_ok(),
            final(self).finder_ok(),
            final(self).sessions@ == old(self).sessions@,
            final(self).modal == old(self).modal,
            final(self).focus == old(self).focus,
            final(self).workspaces@.len() == old(self).workspaces@.len(),
            match ws_index(old(self).workspaces@, workspace_id) {
                Some(i) => {
                    let n = final(self).workspaces@[i];
                    &&& (if all {
                        n.file_index_all
                    } else {
                        n.file_index
                    }) == Some(files)
                },
                None => final(self).workspaces@ == old(self).workspaces@,
            },
            ({
                let refresh = match old(self).fuzzy_finder {
                    Some(f) => f.workspace_id == workspace_id && f.mode == FinderMode::Files && f.show_ignored == all,
                    None => false,
                };
                !refresh ==> final(self).fuzzy_finder == old(self).fuzzy_finder && r@.len() == 0
            }),
    {
        proof {
            lemma_ws_index(self.workspaces@, workspace_id);
        }
        match find_workspace(&self.workspaces, workspace_id) {
            Some(i) => {
                let ghost before = self.workspaces@;
                let mut entry = self.workspaces.remove(i);
                if all {
                    entry.file_index_all = Some(files);
                } else {
                    entry.file_index = Some(files);
                }
                let ghost e = entry;
                self.workspaces.insert(i, entry);
                assert(self.workspaces@ =~= before.update(i as int, e));
                proof {
                    assert forall|a: int, b: int| 0 <= a < b < self.workspaces@.len() implies (#[trigger] self.workspaces@[a]).id
                        != (#[trigger] self.workspaces@[b]).id by {
                        assert(self.workspaces@[a].id == before[a].id);
                        assert(self.workspaces@[b].id == before[b].id);
                    }
                    assert forall|k: int| 0 <= k < self.workspaces@.len() implies index_ok(
                        (#[trigger] self.workspaces@[k]).file_index,
                    ) && index_ok(self.workspaces@[k].file_index_all) by {
                        if k != i {
                            assert(self.workspaces@[k] == before[k]);
                        }
                    }
                }
            },
            None => {},
        }
        let refresh = match &self.fuzzy_finder {
            Some(f) => f.workspace_id == workspace_id && f.mode == FinderMode::Files && f.show_ignored == all,
            None => false,
        };
        if refresh {
            self.refresh_finder_results(false)
        } else {
            Vec::new()
        }
    }

    /// A content search finished: when it belongs to the open finder's
    /// workspace and latest search, its matches become the results with
    /// the top one highlighted, and a preview is requested. Stale results
    /// are dropped.
    pub fn on_finder_search_result(&mut self, workspace_id: u128, generation: u64, matches: Vec<FinderMatch>) -> (r:
        Vec<Effect>)
        requires
            old(self).finder_ok(),
            matches@.len() <= i32::MAX,
        ensures
            final(self).finder_ok(),
            final(self).workspaces@ == old(self).workspaces@,
            final(self).sessions@ == old(self).sessions@,
            final(self).modal == old(self).modal,
            final(self).focus == old(self).focus,
            ({
                let current = match old(self).fuzzy_finder {
                    Some(f) => f.workspace_id == workspace_id && f.search_gen == generation,
                    None => false,
                };
                &&& !current ==> final(self).fuzzy_finder == old(self).fuzzy_finder && r@.len() == 0
                &&& current ==> final(self).fuzzy_finder is Some && preview_requested(
                    FuzzyFinderState { results: matches, selected: 0, ..old(self).fuzzy_finder->0 },
                    final(self).fuzzy_finder->0,
                    r@,
                )
            }),
            *final(self) == (AppModel { fuzzy_finder: final(self).fuzzy_finder, ..*old(self) }),
    {
        let current = match &self.fuzzy_finder {
            Some(f) => f.workspace_id == workspace_id && f.search_gen == generation,
            None => false,
        };
        if !current {
            return Vec::new();
        }
        let mut f = self.fuzzy_finder.take().unwrap();
        f.results = matches;
        f.selected = 0;
        self.fuzzy_finder = Some(f);
        self.request_finder_preview()
    }

    /// A preview load finished: for the latest request it becomes the
    /// preview (the highlighted lines too, when there are some); a failed
    /// load shows `error_text`. Stale loads are dropped.
    pub fn on_finder_preview_loaded(
        &mut self,
        generation: u64,
        path: String,
        result: Result<(String, Option<HighlightedLines>), String>,
    )
        ensures
            final(self).workspaces@ == old(self).workspaces@,
            final(self).sessions@ == old(self).sessions@,
            final(self).modal == old(self).modal,
            final(self).focus == old(self).focus,
            ({
                let current = match old(self).fuzzy_finder {
                    Some(f) => f.preview_gen == generation,
                    None => false,
                };
                &&& !current ==> final(self).fuzzy_finder == old(self).fuzzy_finder
                &&& current ==> {
                    let f = old(self).fuzzy_finder->0;
                    let n = final(self).fuzzy_finder->0;
                    &&& final(self).fuzzy_finder is Some
                    &&& n.preview_path == Some(path)
                    &&& match result {
                        Ok((text, hl)) => n.preview == Some(text) && n.preview_highlighted == hl,
                        Err(e) => n.preview == Some(e) && n.preview_highlighted is None,
                    }
                    &&& n.results@ == f.results@
                    &&& n.selected == f.selected
                    &&& n.marked@ == f.marked@
                }
            }),
    {
        let current = match &self.fuzzy_finder {
            Some(f) => f.preview_gen == generation,
            None => false,
        };
        if !current {
            return;
        }
        let mut f = self.fuzzy_finder.take().unwrap();
        match result {
            Ok((text, hl)) => {
                f.preview_highlighted = hl;
                f.preview = Some(text);
            },
            Err(e) => {
                f.preview_highlighted = None;
                f.preview = Some(e);
            },
        }
        f.preview_path = Some(path);
        self.fuzzy_finder = Some(f);
    }

    /// A workspace came up with its first session: it becomes the active
    /// tab with the terminal focused, and its watcher, root listing, file
    /// index, git status and branch are asked for before the terminal is
    /// sized.
    pub fn on_workspace_spawned(&mut self, workspace_id: u128, root: String, session_id: u128, session_name: String) -> (r:
        Vec<Effect>)
        requires
            old(self).wf(),
            ws_index(old(self).workspaces@, workspace_id) is None,
        ensures
            final(self).wf(),
            final(self).active_workspace == Some(workspace_id),
            final(self).focus == Focus::Terminal,
            final(self).workspaces@.len() == old(self).workspaces@.len() + 1,
            r@.len() == 6,
            r@[0] matches Effect::WatchWorkspace { workspace_id: w, root: p } && w == workspace_id && p@ == root@,
            r@[1] matches Effect::ListDir { workspace_id: w, path } && w == workspace_id && path@ == root@,
            r@[2] matches Effect::IndexFiles { workspace_id: w, root: p, all } && w == workspace_id && p@ == root@
                && !all,
            r@[3] matches Effect::RefreshGitStatus { workspace_id: w, root: p } && w == workspace_id && p@ == root@,
            r@[4] matches Effect::RefreshGitBranch { workspace_id: w, root: p } && w == workspace_id && p@ == root@,
            r@[5] is ResizeFocusedSession,
    {
        let mut effects: Vec<Effect> = Vec::new();
        effects.push(Effect::WatchWorkspace { workspace_id, root: root.clone() });
        effects.push(Effect::ListDir { workspace_id, path: root.clone() });
        effects.push(Effect::IndexFiles { workspace_id, root: root.clone(), all: false });
        effects.push(Effect::RefreshGitStatus { workspace_id, root: root.clone() });
        effects.push(Effect::RefreshGitBranch { workspace_id, root: root.clone() });
        effects.push(Effect::ResizeFocusedSession);
        self.add_workspace(workspace_id, root, session_id, session_name);
        effects
    }

    /// A session spawned in a workspace; the terminal is resized when that
    /// is the active workspace.
    pub fn on_session_spawned(&mut self, workspace_id: u128, session_id: u128, name: String) -> (r: Vec<Effect>)
        requires
            old(self).wf(),
        ensures
            final(self).wf(),
            final(self).active_workspace == old(self).active_workspace,
            old(self).active_workspace == Some(workspace_id) ==> r@ == seq![Effect::ResizeFocusedSession],
            old(self).active_workspace != Some(workspace_id) ==> r@.len() == 0,
    {
        let mut effects: Vec<Effect> = Vec::new();
        if self.add_session(workspace_id, session_id, name) {
            effects.push(Effect::ResizeFocusedSession);
        }
        effects
    }

    /// The answer to a request to close a session: ask for confirmation, or
    /// forget a session that is already gone.
    pub fn on_close_session_decision(&mut self, session_id: u128, decision: CloseDecision) -> (r: Vec<Effect>)
        requires
            old(self).wf(),
        ensures
            final(self).wf(),
            decision == CloseDecision::RequiresConfirmation ==> final(self).modal == Some(
                Modal::ConfirmCloseSession { session_id },
            ) && r@.len() == 0 && final(self).sessions@ == old(self).sessions@,
            decision == CloseDecision::AlreadyClosed ==> final(self).modal == old(self).modal && r@ == seq![
                Effect::ResizeFocusedSession,
            ] && forall|k: int| 0 <= k < final(self).sessions@.len() ==> (#[trigger] final(self).sessions@[k]).id
                != session_id,
    {
        let mut effects: Vec<Effect> = Vec::new();
        match decision {
            CloseDecision::RequiresConfirmation => {
                self.modal = Some(Modal::ConfirmCloseSession { session_id });
            },
            CloseDecision::AlreadyClosed => {
                self.on_session_gone(session_id);
                effects.push(Effect::ResizeFocusedSession);
            },
        }
        effects
    }

    /// A confirmed session close went through (whatever the outcome, the
    /// session is forgotten).
    pub fn on_session_closed(&mut self, session_id: u128) -> (r: Vec<Effect>)
        requires
            old(self).wf(),
        ensures
            final(self).wf(),
            r@ == seq![Effect::ResizeFocusedSession],
            forall|k: int| 0 <= k < final(self).sessions@.len() ==> (#[trigger] final(self).sessions@[k]).id
                != session_id,
    {
        self.on_session_gone(session_id);
        let mut effects: Vec<Effect> = Vec::new();
        effects.push(Effect::ResizeFocusedSession);
        effects
    }

    /// The answer to a request to close a workspace: ask for confirmation,
    /// or drop a workspace that is already gone.
    pub fn on_close_workspace_decision(&mut self, workspace_id: u128, decision: CloseDecision) -> (r: Vec<Effect>)
        requires
            old(self).wf(),
        ensures
            final(self).wf(),
            decision == CloseDecision::RequiresConfirmation ==> final(self).modal == Some(
                Modal::ConfirmCloseWorkspace { workspace_id },
            ) && r@.len() == 0 && final(self).workspaces@ == old(self).workspaces@,
            decision == CloseDecision::AlreadyClosed ==> ws_index(final(self).workspaces@, workspace_id) is None
                && r@.len() == (if old(self).active_workspace == Some(workspace_id) {
                1int
            } else {
                0int
            }),
    {
        let mut effects: Vec<Effect> = Vec::new();
        match decision {
            CloseDecision::RequiresConfirmation => {
                self.modal = Some(Modal::ConfirmCloseWorkspace { workspace_id });
            },
            CloseDecision::AlreadyClosed => {
                proof {
                    lemma_ws_index(self.workspaces@, workspace_id);
                }
                if self.remove_workspace(workspace_id) {
                    effects.push(Effect::ResizeFocusedSession);
                }
                proof {
                    lemma_removed_absent(*old(self), *self, workspace_id);
                }
            },
        }
        effects
    }

    /// A confirmed workspace close went through: its watcher stops and it is
    /// dropped with its sessions.
    pub fn on_workspace_closed(&mut self, workspace_id: u128) -> (r: Vec<Effect>)
        requires
            old(self).wf(),
        ensures
            final(self).wf(),
            ws_index(final(self).workspaces@, workspace_id) is None,
            r@.len() >= 1,
            r@[0] == (Effect::UnwatchWorkspace { workspace_id }),
    {
        let mut effects: Vec<Effect> = Vec::new();
        effects.push(Effect::UnwatchWorkspace { workspace_id });
        proof {
            lemma_ws_index(self.workspaces@, workspace_id);
        }
        if self.remove_workspace(workspace_id) {
            effects.push(Effect::ResizeFocusedSession);
        }
        proof {
            lemma_removed_absent(*old(self), *self, workspace_id);
        }
        effects
    }
}

/// After `remove_workspace` on a model with distinct ids, the id is gone.
proof fn lemma_removed_absent(before: AppModel, after: AppModel, id: u128)
    requires
        before.wf(),
        match ws_index(before.workspaces@, id) {
            Some(i) => after.workspaces@ == before.workspaces@.remove(i),
            None => after.workspaces@ == before.workspaces@,
        },
    ensures
        ws_index(after.workspaces@, id) is None,
{
    lemma_ws_index(before.workspaces@, id);
    lemma_ws_index(after.workspaces@, id);
    match ws_index(before.workspaces@, id) {
        Some(i) => {
            if let Some(j) = ws_index(after.workspaces@, id) {
                let j0 = if j < i { j } else { j + 1 };
                assert(after.workspaces@[j] == before.workspaces@[j0]);
                assert(before.workspaces@[i].id == id);
            }
        },
        None => {},
    }
}

} // verus!
