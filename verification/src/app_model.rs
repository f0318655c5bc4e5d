use vstd::prelude::*;

use crate::explorer::ExplorerModel;
use crate::fuzzy_finder::{marked_unique, FuzzyFinderState};
use crate::modal::Modal;

verus! {

#[derive(Debug, Clone, Copy, PartialEq, Eq, Structural)]
pub enum SidebarTab {
    Agents,
    Explorer,
}

#[derive(Debug, Clone, Copy, PartialEq, Eq, Structural)]
pub enum Focus {
    Sidebar,
    Terminal,
}

#[derive(Debug, Clone, Copy, PartialEq, Eq, Structural)]
pub enum RuntimeStatus {
    Thinking,
    Idle,
    /// Blocked on the user: a permission prompt or a proposed-response
    /// picker.
    Waiting,
}

/// Which agent hook fired for a session.
#[derive(Debug, Clone, Copy, PartialEq, Eq, Structural)]
pub enum HookEventKind {
    PromptSubmitted,
    Stopped,
    Notification,
}

/// A message for the status line.
#[derive(Debug, Clone, Copy, PartialEq, Eq, Structural)]
pub enum StatusMessage {
    MouseCaptureOn,
    MouseCaptureOff,
}

/// Outside work a decision asks for: writes to a session's terminal,
/// resizes, and background tasks to start.
pub enum Effect {
    WriteToSession { session_id: u128, bytes: Vec<u8> },
    /// Resize the focused session's terminal to the current pane size.
    ResizeFocusedSession,
    /// Recompute the layout (Focus Mode or the sidebar width changed) and
    /// resize the focused session to it.
    ResizeForLayout,
    SpawnSession { workspace_id: u128 },
    SpawnWorkspace { directory: String },
    RenameSession { session_id: u128, name: String },
    CreateFile { workspace_id: u128, path: String, parent: String },
    CreateDir { workspace_id: u128, path: String, parent: String },
    RenamePath { workspace_id: u128, from: String, to: String, parent: String },
    DeletePath { workspace_id: u128, path: String, parent: String },
    RequestCloseSession { session_id: u128 },
    RequestCloseWorkspace { workspace_id: u128 },
    ConfirmCloseSession { session_id: u128 },
    ConfirmCloseWorkspace { workspace_id: u128 },
    ListDir { workspace_id: u128, path: String },
    IndexFiles { workspace_id: u128, root: String, all: bool },
    FinderGrep { workspace_id: u128, root: String, query: String, show_ignored: bool, generation: u64 },
    FinderPreview { path: String, generation: u64 },
    DismissNotification { id: u64 },
    WatchWorkspace { workspace_id: u128, root: String },
    UnwatchWorkspace { workspace_id: u128 },
    RefreshGitStatus { workspace_id: u128, root: String },
    RefreshGitBranch { workspace_id: u128, root: String },
    Status(StatusMessage),
}

/// The status a hook event puts its session in.
pub open spec fn hook_status_spec(kind: HookEventKind) -> RuntimeStatus {
    match kind {
        HookEventKind::PromptSubmitted => RuntimeStatus::Thinking,
        HookEventKind::Stopped => RuntimeStatus::Idle,
        HookEventKind::Notification => RuntimeStatus::Waiting,
    }
}

pub fn hook_status(kind: HookEventKind) -> (r: RuntimeStatus)
    ensures
        r == hook_status_spec(kind),
        kind == HookEventKind::PromptSubmitted ==> r == RuntimeStatus::Thinking,
        kind == HookEventKind::Stopped ==> r == RuntimeStatus::Idle,
        kind == HookEventKind::Notification ==> r == RuntimeStatus::Waiting,
{
    match kind {
        HookEventKind::PromptSubmitted => RuntimeStatus::Thinking,
        HookEventKind::Stopped => RuntimeStatus::Idle,
        HookEventKind::Notification => RuntimeStatus::Waiting,
    }
}

/// What the app knows of one agent session.
pub struct SessionModel {
    pub id: u128,
    pub name: String,
    pub status: Option<RuntimeStatus>,
    /// The session finished while it was not the displayed one.
    pub unread: bool,
}

/// What the app knows of one workspace tab.
pub struct WorkspaceModel {
    pub id: u128,
    /// The workspace's root directory.
    pub root: String,
    /// Its sessions, in creation order.
    pub sessions: Vec<u128>,
    pub focused_session: Option<u128>,
    pub sidebar_tab: SidebarTab,
    pub agents_selected: usize,
    pub explorer: ExplorerModel,
    /// Files-mode index of the fuzzy finder (ignored files left out), once
    /// walked.
    pub file_index: Option<Vec<String>>,
    /// The same with ignored files included, built on first demand.
    pub file_index_all: Option<Vec<String>>,
}

impl WorkspaceModel {
    pub fn new(id: u128, root: String) -> (r: WorkspaceModel)
        ensures
            r.id == id,
            r.root@ == root@,
            r.sessions@.len() == 0,
            r.focused_session is None,
            r.sidebar_tab == SidebarTab::Agents,
            r.agents_selected == 0,
            r.explorer.dirs@.len() == 0,
            r.explorer.expanded@.len() == 0,
            r.explorer.selected == 0,
            r.file_index is None,
            r.file_index_all is None,
    {
        WorkspaceModel {
            id,
            root,
            sessions: Vec::new(),
            focused_session: None,
            sidebar_tab: SidebarTab::Agents,
            agents_selected: 0,
            explorer: ExplorerModel::new(),
            file_index: None,
            file_index_all: None,
        }
    }
}

/// The app's decision state: workspaces and sessions by id, focus, the open
/// overlay, and the mouse/resize flags. Terminals, watchers and background
/// tasks live outside it and are driven by the effects its methods return.
pub struct AppModel {
    /// Workspace tabs, in tab order.
    pub workspaces: Vec<WorkspaceModel>,
    pub sessions: Vec<SessionModel>,
    pub active_workspace: Option<u128>,
    pub focus: Focus,
    /// Hides topbar and sidebar, giving the focused session the whole frame.
    pub focus_mode: bool,
    pub modal: Option<Modal>,
    pub fuzzy_finder: Option<FuzzyFinderState>,
    pub should_quit: bool,
    pub sidebar_width: u16,
    /// The sidebar divider is being dragged.
    pub resizing_sidebar: bool,
    pub mouse_capture_enabled: bool,
    /// A press that started over a mouse-tracking session is still held.
    pub forwarding_mouse: bool,
    pub hovered_notification: Option<u64>,
    /// Something the next frame shows may have changed.
    pub dirty: bool,
}

/// The index of the first workspace with id `id`.
pub open spec fn ws_index(ws: Seq<WorkspaceModel>, id: u128) -> Option<int>
    decreases ws.len(),
{
    if ws.len() == 0 {
        None
    } else {
        match ws_index(ws.drop_last(), id) {
            Some(i) => Some(i),
            None => if ws.last().id == id {
                Some(ws.len() - 1)
            } else {
                None
            },
        }
    }
}

/// The index of the first session with id `id`.
pub open spec fn session_index(ss: Seq<SessionModel>, id: u128) -> Option<int>
    decreases ss.len(),
{
    if ss.len() == 0 {
        None
    } else {
        match session_index(ss.drop_last(), id) {
            Some(i) => Some(i),
            None => if ss.last().id == id {
                Some(ss.len() - 1)
            } else {
                None
            },
        }
    }
}

pub proof fn lemma_ws_index(ws: Seq<WorkspaceModel>, id: u128)
    ensures
        match ws_index(ws, id) {
            Some(i) => 0 <= i < ws.len() && ws[i].id == id && forall|k: int| 0 <= k < i ==> ws[k].id != id,
            None => forall|k: int| 0 <= k < ws.len() ==> ws[k].id != id,
        },
    decreases ws.len(),
{
    if ws.len() > 0 {
        assert(forall|k: int| 0 <= k < ws.len() - 1 ==> ws.drop_last()[k] == ws[k]);
        lemma_ws_index(ws.drop_last(), id);
    }
}

pub proof fn lemma_session_index(ss: Seq<SessionModel>, id: u128)
    ensures
        match session_index(ss, id) {
            Some(i) => 0 <= i < ss.len() && ss[i].id == id && forall|k: int| 0 <= k < i ==> ss[k].id != id,
            None => forall|k: int| 0 <= k < ss.len() ==> ss[k].id != id,
        },
    decreases ss.len(),
{
    if ss.len() > 0 {
        assert(forall|k: int| 0 <= k < ss.len() - 1 ==> ss.drop_last()[k] == ss[k]);
        lemma_session_index(ss.drop_last(), id);
    }
}

/// The workspace index of the first id match, found by a scan.
pub fn find_workspace(ws: &Vec<WorkspaceModel>, id: u128) -> (r: Option<usize>)
    ensures
        match r {
            Some(i) => ws_index(ws@, id) == Some(i as int),
            None => ws_index(ws@, id) is None,
        },
{
    proof {
        lemma_ws_index(ws@, id);
    }
    let mut i: usize = 0;
    while i < ws.len()
        invariant
            i <= ws@.len(),
            forall|k: int| 0 <= k < i ==> ws@[k].id != id,
        decreases ws@.len() - i,
    {
        if ws[i].id == id {
            proof {
                lemma_ws_index(ws@, id);
            }
            return Some(i);
        }
        i = i + 1;
    }
    None
}

/// The session index of the first id match, found by a scan.
pub fn find_session(ss: &Vec<SessionModel>, id: u128) -> (r: Option<usize>)
    ensures
        match r {
            Some(i) => session_index(ss@, id) == Some(i as int),
            None => session_index(ss@, id) is None,
        },
{
    proof {
        lemma_session_index(ss@, id);
    }
    let mut i: usize = 0;
    while i < ss.len()
        invariant
            i <= ss@.len(),
            forall|k: int| 0 <= k < i ==> ss@[k].id != id,
        decreases ss@.len() - i,
    {
        if ss[i].id == id {
            proof {
                lemma_session_index(ss@, id);
            }
            return Some(i);
        }
        i = i + 1;
    }
    None
}

/// Whether an id differs from `x`.
pub open spec fn ne_id(x: u128) -> spec_fn(u128) -> bool {
    |y: u128| y != x
}

/// `v` without any occurrence of `x`, order kept.
pub open spec fn without(v: Seq<u128>, x: u128) -> Seq<u128> {
    v.filter(ne_id(x))
}

pub fn remove_id(v: &Vec<u128>, x: u128) -> (r: Vec<u128>)
    ensures
        r@ == without(v@, x),
{
    let ghost pred = ne_id(x);
    let mut out: Vec<u128> = Vec::new();
    let mut i: usize = 0;
    assert(v@.take(0).filter(pred) == Seq::<u128>::empty()) by {
        reveal_with_fuel(Seq::filter, 1);
    }
    while i < v.len()
        invariant
            i <= v@.len(),
            pred == ne_id(x),
            out@ == v@.take(i as int).filter(pred),
        decreases v@.len() - i,
    {
        assert(v@.take(i + 1) == v@.take(i as int).push(v@[i as int]));
        assert(v@.take(i + 1).drop_last() == v@.take(i as int));
        proof {
            v@.take(i as int).lemma_filter_push(v@[i as int], pred);
        }
        if v[i] != x {
            out.push(v[i]);
        }
        i = i + 1;
    }
    assert(v@.take(v@.len() as int) == v@);
    out
}

/// The first index of `x` in `v`.
pub open spec fn id_position(v: Seq<u128>, x: u128) -> Option<int>
    decreases v.len(),
{
    if v.len() == 0 {
        None
    } else {
        match id_position(v.drop_last(), x) {
            Some(i) => Some(i),
            None => if v.last() == x {
                Some(v.len() - 1)
            } else {
                None
            },
        }
    }
}

pub proof fn lemma_id_position(v: Seq<u128>, x: u128)
    ensures
        match id_position(v, x) {
            Some(i) => 0 <= i < v.len() && v[i] == x && forall|k: int| 0 <= k < i ==> v[k] != x,
            None => forall|k: int| 0 <= k < v.len() ==> v[k] != x,
        },
    decreases v.len(),
{
    if v.len() > 0 {
        assert(forall|k: int| 0 <= k < v.len() - 1 ==> v.drop_last()[k] == v[k]);
        lemma_id_position(v.drop_last(), x);
    }
}

pub fn position_of(v: &Vec<u128>, x: u128) -> (r: Option<usize>)
    ensures
        match r {
            Some(i) => id_position(v@, x) == Some(i as int),
            None => id_position(v@, x) is None,
        },
{
    proof {
        lemma_id_position(v@, x);
    }
    let mut i: usize = 0;
    while i < v.len()
        invariant
            i <= v@.len(),
            forall|k: int| 0 <= k < i ==> v@[k] != x,
        decreases v@.len() - i,
    {
        if v[i] == x {
            proof {
                lemma_id_position(v@, x);
            }
            return Some(i);
        }
        i = i + 1;
    }
    None
}

/// The workspaces keep their order, ids and file indexes.
pub open spec fn ws_shape_same(a: Seq<WorkspaceModel>, b: Seq<WorkspaceModel>) -> bool {
    &&& a.len() == b.len()
    &&& forall|k: int|
        0 <= k < a.len() ==> (#[trigger] a[k]).id == b[k].id && a[k].file_index == b[k].file_index
            && a[k].file_index_all == b[k].file_index_all
}

/// The sessions keep their order and ids.
pub open spec fn session_ids_same(a: Seq<SessionModel>, b: Seq<SessionModel>) -> bool {
    &&& a.len() == b.len()
    &&& forall|k: int| 0 <= k < a.len() ==> (#[trigger] a[k]).id == b[k].id
}

/// `after` is `before` with the session `session_id` (if listed) named
/// `name`, everything else as it was.
pub open spec fn renamed_in(before: Seq<SessionModel>, after: Seq<SessionModel>, session_id: u128, name: Seq<char>) -> bool {
    match session_index(before, session_id) {
        Some(i) => {
            &&& after.len() == before.len()
            &&& after[i].name@ == name
            &&& after[i].id == session_id
            &&& after[i].status == before[i].status
            &&& after[i].unread == before[i].unread
            &&& forall|k: int| 0 <= k < before.len() && k != i ==> after[k] == before[k]
        },
        None => after == before,
    }
}

impl AppModel {
    /// The overlays and the quit, mouse and redraw flags are unchanged.
    pub open spec fn flags_same(&self, o: &Self) -> bool {
        &&& self.modal == o.modal
        &&& self.fuzzy_finder == o.fuzzy_finder
        &&& self.should_quit == o.should_quit
        &&& self.sidebar_width == o.sidebar_width
        &&& self.resizing_sidebar == o.resizing_sidebar
        &&& self.mouse_capture_enabled == o.mouse_capture_enabled
        &&& self.forwarding_mouse == o.forwarding_mouse
        &&& self.hovered_notification == o.hovered_notification
        &&& self.dirty == o.dirty
    }

    pub fn new(sidebar_width: u16) -> (r: AppModel)
        ensures
            r.workspaces@.len() == 0,
            r.sessions@.len() == 0,
            r.active_workspace is None,
            r.focus == Focus::Sidebar,
            !r.focus_mode,
            r.modal is None,
            r.fuzzy_finder is None,
            !r.should_quit,
            r.sidebar_width == sidebar_width,
            !r.resizing_sidebar,
            r.mouse_capture_enabled,
            !r.forwarding_mouse,
            r.hovered_notification is None,
            r.dirty,
    {
        AppModel {
            workspaces: Vec::new(),
            sessions: Vec::new(),
            active_workspace: None,
            focus: Focus::Sidebar,
            focus_mode: false,
            modal: None,
            fuzzy_finder: None,
            should_quit: false,
            sidebar_width,
            resizing_sidebar: false,
            mouse_capture_enabled: true,
            forwarding_mouse: false,
            hovered_notification: None,
            dirty: true,
        }
    }

    /// The index of the active workspace's entry.
    pub open spec fn active_index(&self) -> Option<int> {
        match self.active_workspace {
            Some(id) => ws_index(self.workspaces@, id),
            None => None,
        }
    }

    /// The active workspace's focused session.
    pub open spec fn focused_session_spec(&self) -> Option<u128> {
        match self.active_index() {
            Some(i) => self.workspaces@[i].focused_session,
            None => None,
        }
    }

    pub fn active_index_exec(&self) -> (r: Option<usize>)
        ensures
            match r {
                Some(i) => self.active_index() == Some(i as int),
                None => self.active_index() is None,
            },
    {
        match self.active_workspace {
            Some(id) => find_workspace(&self.workspaces, id),
            None => None,
        }
    }

    pub fn focused_session_id(&self) -> (r: Option<u128>)
        ensures
            r == self.focused_session_spec(),
    {
        match self.active_workspace {
            Some(id) => {
                proof {
                    lemma_ws_index(self.workspaces@, id);
                }
                match find_workspace(&self.workspaces, id) {
                    Some(i) => self.workspaces[i].focused_session,
                    None => None,
                }
            },
            None => None,
        }
    }

    /// Focus can move to the terminal only when there is a session to show.
    pub fn can_focus_terminal(&self) -> (r: bool)
        ensures
            r == self.focused_session_spec() is Some,
    {
        self.focused_session_id().is_some()
    }

    /// Moves focus to the terminal when `can_focus_terminal` allows it.
    pub fn focus_terminal(&mut self)
        ensures
            final(self).flags_same(old(self)),
            final(self).sessions@ == old(self).sessions@,
            final(self).focus_mode == old(self).focus_mode,
            final(self).focus == (if old(self).focused_session_spec() is Some {
                Focus::Terminal
            } else {
                old(self).focus
            }),
            final(self).workspaces@ == old(self).workspaces@,
            final(self).active_workspace == old(self).active_workspace,
            *final(self) == (AppModel { focus: final(self).focus, ..*old(self) }),
    {
        if self.can_focus_terminal() {
            self.focus = Focus::Terminal;
        }
    }

    /// Applies a hook event to its session: its status follows the hook, and
    /// it becomes unread when it stopped while not displayed.
    pub fn apply_hook_status(&mut self, session_id: u128, kind: HookEventKind)
        ensures
            final(self).flags_same(old(self)),
            session_ids_same(final(self).sessions@, old(self).sessions@),
            final(self).focus == old(self).focus,
            final(self).focus_mode == old(self).focus_mode,
            final(self).sessions@.len() == old(self).sessions@.len(),
            final(self).workspaces@ == old(self).workspaces@,
            final(self).active_workspace == old(self).active_workspace,
            match session_index(old(self).sessions@, session_id) {
                Some(i) => {
                    &&& final(self).sessions@[i].status == Some(hook_status_spec(kind))
                    &&& kind == HookEventKind::PromptSubmitted ==> final(self).sessions@[i].status == Some(
                        RuntimeStatus::Thinking,
                    )
                    &&& kind == HookEventKind::Stopped ==> final(self).sessions@[i].status == Some(RuntimeStatus::Idle)
                    &&& kind == HookEventKind::Notification ==> final(self).sessions@[i].status == Some(
                        RuntimeStatus::Waiting,
                    )
                    &&& final(self).sessions@[i].unread == (kind == HookEventKind::Stopped
                        && old(self).focused_session_spec() != Some(session_id))
                    &&& final(self).sessions@[i].id == session_id
                    &&& final(self).sessions@[i].name@ == old(self).sessions@[i].name@
                    &&& forall|k: int|
                        0 <= k < old(self).sessions@.len() && k != i ==> final(self).sessions@[k]
                            == old(self).sessions@[k]
                },
                None => final(self).sessions@ == old(self).sessions@,
            },
    {
        let focused = self.focused_session_id();
        let is_focused = match focused {
            Some(f) => f == session_id,
            None => false,
        };
        proof {
            lemma_session_index(self.sessions@, session_id);
        }
        match find_session(&self.sessions, session_id) {
            Some(i) => {
                let ghost before = self.sessions@;
                let mut entry = self.sessions.remove(i);
                entry.status = Some(hook_status(kind));
                entry.unread = kind == HookEventKind::Stopped && !is_focused;
                let ghost e = entry;
                self.sessions.insert(i, entry);
                assert(self.sessions@ =~= before.update(i as int, e));
            },
            None => {},
        }
    }

    /// Marks the displayed session as read.
    pub fn sync_focused_read(&mut self)
        ensures
            final(self).workspaces@ == old(self).workspaces@,
            final(self).active_workspace == old(self).active_workspace,
            final(self).sessions@.len() == old(self).sessions@.len(),
            forall|k: int|
                0 <= k < old(self).sessions@.len() ==> {
                    &&& final(self).sessions@[k].id == old(self).sessions@[k].id
                    &&& final(self).sessions@[k].status == old(self).sessions@[k].status
                    &&& final(self).sessions@[k].name@ == old(self).sessions@[k].name@
                },
            match old(self).focused_session_spec() {
                Some(f) => match session_index(old(self).sessions@, f) {
                    Some(i) => {
                        &&& !final(self).sessions@[i].unread
                        &&& final(self).dirty == (old(self).dirty || old(self).sessions@[i].unread)
                        &&& forall|k: int|
                            0 <= k < old(self).sessions@.len() && k != i ==> final(self).sessions@[k].unread
                                == old(self).sessions@[k].unread
                    },
                    None => final(self).sessions@ == old(self).sessions@ && final(self).dirty == old(self).dirty,
                },
                None => final(self).sessions@ == old(self).sessions@ && final(self).dirty == old(self).dirty,
            },
    {
        match self.focused_session_id() {
            Some(id) => match find_session(&self.sessions, id) {
                Some(i) => {
                    proof {
                        lemma_session_index(self.sessions@, id);
                    }
                    if self.sessions[i].unread {
                        let ghost before = self.sessions@;
                        let mut entry = self.sessions.remove(i);
                        entry.unread = false;
                        let ghost e = entry;
                        self.sessions.insert(i, entry);
                        assert(self.sessions@ =~= before.update(i as int, e));
                        self.dirty = true;
                    }
                },
                None => {},
            },
            None => {},
        }
    }

    /// Workspace ids and session ids each occur once.
    pub open spec fn wf(&self) -> bool {
        &&& forall|i: int, j: int|
            0 <= i < j < self.workspaces@.len() ==> (#[trigger] self.workspaces@[i]).id != (#[trigger] self.workspaces@[j]).id
        &&& forall|i: int, j: int|
            0 <= i < j < self.sessions@.len() ==> (#[trigger] self.sessions@[i]).id != (#[trigger] self.sessions@[j]).id
    }

    /// Whether the workspace list is the same apart from each entry's
    /// session list and focused session.
    pub open spec fn same_workspaces_but_sessions(a: Seq<WorkspaceModel>, b: Seq<WorkspaceModel>) -> bool {
        &&& a.len() == b.len()
        &&& forall|k: int|
            0 <= k < a.len() ==> {
                &&& (#[trigger] a[k]).id == b[k].id
                &&& a[k].root@ == b[k].root@
                &&& a[k].sidebar_tab == b[k].sidebar_tab
                &&& a[k].agents_selected == b[k].agents_selected
            }
    }

    /// Forgets a session that exited or was closed: it leaves the session
    /// list and every workspace's list, and a workspace that was showing it
    /// shows its first remaining session instead.
    pub fn on_session_gone(&mut self, session_id: u128)
        requires
            old(self).wf(),
        ensures
            final(self).flags_same(old(self)),
            final(self).focus_mode == old(self).focus_mode,
            final(self).wf(),
            match session_index(old(self).sessions@, session_id) {
                Some(i) => final(self).sessions@ == old(self).sessions@.remove(i),
                None => final(self).sessions@ == old(self).sessions@,
            },
            forall|k: int| 0 <= k < final(self).sessions@.len() ==> (#[trigger] final(self).sessions@[k]).id != session_id,
            Self::same_workspaces_but_sessions(final(self).workspaces@, old(self).workspaces@),
            forall|k: int|
                0 <= k < old(self).workspaces@.len() ==> {
                    &&& (#[trigger] final(self).workspaces@[k]).sessions@ == without(
                        old(self).workspaces@[k].sessions@,
                        session_id,
                    )
                    &&& final(self).workspaces@[k].focused_session == if old(self).workspaces@[k].focused_session
                        == Some(session_id) {
                        if without(old(self).workspaces@[k].sessions@, session_id).len() > 0 {
                            Some(without(old(self).workspaces@[k].sessions@, session_id)[0])
                        } else {
                            None
                        }
                    } else {
                        old(self).workspaces@[k].focused_session
                    }
                },
            final(self).active_workspace == old(self).active_workspace,
            final(self).focus == old(self).focus,
    {
        proof {
            lemma_session_index(self.sessions@, session_id);
        }
        match find_session(&self.sessions, session_id) {
            Some(i) => {
                let ghost before = self.sessions@;
                self.sessions.remove(i);
                assert forall|k: int| 0 <= k < self.sessions@.len() implies (#[trigger] self.sessions@[k]).id
                    != session_id by {
                    if k < i {
                        assert(self.sessions@[k] == before[k]);
                    } else {
                        assert(self.sessions@[k] == before[k + 1]);
                    }
                }
                assert forall|a: int, b: int| 0 <= a < b < self.sessions@.len() implies (#[trigger] self.sessions@[a]).id
                    != (#[trigger] self.sessions@[b]).id by {
                    let a0 = if a < i { a } else { a + 1 };
                    let b0 = if b < i { b } else { b + 1 };
                    assert(self.sessions@[a] == before[a0]);
                    assert(self.sessions@[b] == before[b0]);
                }
            },
            None => {},
        }
        let ghost old_ws = self.workspaces@;
        let ghost sessions_after = self.sessions@;
        let ghost active = self.active_workspace;
        let ghost focus = self.focus;
        let ghost pre = *self;
        let mut k: usize = 0;
        while k < self.workspaces.len()
            invariant
                k <= self.workspaces@.len(),
                self.flags_same(&pre),
                self.focus_mode == pre.focus_mode,
                self.sessions@ == sessions_after,
                self.active_workspace == active,
                self.focus == focus,
                self.workspaces@.len() == old_ws.len(),
                forall|j: int| k <= j < old_ws.len() ==> self.workspaces@[j] == old_ws[j],
                Self::same_workspaces_but_sessions(self.workspaces@, old_ws),
                forall|j: int|
                    0 <= j < k ==> {
                        &&& (#[trigger] self.workspaces@[j]).sessions@ == without(old_ws[j].sessions@, session_id)
                        &&& self.workspaces@[j].focused_session == if old_ws[j].focused_session == Some(session_id) {
                            if without(old_ws[j].sessions@, session_id).len() > 0 {
                                Some(without(old_ws[j].sessions@, session_id)[0])
                            } else {
                                None
                            }
                        } else {
                            old_ws[j].focused_session
                        }
                    },
            decreases old_ws.len() - k,
        {
            let ghost before = self.workspaces@;
            let mut entry = self.workspaces.remove(k);
            let kept = remove_id(&entry.sessions, session_id);
            entry.sessions = kept;
            if entry.focused_session == Some(session_id) {
                entry.focused_session = if entry.sessions.len() > 0 {
                    Some(entry.sessions[0])
                } else {
                    None
                };
            }
            let ghost e = entry;
            self.workspaces.insert(k, entry);
            assert(self.workspaces@ =~= before.update(k as int, e));
            k = k + 1;
        }
        proof {
            assert forall|a: int, b: int| 0 <= a < b < self.workspaces@.len() implies (#[trigger] self.workspaces@[a]).id
                != (#[trigger] self.workspaces@[b]).id by {
                assert(self.workspaces@[a].id == old_ws[a].id);
                assert(self.workspaces@[b].id == old_ws[b].id);
            }
        }
    }

    /// Renames a session (a rename typed in argus or picked up from the
    /// agent itself).
    pub fn rename_session(&mut self, session_id: u128, name: String)
        ensures
            final(self).flags_same(old(self)),
            session_ids_same(final(self).sessions@, old(self).sessions@),
            final(self).focus == old(self).focus,
            final(self).focus_mode == old(self).focus_mode,
            final(self).sessions@.len() == old(self).sessions@.len(),
            final(self).workspaces@ == old(self).workspaces@,
            final(self).active_workspace == old(self).active_workspace,
            renamed_in(old(self).sessions@, final(self).sessions@, session_id, name@),
    {
        proof {
            lemma_session_index(self.sessions@, session_id);
        }
        match find_session(&self.sessions, session_id) {
            Some(i) => {
                let ghost before = self.sessions@;
                let mut entry = self.sessions.remove(i);
                entry.name = name;
                let ghost e = entry;
                self.sessions.insert(i, entry);
                assert(self.sessions@ =~= before.update(i as int, e));
            },
            None => {},
        }
    }

    /// Switches to the next (`dir` = 1) or previous (`dir` = -1) workspace
    /// tab, wrapping around; an unknown active workspace counts as the first.
    pub fn cycle_workspace(&mut self, dir: i32)
        requires
            old(self).workspaces@.len() <= i32::MAX,
            -1 <= dir <= 1,
        ensures
            final(self).flags_same(old(self)),
            final(self).focus_mode == old(self).focus_mode,
            old(self).workspaces@.len() == 0 ==> final(self).active_workspace == old(self).active_workspace,
            old(self).workspaces@.len() > 0 ==> {
                let len = old(self).workspaces@.len() as int;
                let cur = match old(self).active_index() {
                    Some(i) => i,
                    None => 0,
                };
                final(self).active_workspace == Some(old(self).workspaces@[(cur + dir) % len].id)
            },
            final(self).workspaces@ == old(self).workspaces@,
            final(self).sessions@ == old(self).sessions@,
            final(self).focus == old(self).focus,
    {
        if self.workspaces.len() == 0 {
            return;
        }
        let current: usize = match self.active_index_exec() {
            Some(i) => i,
            None => 0,
        };
        proof {
            if let Some(id) = self.active_workspace {
                lemma_ws_index(self.workspaces@, id);
            }
        }
        let len = self.workspaces.len();
        let next: usize = if dir < 0 {
            if current == 0 {
                len - 1
            } else {
                current - 1
            }
        } else if dir > 0 {
            if current + 1 == len {
                0
            } else {
                current + 1
            }
        } else {
            current
        };
        assert(next as int == (current + dir) % (len as int)) by (nonlinear_arith)
            requires
                current < len,
                len > 0,
                -1 <= dir <= 1,
                dir < 0 && current == 0 ==> next == len - 1,
                dir < 0 && current > 0 ==> next == current - 1,
                dir > 0 && current + 1 == len ==> next == 0,
                dir > 0 && current + 1 < len ==> next == current + 1,
                dir == 0 ==> next == current,
        ;
        self.active_workspace = Some(self.workspaces[next].id);
    }

    /// Shows `tab` in the active workspace's sidebar.
    pub fn set_sidebar_tab(&mut self, tab: SidebarTab)
        ensures
            final(self).flags_same(old(self)),
            ws_shape_same(final(self).workspaces@, old(self).workspaces@),
            final(self).sessions@ == old(self).sessions@,
            final(self).focus == old(self).focus,
            final(self).focus_mode == old(self).focus_mode,
            final(self).workspaces@.len() == old(self).workspaces@.len(),
            forall|k: int|
                0 <= k < old(self).workspaces@.len() ==> {
                    &&& (#[trigger] final(self).workspaces@[k]).sidebar_tab == if old(self).active_index() == Some(k) {
                        tab
                    } else {
                        old(self).workspaces@[k].sidebar_tab
                    }
                    &&& final(self).workspaces@[k].id == old(self).workspaces@[k].id
                    &&& final(self).workspaces@[k].sessions@ == old(self).workspaces@[k].sessions@
                    &&& final(self).workspaces@[k].focused_session == old(self).workspaces@[k].focused_session
                    &&& final(self).workspaces@[k].agents_selected == old(self).workspaces@[k].agents_selected
                },
            final(self).active_workspace == old(self).active_workspace,
            final(self).sessions@ == old(self).sessions@,
    {
        match self.active_index_exec() {
            Some(i) => {
                proof {
                    lemma_ws_index(self.workspaces@, self.active_workspace->0);
                }
                let ghost before = self.workspaces@;
                let mut entry = self.workspaces.remove(i);
                entry.sidebar_tab = tab;
                let ghost e = entry;
                self.workspaces.insert(i, entry);
                assert(self.workspaces@ =~= before.update(i as int, e));
            },
            None => {},
        }
    }

    /// Flips the active workspace's sidebar between Agents and Explorer.
    pub fn cycle_sidebar_tab(&mut self)
        ensures
            final(self).flags_same(old(self)),
            ws_shape_same(final(self).workspaces@, old(self).workspaces@),
            final(self).sessions@ == old(self).sessions@,
            final(self).focus == old(self).focus,
            final(self).focus_mode == old(self).focus_mode,
            final(self).workspaces@.len() == old(self).workspaces@.len(),
            forall|k: int|
                0 <= k < old(self).workspaces@.len() ==> {
                    &&& (#[trigger] final(self).workspaces@[k]).sidebar_tab == if old(self).active_index() == Some(k) {
                        if old(self).workspaces@[k].sidebar_tab == SidebarTab::Agents {
                            SidebarTab::Explorer
                        } else {
                            SidebarTab::Agents
                        }
                    } else {
                        old(self).workspaces@[k].sidebar_tab
                    }
                    &&& final(self).workspaces@[k].id == old(self).workspaces@[k].id
                    &&& final(self).workspaces@[k].sessions@ == old(self).workspaces@[k].sessions@
                    &&& final(self).workspaces@[k].focused_session == old(self).workspaces@[k].focused_session
                },
            final(self).active_workspace == old(self).active_workspace,
    {
        match self.active_index_exec() {
            Some(i) => {
                proof {
                    lemma_ws_index(self.workspaces@, self.active_workspace->0);
                }
                let next = match self.workspaces[i].sidebar_tab {
                    SidebarTab::Agents => SidebarTab::Explorer,
                    SidebarTab::Explorer => SidebarTab::Agents,
                };
                self.set_sidebar_tab(next);
            },
            None => {},
        }
    }

    /// Puts the Agents highlight on the focused session of the active
    /// workspace.
    pub fn sync_agents_selection_to_focused(&mut self)
        ensures
            final(self).flags_same(old(self)),
            ws_shape_same(final(self).workspaces@, old(self).workspaces@),
            final(self).sessions@ == old(self).sessions@,
            final(self).focus == old(self).focus,
            final(self).focus_mode == old(self).focus_mode,
            final(self).workspaces@.len() == old(self).workspaces@.len(),
            forall|k: int|
                0 <= k < old(self).workspaces@.len() ==> {
                    &&& (#[trigger] final(self).workspaces@[k]).agents_selected == if old(self).active_index() == Some(k) {
                        match old(self).workspaces@[k].focused_session {
                            Some(f) => match id_position(old(self).workspaces@[k].sessions@, f) {
                                Some(p) => p as usize,
                                None => old(self).workspaces@[k].agents_selected,
                            },
                            None => old(self).workspaces@[k].agents_selected,
                        }
                    } else {
                        old(self).workspaces@[k].agents_selected
                    }
                    &&& final(self).workspaces@[k].id == old(self).workspaces@[k].id
                    &&& final(self).workspaces@[k].sessions@ == old(self).workspaces@[k].sessions@
                    &&& final(self).workspaces@[k].focused_session == old(self).workspaces@[k].focused_session
                    &&& final(self).workspaces@[k].sidebar_tab == old(self).workspaces@[k].sidebar_tab
                },
            final(self).active_workspace == old(self).active_workspace,
            final(self).sessions@ == old(self).sessions@,
            final(self).focus == old(self).focus,
            final(self).focus_mode == old(self).focus_mode,
    {
        match self.active_index_exec() {
            Some(i) => {
                proof {
                    lemma_ws_index(self.workspaces@, self.active_workspace->0);
                }
                match self.workspaces[i].focused_session {
                    Some(f) => match position_of(&self.workspaces[i].sessions, f) {
                        Some(p) => {
                            let ghost before = self.workspaces@;
                            let mut entry = self.workspaces.remove(i);
                            entry.agents_selected = p;
                            let ghost e = entry;
                            self.workspaces.insert(i, entry);
                            assert(self.workspaces@ =~= before.update(i as int, e));
                        },
                        None => {},
                    },
                    None => {},
                }
            },
            None => {},
        }
    }

    /// Whether anything is animating on wall-clock time and needs periodic
    /// redraws: outside Focus Mode the focused pane's border always is;
    /// otherwise a status message counting down, a visible toast, or a
    /// session that is unread or thinking.
    pub fn is_animating(&self, status_line_active: bool, toast_visible: bool) -> (r: bool)
        ensures
            r == (!self.focus_mode || status_line_active || toast_visible || exists|k: int|
                0 <= k < self.sessions@.len() && ((#[trigger] self.sessions@[k]).unread || self.sessions@[k].status
                    == Some(RuntimeStatus::Thinking))),
    {
        if !self.focus_mode || status_line_active || toast_visible {
            return true;
        }
        let mut k: usize = 0;
        while k < self.sessions.len()
            invariant
                k <= self.sessions@.len(),
                forall|j: int|
                    0 <= j < k ==> !((#[trigger] self.sessions@[j]).unread || self.sessions@[j].status == Some(
                        RuntimeStatus::Thinking,
                    )),
            decreases self.sessions@.len() - k,
        {
            if self.sessions[k].unread || self.sessions[k].status == Some(RuntimeStatus::Thinking) {
                return true;
            }
            k = k + 1;
        }
        false
    }

    /// Records a session: replaces the entry of the same id, else appends.
    fn put_session(&mut self, session: SessionModel)
        requires
            old(self).wf(),
        ensures
            final(self).wf(),
            match session_index(old(self).sessions@, session.id) {
                Some(i) => final(self).sessions@ == old(self).sessions@.update(i, session),
                None => final(self).sessions@ == old(self).sessions@.push(session),
            },
            final(self).workspaces@ == old(self).workspaces@,
            final(self).active_workspace == old(self).active_workspace,
            final(self).focus == old(self).focus,
            final(self).should_quit == old(self).should_quit,
    {
        proof {
            lemma_session_index(self.sessions@, session.id);
        }
        let ghost before = self.sessions@;
        match find_session(&self.sessions, session.id) {
            Some(i) => {
                self.sessions.remove(i);
                self.sessions.insert(i, session);
                assert(self.sessions@ =~= before.update(i as int, session));
                assert forall|a: int, b: int| 0 <= a < b < self.sessions@.len() implies (#[trigger] self.sessions@[a]).id
                    != (#[trigger] self.sessions@[b]).id by {
                    assert(self.sessions@[a].id == before[a].id);
                    assert(self.sessions@[b].id == before[b].id);
                }
            },
            None => {
                self.sessions.push(session);
                assert forall|a: int, b: int| 0 <= a < b < self.sessions@.len() implies (#[trigger] self.sessions@[a]).id
                    != (#[trigger] self.sessions@[b]).id by {
                    if b == before.len() {
                        assert(self.sessions@[a] == before[a]);
                    } else {
                        assert(self.sessions@[a] == before[a]);
                        assert(self.sessions@[b] == before[b]);
                    }
                }
            },
        }
    }

    /// A session spawned in `workspace_id`: recorded with no status, added
    /// to the workspace's list, focused and highlighted there. Returns
    /// whether it went to the active workspace (whose terminal must then be
    /// resized to it).
    pub fn add_session(&mut self, workspace_id: u128, session_id: u128, name: String) -> (r: bool)
        requires
            old(self).wf(),
        ensures
            final(self).wf(),
            r == (old(self).active_workspace == Some(workspace_id)),
            ({
                let i = match session_index(old(self).sessions@, session_id) {
                    Some(i) => i,
                    None => old(self).sessions@.len() as int,
                };
                &&& final(self).sessions@.len() == (if i < old(self).sessions@.len() {
                    old(self).sessions@.len() as int
                } else {
                    old(self).sessions@.len() + 1int
                })
                &&& final(self).sessions@[i].id == session_id
                &&& final(self).sessions@[i].name@ == name@
                &&& final(self).sessions@[i].status is None
                &&& !final(self).sessions@[i].unread
                &&& forall|k: int|
                    0 <= k < old(self).sessions@.len() && k != i ==> final(self).sessions@[k] == old(self).sessions@[k]
            }),
            final(self).workspaces@.len() == old(self).workspaces@.len(),
            forall|k: int|
                0 <= k < old(self).workspaces@.len() ==> {
                    let w = old(self).workspaces@[k];
                    let n = (#[trigger] final(self).workspaces@[k]);
                    &&& n.id == w.id
                    &&& n.root@ == w.root@
                    &&& n.sidebar_tab == w.sidebar_tab
                    &&& if ws_index(old(self).workspaces@, workspace_id) == Some(k) {
                        &&& n.sessions@ == w.sessions@.push(session_id)
                        &&& n.focused_session == Some(session_id)
                        &&& n.agents_selected == w.sessions@.len()
                    } else {
                        &&& n.sessions@ == w.sessions@
                        &&& n.focused_session == w.focused_session
                        &&& n.agents_selected == w.agents_selected
                    }
                },
            final(self).active_workspace == old(self).active_workspace,
            final(self).focus == old(self).focus,
    {
        proof {
            lemma_session_index(self.sessions@, session_id);
        }
        self.put_session(SessionModel { id: session_id, name, status: None, unread: false });
        proof {
            lemma_ws_index(self.workspaces@, workspace_id);
        }
        match find_workspace(&self.workspaces, workspace_id) {
            Some(i) => {
                let ghost before = self.workspaces@;
                let mut entry = self.workspaces.remove(i);
                entry.sessions.push(session_id);
                entry.focused_session = Some(session_id);
                entry.agents_selected = entry.sessions.len() - 1;
                let ghost e = entry;
                self.workspaces.insert(i, entry);
                assert(self.workspaces@ =~= before.update(i as int, e));
                assert forall|a: int, b: int| 0 <= a < b < self.workspaces@.len() implies (#[trigger] self.workspaces@[a]).id
                    != (#[trigger] self.workspaces@[b]).id by {
                    assert(self.workspaces@[a].id == before[a].id);
                    assert(self.workspaces@[b].id == before[b].id);
                }
            },
            None => {},
        }
        match self.active_workspace {
            Some(a) => a == workspace_id,
            None => false,
        }
    }

    /// A workspace spawned with its first session: recorded, added as the
    /// last tab, made active, with focus on its terminal.
    pub fn add_workspace(&mut self, workspace_id: u128, root: String, session_id: u128, session_name: String)
        requires
            old(self).wf(),
            ws_index(old(self).workspaces@, workspace_id) is None,
        ensures
            final(self).wf(),
            final(self).workspaces@.len() == old(self).workspaces@.len() + 1,
            forall|k: int| 0 <= k < old(self).workspaces@.len() ==> final(self).workspaces@[k] == old(self).workspaces@[k],
            ({
                let w = final(self).workspaces@.last();
                &&& w.id == workspace_id
                &&& w.root@ == root@
                &&& w.sessions@ == seq![session_id]
                &&& w.focused_session == Some(session_id)
                &&& w.sidebar_tab == SidebarTab::Agents
                &&& w.agents_selected == 0
                &&& w.file_index is None
                &&& w.file_index_all is None
            }),
            exists|i: int|
                0 <= i < final(self).sessions@.len() && (#[trigger] final(self).sessions@[i]).id == session_id
                    && final(self).sessions@[i].name@ == session_name@ && final(self).sessions@[i].status is None
                    && !final(self).sessions@[i].unread,
            final(self).active_workspace == Some(workspace_id),
            final(self).focus == Focus::Terminal,
    {
        proof {
            lemma_session_index(self.sessions@, session_id);
            lemma_ws_index(self.workspaces@, workspace_id);
        }
        let ghost old_sessions = self.sessions@;
        self.put_session(SessionModel { id: session_id, name: session_name, status: None, unread: false });
        let ghost sessions_now = self.sessions@;
        let mut entry = WorkspaceModel::new(workspace_id, root);
        entry.sessions.push(session_id);
        entry.focused_session = Some(session_id);
        let ghost before = self.workspaces@;
        self.workspaces.push(entry);
        proof {
            assert forall|a: int, b: int| 0 <= a < b < self.workspaces@.len() implies (#[trigger] self.workspaces@[a]).id
                != (#[trigger] self.workspaces@[b]).id by {
                assert(self.workspaces@[a] == before[a]);
                if b < before.len() {
                    assert(self.workspaces@[b] == before[b]);
                }
            }
            let i = match session_index(old_sessions, session_id) {
                Some(i) => i,
                None => old_sessions.len() as int,
            };
            assert(self.sessions@[i].id == session_id);
        }
        self.active_workspace = Some(workspace_id);
        self.focus = Focus::Terminal;
    }

    /// A workspace failed to spawn: with no workspace left to show, the app
    /// quits.
    pub fn workspace_spawn_failed(&mut self)
        ensures
            final(self).should_quit == (old(self).workspaces@.len() == 0),
            final(self).workspaces@ == old(self).workspaces@,
            final(self).sessions@ == old(self).sessions@,
            final(self).active_workspace == old(self).active_workspace,
    {
        self.should_quit = self.workspaces.len() == 0;
    }

    /// Drops a closed workspace with all its sessions. When it was active,
    /// the first remaining tab becomes active; with no tab left the app
    /// quits. Returns whether the active workspace changed (and the terminal
    /// needs resizing).
    pub fn remove_workspace(&mut self, workspace_id: u128) -> (r: bool)
        requires
            old(self).wf(),
        ensures
            final(self).modal == old(self).modal,
            final(self).fuzzy_finder == old(self).fuzzy_finder,
            final(self).focus_mode == old(self).focus_mode,
            final(self).wf(),
            match ws_index(old(self).workspaces@, workspace_id) {
                Some(i) => {
                    &&& final(self).workspaces@ == old(self).workspaces@.remove(i)
                    &&& final(self).sessions@ == old(self).sessions@.filter(
                        |s: SessionModel| !old(self).workspaces@[i].sessions@.contains(s.id),
                    )
                },
                None => final(self).workspaces@ == old(self).workspaces@ && final(self).sessions@ == old(self).sessions@,
            },
            r == (old(self).active_workspace == Some(workspace_id)),
            final(self).active_workspace == if old(self).active_workspace == Some(workspace_id) {
                if final(self).workspaces@.len() > 0 {
                    Some(final(self).workspaces@[0].id)
                } else {
                    None
                }
            } else {
                old(self).active_workspace
            },
            final(self).should_quit == (old(self).should_quit || final(self).workspaces@.len() == 0),
            final(self).focus == old(self).focus,
    {
        proof {
            lemma_ws_index(self.workspaces@, workspace_id);
        }
        match find_workspace(&self.workspaces, workspace_id) {
            Some(i) => {
                let ghost before_ws = self.workspaces@;
                let entry = self.workspaces.remove(i);
                proof {
                    assert forall|a: int, b: int| 0 <= a < b < self.workspaces@.len() implies (#[trigger] self.workspaces@[a]).id
                        != (#[trigger] self.workspaces@[b]).id by {
                        let a0 = if a < i { a } else { a + 1 };
                        let b0 = if b < i { b } else { b + 1 };
                        assert(self.workspaces@[a] == before_ws[a0]);
                        assert(self.workspaces@[b] == before_ws[b0]);
                    }
                }
                self.drop_sessions_of(&entry.sessions);
            },
            None => {},
        }
        let was_active = match self.active_workspace {
            Some(a) => a == workspace_id,
            None => false,
        };
        if was_active {
            self.active_workspace = if self.workspaces.len() > 0 {
                Some(self.workspaces[0].id)
            } else {
                None
            };
        }
        if self.workspaces.len() == 0 {
            self.should_quit = true;
        }
        was_active
    }

    /// Removes every session whose id is in `ids`, order kept.
    fn drop_sessions_of(&mut self, ids: &Vec<u128>)
        requires
            old(self).wf(),
        ensures
            final(self).flags_same(old(self)),
            final(self).focus_mode == old(self).focus_mode,
            final(self).wf(),
            final(self).sessions@ == old(self).sessions@.filter(|s: SessionModel| !ids@.contains(s.id)),
            final(self).workspaces@ == old(self).workspaces@,
            final(self).active_workspace == old(self).active_workspace,
            final(self).focus == old(self).focus,
            final(self).should_quit == old(self).should_quit,
    {
        broadcast use Seq::lemma_filter_push;

        let ghost pred = |s: SessionModel| !ids@.contains(s.id);
        let ghost orig = self.sessions@;
        let ghost ws = self.workspaces@;
        let ghost active = self.active_workspace;
        let ghost focus = self.focus;
        let ghost quit = self.should_quit;
        let ghost pre = *self;
        let n = self.sessions.len();
        let mut rest: Vec<SessionModel> = Vec::new();
        std::mem::swap(&mut rest, &mut self.sessions);
        assert(orig.take(0).filter(pred) == Seq::<SessionModel>::empty()) by {
            reveal_with_fuel(Seq::filter, 1);
        }
        assert(orig.skip(0) == orig);
        let mut i: usize = 0;
        while rest.len() > 0
            invariant
                i <= orig.len(),
                n == orig.len(),
                rest@ == orig.skip(i as int),
                self.sessions@ == orig.take(i as int).filter(pred),
                pred == (|s: SessionModel| !ids@.contains(s.id)),
                forall|a: int, b: int| 0 <= a < b < orig.len() ==> (#[trigger] orig[a]).id != (#[trigger] orig[b]).id,
                self.workspaces@ == ws,
                self.active_workspace == active,
                self.focus == focus,
                self.should_quit == quit,
                self.flags_same(&pre),
                self.focus_mode == pre.focus_mode,
            decreases rest@.len(),
        {
            let s = rest.remove(0);
            assert(orig.take(i + 1) == orig.take(i as int).push(s));
            proof {
                orig.take(i as int).lemma_filter_push(s, pred);
            }
            if !contains_id(ids, s.id) {
                self.sessions.push(s);
            }
            assert(orig.skip(i + 1) == orig.skip(i as int).remove(0));
            i = i + 1;
        }
        assert(orig.take(orig.len() as int) == orig);
        proof {
            lemma_filter_ids_unique(orig, pred);
        }
    }
}

/// Whether `x` occurs in `v`.
pub fn contains_id(v: &Vec<u128>, x: u128) -> (r: bool)
    ensures
        r == v@.contains(x),
{
    proof {
        lemma_id_position(v@, x);
    }
    match position_of(v, x) {
        Some(i) => {
            assert(v@[i as int] == x);
            true
        },
        None => false,
    }
}

/// Every entry of a filtered sequence is an entry of the original.
pub proof fn lemma_filter_subset<A>(s: Seq<A>, pred: spec_fn(A) -> bool)
    ensures
        forall|i: int| 0 <= i < s.filter(pred).len() ==> s.contains(#[trigger] s.filter(pred)[i]),
    decreases s.len(),
{
    reveal_with_fuel(Seq::filter, 1);
    if s.len() > 0 {
        let p = s.drop_last();
        lemma_filter_subset(p, pred);
        let fp = p.filter(pred);
        assert forall|i: int| 0 <= i < s.filter(pred).len() implies s.contains(#[trigger] s.filter(pred)[i]) by {
            if i < fp.len() {
                assert(p.contains(fp[i]));
                let k = choose|k: int| 0 <= k < p.len() && p[k] == fp[i];
                assert(s[k] == p[k]);
                assert(s.filter(pred)[i] == fp[i]);
            } else {
                assert(s.filter(pred)[i] == s.last());
                assert(s[s.len() - 1] == s.last());
            }
        }
    }
}

/// Filtering keeps session ids distinct.
pub proof fn lemma_filter_ids_unique(s: Seq<SessionModel>, pred: spec_fn(SessionModel) -> bool)
    requires
        forall|a: int, b: int| 0 <= a < b < s.len() ==> (#[trigger] s[a]).id != (#[trigger] s[b]).id,
    ensures
        forall|a: int, b: int|
            0 <= a < b < s.filter(pred).len() ==> (#[trigger] s.filter(pred)[a]).id != (#[trigger] s.filter(
                pred,
            )[b]).id,
    decreases s.len(),
{
    reveal_with_fuel(Seq::filter, 1);
    if s.len() > 0 {
        let p = s.drop_last();
        let fp = p.filter(pred);
        assert forall|a: int, b: int| 0 <= a < b < p.len() implies (#[trigger] p[a]).id != (#[trigger] p[b]).id by {
            assert(p[a] == s[a] && p[b] == s[b]);
        }
        lemma_filter_ids_unique(p, pred);
        lemma_filter_subset(p, pred);
        let f = s.filter(pred);
        assert forall|a: int, b: int| 0 <= a < b < f.len() implies (#[trigger] f[a]).id != (#[trigger] f[b]).id by {
            if b < fp.len() {
                assert(f[a] == fp[a] && f[b] == fp[b]);
            } else {
                assert(f[b] == s.last());
                assert(f[a] == fp[a]);
                assert(p.contains(fp[a]));
                let k = choose|k: int| 0 <= k < p.len() && p[k] == fp[a];
                assert(s[k] == fp[a]);
                assert(s[s.len() - 1] == s.last());
            }
        }
    }
}

} // verus!
