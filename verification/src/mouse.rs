use vstd::prelude::*;

use crate::app_model::{
    find_workspace, lemma_ws_index, session_ids_same, ws_index, ws_shape_same, AppModel, Effect, Focus, SidebarTab,
};
use crate::explorer::{expanded_position, has_listing, is_expanded, listing, rows_view, flatten_spec};
use crate::input::{MouseButton, MouseEvent, MouseEventKind};
use crate::keys::lemma_keep_invariants;
use crate::layout::{
    hit, hit_spec, on_resize_handle, sat_add, sat_sub, sidebar_width_for_drag, terminal_content_rect, Rect,
};
use crate::reports::{repeat_bytes, repeated, sgr_report, sgr_report_spec};
use crate::terminal_protocol::{sgr_mouse_button, sgr_mouse_button_spec};

verus! {

/// Click targets recorded while drawing a frame, for hit-testing the next
/// mouse event.
pub struct HitMap {
    pub topbar_tabs: Vec<(Rect, u128)>,
    pub sidebar_tabs: Vec<(Rect, SidebarTab)>,
    /// (row, index into the workspace's sessions, session id)
    pub agents_rows: Vec<(Rect, usize, u128)>,
    /// (row, index into the flattened tree, path, is_dir)
    pub explorer_rows: Vec<(Rect, usize, String, bool)>,
    pub terminal_area: Rect,
    /// The active sidebar tab's content rect.
    pub sidebar_content_area: Rect,
    /// (close-button cell, notification id)
    pub notification_close: Vec<(Rect, u64)>,
    /// The whole frame.
    pub full: Rect,
    /// The finder preview's content rect and manual-scroll limits.
    pub finder_preview_area: Rect,
    pub finder_preview_offset_min: i32,
    pub finder_preview_offset_max: i32,
}

impl HitMap {
    pub fn new() -> (r: HitMap)
        ensures
            r.topbar_tabs@.len() == 0,
            r.sidebar_tabs@.len() == 0,
            r.agents_rows@.len() == 0,
            r.explorer_rows@.len() == 0,
            r.notification_close@.len() == 0,
            r.terminal_area == (Rect { x: 0, y: 0, width: 0, height: 0 }),
            r.sidebar_content_area == (Rect { x: 0, y: 0, width: 0, height: 0 }),
            r.full == (Rect { x: 0, y: 0, width: 0, height: 0 }),
            r.finder_preview_area == (Rect { x: 0, y: 0, width: 0, height: 0 }),
            r.finder_preview_offset_min == 0,
            r.finder_preview_offset_max == 0,
    {
        HitMap {
            topbar_tabs: Vec::new(),
            sidebar_tabs: Vec::new(),
            agents_rows: Vec::new(),
            explorer_rows: Vec::new(),
            terminal_area: Rect::zero(),
            sidebar_content_area: Rect::zero(),
            notification_close: Vec::new(),
            full: Rect::zero(),
            finder_preview_area: Rect::zero(),
            finder_preview_offset_min: 0,
            finder_preview_offset_max: 0,
        }
    }
}

/// The index of the first rect containing `(x, y)`.
pub open spec fn first_hit(rects: Seq<Rect>, x: int, y: int) -> Option<int>
    decreases rects.len(),
{
    if rects.len() == 0 {
        None
    } else {
        match first_hit(rects.drop_last(), x, y) {
            Some(i) => Some(i),
            None => if hit_spec(rects.last(), x, y) {
                Some(rects.len() - 1)
            } else {
                None
            },
        }
    }
}

proof fn lemma_first_hit(rects: Seq<Rect>, x: int, y: int)
    ensures
        match first_hit(rects, x, y) {
            Some(i) => 0 <= i < rects.len() && hit_spec(rects[i], x, y),
            None => forall|k: int| 0 <= k < rects.len() ==> !hit_spec(rects[k], x, y),
        },
    decreases rects.len(),
{
    if rects.len() > 0 {
        assert(forall|k: int| 0 <= k < rects.len() - 1 ==> rects.drop_last()[k] == rects[k]);
        lemma_first_hit(rects.drop_last(), x, y);
    }
}

proof fn lemma_first_hit_prefix(rects: Seq<Rect>, x: int, y: int, k: int)
    requires
        0 <= k <= rects.len(),
        first_hit(rects.take(k), x, y) is Some,
    ensures
        first_hit(rects, x, y) == first_hit(rects.take(k), x, y),
    decreases rects.len() - k,
{
    if k < rects.len() {
        assert(rects.take(k + 1).drop_last() == rects.take(k));
        lemma_first_hit_prefix(rects, x, y, k + 1);
    } else {
        assert(rects.take(k) == rects);
    }
}

pub open spec fn topbar_rects(h: &HitMap) -> Seq<Rect> {
    h.topbar_tabs@.map_values(|e: (Rect, u128)| e.0)
}

pub open spec fn sidebar_tab_rects(h: &HitMap) -> Seq<Rect> {
    h.sidebar_tabs@.map_values(|e: (Rect, SidebarTab)| e.0)
}

pub open spec fn agent_rects(h: &HitMap) -> Seq<Rect> {
    h.agents_rows@.map_values(|e: (Rect, usize, u128)| e.0)
}

pub open spec fn explorer_rects(h: &HitMap) -> Seq<Rect> {
    h.explorer_rows@.map_values(|e: (Rect, usize, String, bool)| e.0)
}

pub open spec fn close_rects(h: &HitMap) -> Seq<Rect> {
    h.notification_close@.map_values(|e: (Rect, u64)| e.0)
}

/// Finds the first rect of `rects` holding `(x, y)`.
fn scan_hits(rects: &Vec<Rect>, x: u16, y: u16) -> (r: Option<usize>)
    ensures
        match r {
            Some(i) => first_hit(rects@, x as int, y as int) == Some(i as int),
            None => first_hit(rects@, x as int, y as int) is None,
        },
{
    let mut i: usize = 0;
    while i < rects.len()
        invariant
            i <= rects@.len(),
            first_hit(rects@.take(i as int), x as int, y as int) is None,
        decreases rects@.len() - i,
    {
        assert(rects@.take(i + 1).drop_last() == rects@.take(i as int));
        if hit(rects[i], x, y) {
            proof {
                lemma_first_hit_prefix(rects@, x as int, y as int, i as int + 1);
            }
            return Some(i);
        }
        i = i + 1;
    }
    assert(rects@.take(rects@.len() as int) == rects@);
    None
}

fn rects_of_topbar(h: &HitMap) -> (r: Vec<Rect>)
    ensures
        r@ == topbar_rects(h),
{
    let mut out: Vec<Rect> = Vec::new();
    let mut i: usize = 0;
    while i < h.topbar_tabs.len()
        invariant
            i <= h.topbar_tabs@.len(),
            out@ == topbar_rects(h).take(i as int),
        decreases h.topbar_tabs@.len() - i,
    {
        out.push(h.topbar_tabs[i].0);
        assert(topbar_rects(h).take(i + 1) == topbar_rects(h).take(i as int).push(h.topbar_tabs@[i as int].0));
        i = i + 1;
    }
    assert(topbar_rects(h).take(h.topbar_tabs@.len() as int) == topbar_rects(h));
    out
}

fn rects_of_sidebar_tabs(h: &HitMap) -> (r: Vec<Rect>)
    ensures
        r@ == sidebar_tab_rects(h),
{
    let mut out: Vec<Rect> = Vec::new();
    let mut i: usize = 0;
    while i < h.sidebar_tabs.len()
        invariant
            i <= h.sidebar_tabs@.len(),
            out@ == sidebar_tab_rects(h).take(i as int),
        decreases h.sidebar_tabs@.len() - i,
    {
        out.push(h.sidebar_tabs[i].0);
        assert(sidebar_tab_rects(h).take(i + 1) == sidebar_tab_rects(h).take(i as int).push(
            h.sidebar_tabs@[i as int].0,
        ));
        i = i + 1;
    }
    assert(sidebar_tab_rects(h).take(h.sidebar_tabs@.len() as int) == sidebar_tab_rects(h));
    out
}

fn rects_of_agents(h: &HitMap) -> (r: Vec<Rect>)
    ensures
        r@ == agent_rects(h),
{
    let mut out: Vec<Rect> = Vec::new();
    let mut i: usize = 0;
    while i < h.agents_rows.len()
        invariant
            i <= h.agents_rows@.len(),
            out@ == agent_rects(h).take(i as int),
        decreases h.agents_rows@.len() - i,
    {
        out.push(h.agents_rows[i].0);
        assert(agent_rects(h).take(i + 1) == agent_rects(h).take(i as int).push(h.agents_rows@[i as int].0));
        i = i + 1;
    }
    assert(agent_rects(h).take(h.agents_rows@.len() as int) == agent_rects(h));
    out
}

fn rects_of_explorer(h: &HitMap) -> (r: Vec<Rect>)
    ensures
        r@ == explorer_rects(h),
{
    let mut out: Vec<Rect> = Vec::new();
    let mut i: usize = 0;
    while i < h.explorer_rows.len()
        invariant
            i <= h.explorer_rows@.len(),
            out@ == explorer_rects(h).take(i as int),
        decreases h.explorer_rows@.len() - i,
    {
        out.push(h.explorer_rows[i].0);
        assert(explorer_rects(h).take(i + 1) == explorer_rects(h).take(i as int).push(
            h.explorer_rows@[i as int].0,
        ));
        i = i + 1;
    }
    assert(explorer_rects(h).take(h.explorer_rows@.len() as int) == explorer_rects(h));
    out
}

fn rects_of_close(h: &HitMap) -> (r: Vec<Rect>)
    ensures
        r@ == close_rects(h),
{
    let mut out: Vec<Rect> = Vec::new();
    let mut i: usize = 0;
    while i < h.notification_close.len()
        invariant
            i <= h.notification_close@.len(),
            out@ == close_rects(h).take(i as int),
        decreases h.notification_close@.len() - i,
    {
        out.push(h.notification_close[i].0);
        assert(close_rects(h).take(i + 1) == close_rects(h).take(i as int).push(
            h.notification_close@[i as int].0,
        ));
        i = i + 1;
    }
    assert(close_rects(h).take(h.notification_close@.len() as int) == close_rects(h));
    out
}

/// What a left click at a cell lands on, by the order of the frame's
/// targets: a workspace tab, a sidebar tab, an Agents row, an Explorer row,
/// the rest of the sidebar, the terminal pane.
pub enum ClickTarget {
    WorkspaceTab(u128),
    SidebarTab(SidebarTab),
    AgentRow(usize, u128),
    ExplorerRow(usize, String, bool),
    SidebarContent,
    Terminal,
    Nothing,
}

/// The click target at `(x, y)`, as the ordered hit tests decide it.
pub open spec fn click_target_ok(h: &HitMap, x: int, y: int, t: ClickTarget) -> bool {
    match first_hit(topbar_rects(h), x, y) {
        Some(i) => t == ClickTarget::WorkspaceTab(h.topbar_tabs@[i].1),
        None => match first_hit(sidebar_tab_rects(h), x, y) {
            Some(i) => t == ClickTarget::SidebarTab(h.sidebar_tabs@[i].1),
            None => match first_hit(agent_rects(h), x, y) {
                Some(i) => t == ClickTarget::AgentRow(h.agents_rows@[i].1, h.agents_rows@[i].2),
                None => match first_hit(explorer_rects(h), x, y) {
                    Some(i) => t matches ClickTarget::ExplorerRow(index, path, is_dir) && index
                        == h.explorer_rows@[i].1 && path@ == h.explorer_rows@[i].2@ && is_dir
                        == h.explorer_rows@[i].3,
                    None => if hit_spec(h.sidebar_content_area, x, y) {
                        t == ClickTarget::SidebarContent
                    } else if hit_spec(h.terminal_area, x, y) {
                        t == ClickTarget::Terminal
                    } else {
                        t == ClickTarget::Nothing
                    },
                },
            },
        },
    }
}

pub fn click_target(h: &HitMap, x: u16, y: u16) -> (r: ClickTarget)
    ensures
        click_target_ok(h, x as int, y as int, r),
{
    let topbar = rects_of_topbar(h);
    proof {
        lemma_first_hit(topbar@, x as int, y as int);
    }
    if let Some(i) = scan_hits(&topbar, x, y) {
        return ClickTarget::WorkspaceTab(h.topbar_tabs[i].1);
    }
    let tabs = rects_of_sidebar_tabs(h);
    proof {
        lemma_first_hit(tabs@, x as int, y as int);
    }
    if let Some(i) = scan_hits(&tabs, x, y) {
        return ClickTarget::SidebarTab(h.sidebar_tabs[i].1);
    }
    let agents = rects_of_agents(h);
    proof {
        lemma_first_hit(agents@, x as int, y as int);
    }
    if let Some(i) = scan_hits(&agents, x, y) {
        return ClickTarget::AgentRow(h.agents_rows[i].1, h.agents_rows[i].2);
    }
    let rows = rects_of_explorer(h);
    proof {
        lemma_first_hit(rows@, x as int, y as int);
    }
    if let Some(i) = scan_hits(&rows, x, y) {
        return ClickTarget::ExplorerRow(h.explorer_rows[i].1, h.explorer_rows[i].2.clone(), h.explorer_rows[i].3);
    }
    if hit(h.sidebar_content_area, x, y) {
        ClickTarget::SidebarContent
    } else if hit(h.terminal_area, x, y) {
        ClickTarget::Terminal
    } else {
        ClickTarget::Nothing
    }
}

/// The notification whose close button is at `(x, y)`, if any.
pub fn close_button_at(h: &HitMap, x: u16, y: u16) -> (r: Option<u64>)
    ensures
        match first_hit(close_rects(h), x as int, y as int) {
            Some(i) => r == Some(h.notification_close@[i].1),
            None => r is None,
        },
{
    let rects = rects_of_close(h);
    proof {
        lemma_first_hit(rects@, x as int, y as int);
    }
    match scan_hits(&rects, x, y) {
        Some(i) => Some(h.notification_close[i].1),
        None => None,
    }
}

/// A mouse position as a 1-based cell of `content`, as terminals report
/// it: the offset into the rect plus one, at least 1.
pub open spec fn report_coord(pos: int, origin: int) -> u16 {
    let c = sat_add(sat_sub(pos, origin), 1);
    (if c < 1 {
        1
    } else {
        c
    }) as u16
}

fn report_coord_exec(pos: u16, origin: u16) -> (r: u16)
    ensures
        r == report_coord(pos as int, origin as int),
{
    let c = pos.saturating_sub(origin).saturating_add(1);
    if c < 1 {
        1
    } else {
        c
    }
}

impl AppModel {
    /// The focused session claims this event: it is over the terminal
    /// content and the session asked for this kind of report.
    pub open spec fn claims(&self, h: &HitMap, mouse: MouseEvent, wants_mouse: bool, wants_motion: bool) -> bool {
        &&& hit_spec(
            terminal_content_rect_spec(h.terminal_area, !self.focus_mode),
            mouse.column as int,
            mouse.row as int,
        )
        &&& if mouse.kind == MouseEventKind::Moved {
            wants_motion
        } else {
            wants_mouse
        }
    }

    /// The event is forwarded to the focused session: it claims it, or a
    /// press it claimed is still held (hover it does not claim is dropped).
    pub open spec fn forwards(&self, h: &HitMap, mouse: MouseEvent, wants_mouse: bool, wants_motion: bool) -> bool {
        &&& !(mouse.kind == MouseEventKind::Moved && !self.claims(h, mouse, wants_mouse, wants_motion))
        &&& (self.forwarding_mouse || self.claims(h, mouse, wants_mouse, wants_motion))
    }

    /// Highlights and focuses an Agents row's session, focusing the terminal.
    fn click_agent_row(&mut self, index: usize, session_id: u128)
        requires
            old(self).wf(),
            old(self).indexes_ok(),
            old(self).finder_ok(),
        ensures
            final(self).wf(),
            final(self).indexes_ok(),
            final(self).finder_ok(),
            ws_shape_same(final(self).workspaces@, old(self).workspaces@),
            final(self).sessions@ == old(self).sessions@,
            final(self).modal == old(self).modal,
            final(self).fuzzy_finder == old(self).fuzzy_finder,
            final(self).active_workspace == old(self).active_workspace,
            final(self).focus == Focus::Terminal,
            old(self).active_index() is Some ==> {
                let n = final(self).workspaces@[old(self).active_index()->0];
                n.agents_selected == index && n.focused_session == Some(session_id)
            },
    {
        match self.active_index_exec() {
            Some(i) => {
                proof {
                    lemma_ws_index(self.workspaces@, self.active_workspace->0);
                }
                let ghost before = self.workspaces@;
                let mut entry = self.workspaces.remove(i);
                entry.agents_selected = index;
                entry.focused_session = Some(session_id);
                let ghost e = entry;
                self.workspaces.insert(i, entry);
                assert(self.workspaces@ =~= before.update(i as int, e));
            },
            None => {},
        }
        self.focus = Focus::Terminal;
        proof {
            lemma_keep_invariants(*self, *old(self));
        }
    }

    /// Highlights an Explorer row, focusing the sidebar; a directory row
    /// also expands or collapses.
    fn click_explorer_row(&mut self, index: usize, path: String, is_dir: bool) -> (r: Vec<Effect>)
        requires
            old(self).wf(),
            old(self).indexes_ok(),
            old(self).finder_ok(),
        ensures
            final(self).wf(),
            final(self).indexes_ok(),
            final(self).finder_ok(),
            ws_shape_same(final(self).workspaces@, old(self).workspaces@),
            final(self).sessions@ == old(self).sessions@,
            final(self).modal == old(self).modal,
            final(self).fuzzy_finder == old(self).fuzzy_finder,
            final(self).active_workspace == old(self).active_workspace,
            final(self).focus == Focus::Sidebar,
            old(self).active_index() is Some ==> {
                let w = old(self).workspaces@[old(self).active_index()->0];
                let n = final(self).workspaces@[old(self).active_index()->0];
                &&& n.explorer.selected == index
                &&& is_dir && is_expanded(w.explorer.expanded@, path@) ==> !is_expanded(n.explorer.expanded@, path@)
                    && r@.len() == 0
                &&& is_dir && !is_expanded(w.explorer.expanded@, path@) ==> is_expanded(n.explorer.expanded@, path@)
                    && (r@.len() == 1) == (listing(w.explorer.dirs@, path@) is None) && r@.len() <= 1
                &&& r@.len() == 1 ==> (r@[0] matches Effect::ListDir { workspace_id, path: p } && workspace_id
                    == w.id && p@ == path@)
                &&& !is_dir ==> n.explorer.expanded@ == w.explorer.expanded@ && r@.len() == 0
            },
            old(self).active_index() is None ==> r@.len() == 0,
    {
        let mut effects: Vec<Effect> = Vec::new();
        self.focus = Focus::Sidebar;
        match self.active_index_exec() {
            Some(i) => {
                proof {
                    lemma_ws_index(self.workspaces@, self.active_workspace->0);
                }
                let ghost before = self.workspaces@;
                let mut entry = self.workspaces.remove(i);
                entry.explorer.selected = index;
                if is_dir {
                    if entry.explorer.toggle_dir(&path) {
                        effects.push(Effect::ListDir { workspace_id: entry.id, path });
                    }
                }
                let ghost e = entry;
                self.workspaces.insert(i, entry);
                assert(self.workspaces@ =~= before.update(i as int, e));
            },
            None => {},
        }
        proof {
            lemma_keep_invariants(*self, *old(self));
        }
        effects
    }

    /// A left click on `target`: a workspace tab activates it; a sidebar tab
    /// shows it with focus on the sidebar; an Agents row highlights and
    /// focuses its session, with focus on the terminal; an Explorer row is
    /// highlighted (a directory also expands or collapses); elsewhere in the
    /// sidebar focuses it; the terminal pane focuses the terminal when a
    /// session is showing.
    pub fn handle_click(&mut self, target: ClickTarget) -> (r: Vec<Effect>)
        requires
            old(self).wf(),
            old(self).indexes_ok(),
            old(self).finder_ok(),
        ensures
            final(self).wf(),
            final(self).indexes_ok(),
            final(self).finder_ok(),
            final(self).sessions@ == old(self).sessions@,
            final(self).modal == old(self).modal,
            final(self).fuzzy_finder == old(self).fuzzy_finder,
            final(self).workspaces@.len() == old(self).workspaces@.len(),
            match target {
                ClickTarget::WorkspaceTab(id) => final(self).active_workspace == Some(id) && r@ == seq![
                    Effect::ResizeFocusedSession,
                ] && final(self).workspaces@ == old(self).workspaces@,
                ClickTarget::SidebarTab(tab) => {
                    &&& final(self).focus == Focus::Sidebar
                    &&& r@.len() == 0
                    &&& old(self).active_index() is Some ==> final(self).workspaces@[old(self).active_index()->0].sidebar_tab
                        == tab
                },
                ClickTarget::AgentRow(index, session_id) => {
                    &&& final(self).focus == Focus::Terminal
                    &&& r@ == seq![Effect::ResizeFocusedSession]
                    &&& old(self).active_index() is Some ==> {
                        let n = final(self).workspaces@[old(self).active_index()->0];
                        n.agents_selected == index && n.focused_session == Some(session_id)
                    }
                },
                ClickTarget::ExplorerRow(index, path, is_dir) => {
                    &&& final(self).focus == Focus::Sidebar
                    &&& old(self).active_index() is Some ==> {
                        let w = old(self).workspaces@[old(self).active_index()->0];
                        let n = final(self).workspaces@[old(self).active_index()->0];
                        &&& n.explorer.selected == index
                        &&& is_dir && is_expanded(w.explorer.expanded@, path@) ==> !is_expanded(
                            n.explorer.expanded@,
                            path@,
                        ) && r@.len() == 0
                        &&& is_dir && !is_expanded(w.explorer.expanded@, path@) ==> is_expanded(
                            n.explorer.expanded@,
                            path@,
                        ) && (r@.len() == 1) == (listing(w.explorer.dirs@, path@) is None) && r@.len() <= 1
                        &&& r@.len() == 1 ==> (r@[0] matches Effect::ListDir { workspace_id, path: p }
                            && workspace_id == w.id && p@ == path@)
                        &&& !is_dir ==> n.explorer.expanded@ == w.explorer.expanded@ && r@.len() == 0
                    }
                    &&& old(self).active_index() is None ==> r@.len() == 0
                },
                ClickTarget::SidebarContent => final(self).focus == Focus::Sidebar && r@.len() == 0
                    && final(self).workspaces@ == old(self).workspaces@,
                ClickTarget::Terminal => final(self).focus == (if old(self).focused_session_spec() is Some {
                    Focus::Terminal
                } else {
                    old(self).focus
                }) && r@.len() == 0 && final(self).workspaces@ == old(self).workspaces@,
                ClickTarget::Nothing => final(self).focus == old(self).focus && r@.len() == 0
                    && final(self).workspaces@ == old(self).workspaces@,
            },
    {
        let mut effects: Vec<Effect> = Vec::new();
        match target {
            ClickTarget::WorkspaceTab(id) => {
                self.active_workspace = Some(id);
                effects.push(Effect::ResizeFocusedSession);
            },
            ClickTarget::SidebarTab(tab) => {
                self.focus = Focus::Sidebar;
                self.set_sidebar_tab(tab);
                proof {
                    if let Some(id) = old(self).active_workspace {
                        lemma_ws_index(old(self).workspaces@, id);
                    }
                }
            },
            ClickTarget::AgentRow(index, session_id) => {
                self.click_agent_row(index, session_id);
                effects.push(Effect::ResizeFocusedSession);
            },
            ClickTarget::ExplorerRow(index, path, is_dir) => {
                effects = self.click_explorer_row(index, path, is_dir);
            },
            ClickTarget::SidebarContent => {
                self.focus = Focus::Sidebar;
            },
            ClickTarget::Terminal => {
                self.focus_terminal();
            },
            ClickTarget::Nothing => {},
        }
        proof {
            lemma_keep_invariants(*self, *old(self));
        }
        effects
    }

    /// A wheel flick over the sidebar moves the Explorer highlight by
    /// `ticks` (up is positive), clamped to the rows; the Explorer has no
    /// scroll offset of its own, it follows the highlight.
    pub fn scroll_sidebar(&mut self, ticks: i32)
        requires
            old(self).wf(),
            old(self).indexes_ok(),
            old(self).finder_ok(),
        ensures
            final(self).flags_same(old(self)),
            final(self).active_workspace == old(self).active_workspace,
            final(self).wf(),
            final(self).indexes_ok(),
            final(self).finder_ok(),
            final(self).sessions@ == old(self).sessions@,
            final(self).focus == old(self).focus,
            final(self).workspaces@.len() == old(self).workspaces@.len(),
            match old(self).active_index() {
                Some(i) => {
                    let w = old(self).workspaces@[i];
                    let n = final(self).workspaces@[i];
                    let len = flatten_spec(w.explorer.dirs@, w.explorer.expanded@, w.root@).len();
                    &&& n.explorer.selected == (if w.sidebar_tab == SidebarTab::Explorer && len > 0 {
                        crate::stable_scroll::clamp_int(w.explorer.selected - ticks, 0, len - 1) as usize
                    } else {
                        w.explorer.selected
                    })
                    &&& n.explorer.expanded@ == w.explorer.expanded@
                    &&& n.explorer.dirs@ == w.explorer.dirs@
                },
                None => final(self).workspaces@ == old(self).workspaces@,
            },
    {
        match self.active_index_exec() {
            Some(i) => {
                proof {
                    lemma_ws_index(self.workspaces@, self.active_workspace->0);
                }
                if self.workspaces[i].sidebar_tab == SidebarTab::Explorer {
                    let root = self.workspaces[i].root.clone();
                    let rows = self.workspaces[i].explorer.flatten(&root);
                    assert(rows@.len() == rows_view(rows@).len());
                    let len = rows.len();
                    if len > 0 {
                        let sel = self.workspaces[i].explorer.selected;
                        let want: i128 = sel as i128 - ticks as i128;
                        let next: usize = if want < 0 {
                            0
                        } else if want > (len - 1) as i128 {
                            len - 1
                        } else {
                            want as usize
                        };
                        let ghost before = self.workspaces@;
                        let mut entry = self.workspaces.remove(i);
                        entry.explorer.selected = next;
                        let ghost e = entry;
                        self.workspaces.insert(i, entry);
                        assert(self.workspaces@ =~= before.update(i as int, e));
                    }
                }
            },
            None => {},
        }
        proof {
            lemma_keep_invariants(*self, *old(self));
        }
    }

    /// The SGR report of `mouse` for the focused session, relative to the
    /// terminal content rect `content`.
    pub fn forward_mouse_report(&self, content: Rect, mouse: MouseEvent) -> (r: Option<Effect>)
        ensures
            match self.focused_session_spec() {
                Some(sid) => {
                    let (button, release) = sgr_mouse_button_spec(mouse.kind);
                    r matches Some(Effect::WriteToSession { session_id, bytes }) && session_id == sid && bytes@
                        == sgr_report_spec(
                        button,
                        report_coord(mouse.column as int, content.x as int),
                        report_coord(mouse.row as int, content.y as int),
                        release,
                    )
                },
                None => r is None,
            },
    {
        match self.focused_session_id() {
            Some(session_id) => match sgr_mouse_button(mouse.kind) {
                Some((button, release)) => {
                    let col = report_coord_exec(mouse.column, content.x);
                    let row = report_coord_exec(mouse.row, content.y);
                    Some(Effect::WriteToSession { session_id, bytes: sgr_report(button, col, row, release) })
                },
                None => None,
            },
            None => None,
        }
    }

    /// A mouse event outside the wheel: ignored under a modal or the
    /// finder. Hovering tracks which toast's close button is under the
    /// pointer. Events over the terminal content go to a session that asked
    /// for mouse reports (hover only when it asked for every motion), and
    /// keep going to it until the button that started there is released.
    /// Otherwise a left press closes a toast, starts a divider drag, or
    /// clicks; a drag resizes the sidebar; a release ends the drag.
    ///
    /// `wants_mouse`/`wants_motion` say whether the focused session's
    /// terminal asked for SGR mouse reports / for every pointer motion.
    pub fn on_mouse(&mut self, mouse: MouseEvent, h: &HitMap, wants_mouse: bool, wants_motion: bool) -> (r: Vec<
        Effect,
    >)
        requires
            old(self).wf(),
            old(self).indexes_ok(),
            old(self).finder_ok(),
            h.full.x + sat_sub(old(self).sidebar_width as int, 1) <= u16::MAX,
        ensures
            final(self).wf(),
            final(self).indexes_ok(),
            final(self).finder_ok(),
            final(self).sessions@ == old(self).sessions@,
            final(self).modal == old(self).modal,
            final(self).fuzzy_finder == old(self).fuzzy_finder,
            old(self).modal is Some || old(self).fuzzy_finder is Some ==> final(self).workspaces@ == old(self).workspaces@ && final(self).focus == old(self).focus && r@.len() == 0
                && final(self).hovered_notification == old(self).hovered_notification && final(self).forwarding_mouse
                == old(self).forwarding_mouse && final(self).resizing_sidebar == old(self).resizing_sidebar,
            old(self).modal is None && old(self).fuzzy_finder is None && mouse.kind == MouseEventKind::Moved
                ==> final(self).hovered_notification == match first_hit(
                close_rects(h),
                mouse.column as int,
                mouse.row as int,
            ) {
                Some(i) => Some(h.notification_close@[i].1),
                None => None,
            },
            old(self).modal is None && old(self).fuzzy_finder is None && mouse.kind == MouseEventKind::Moved
                && !old(self).claims(h, mouse, wants_mouse, wants_motion) ==> r@.len() == 0 && final(self).workspaces@
                == old(self).workspaces@ && final(self).focus == old(self).focus,
            old(self).modal is None && old(self).fuzzy_finder is None && old(self).forwards(
                h,
                mouse,
                wants_mouse,
                wants_motion,
            ) ==> {
                &&& final(self).forwarding_mouse == match mouse.kind {
                    MouseEventKind::Down(_) => true,
                    MouseEventKind::Up(_) => false,
                    _ => old(self).forwarding_mouse,
                }
                &&& final(self).workspaces@ == old(self).workspaces@
                &&& final(self).focus == old(self).focus
                &&& r@.len() <= 1
                &&& (r@.len() == 1) == (old(self).focused_session_spec() is Some)
            },
            old(self).modal is None && old(self).fuzzy_finder is None && mouse.kind != MouseEventKind::Moved
                && !old(self).forwards(h, mouse, wants_mouse, wants_motion) && mouse.kind == MouseEventKind::Up(
                MouseButton::Left,
            ) ==> !final(self).resizing_sidebar && r@.len() == 0,
            old(self).modal is None && old(self).fuzzy_finder is None && mouse.kind != MouseEventKind::Moved
                && !old(self).forwards(h, mouse, wants_mouse, wants_motion) && mouse.kind == MouseEventKind::Drag(
                MouseButton::Left,
            ) && old(self).resizing_sidebar ==> final(self).sidebar_width == sidebar_width_for_drag_spec(
                mouse.column,
                h.full,
            ) && r@ == seq![Effect::ResizeForLayout],
    {
        let mut effects: Vec<Effect> = Vec::new();
        if self.modal.is_some() || self.fuzzy_finder.is_some() {
            return effects;
        }
        let moved = mouse.kind == MouseEventKind::Moved;
        if moved {
            self.hovered_notification = close_button_at(h, mouse.column, mouse.row);
        }
        let content = terminal_content_rect(h.terminal_area, !self.focus_mode);
        let over = hit(content, mouse.column, mouse.row);
        let wants = if moved {
            wants_motion
        } else {
            wants_mouse
        };
        if moved && !(over && wants) {
            proof {
                lemma_keep_invariants(*self, *old(self));
            }
            return effects;
        }
        if self.forwarding_mouse || (over && wants) {
            match mouse.kind {
                MouseEventKind::Down(_) => self.forwarding_mouse = true,
                MouseEventKind::Up(_) => self.forwarding_mouse = false,
                _ => {},
            }
            match self.forward_mouse_report(content, mouse) {
                Some(e) => effects.push(e),
                None => {},
            }
            proof {
                lemma_keep_invariants(*self, *old(self));
            }
            return effects;
        }
        match mouse.kind {
            MouseEventKind::Down(MouseButton::Left) => {
                match close_button_at(h, mouse.column, mouse.row) {
                    Some(id) => effects.push(Effect::DismissNotification { id }),
                    None => {
                        if on_resize_handle(mouse.column, h.full.x, self.sidebar_width) {
                            self.resizing_sidebar = true;
                        } else {
                            let target = click_target(h, mouse.column, mouse.row);
                            effects = self.handle_click(target);
                        }
                    },
                }
            },
            MouseEventKind::Drag(MouseButton::Left) => {
                if self.resizing_sidebar {
                    self.sidebar_width = sidebar_width_for_drag(mouse.column, h.full);
                    effects.push(Effect::ResizeForLayout);
                }
            },
            MouseEventKind::Up(MouseButton::Left) => {
                self.resizing_sidebar = false;
            },
            _ => {},
        }
        proof {
            if !(mouse.kind == MouseEventKind::Down(MouseButton::Left)) {
                lemma_keep_invariants(*self, *old(self));
            }
        }
        effects
    }
}

/// `terminal_content_rect` as a spec.
pub open spec fn terminal_content_rect_spec(area: Rect, bordered: bool) -> Rect {
    if !bordered {
        area
    } else {
        Rect {
            x: sat_add(area.x as int, 1) as u16,
            y: sat_add(area.y as int, 1) as u16,
            width: sat_sub(area.width as int, 2) as u16,
            height: sat_sub(area.height as int, 2) as u16,
        }
    }
}

/// `sidebar_width_for_drag` as a spec.
pub open spec fn sidebar_width_for_drag_spec(column: u16, full: Rect) -> int {
    crate::layout::clamp_sidebar_width_spec(sat_add(sat_sub(column as int, full.x as int), 1), full.width as int)
}

impl AppModel {
    /// A coalesced wheel flick of `ticks` notches (up is positive). With
    /// the finder open it scrolls the preview when over it and is otherwise
    /// ignored, as under a modal. Over the sidebar it moves the Explorer
    /// highlight. Over the terminal content of a session that asked for
    /// mouse reports it becomes `|ticks|` wheel reports in one write.
    pub fn on_scroll_burst(&mut self, h: &HitMap, mouse: MouseEvent, ticks: i32, wants_mouse: bool) -> (r: Vec<
        Effect,
    >)
        requires
            old(self).wf(),
            old(self).indexes_ok(),
            old(self).finder_ok(),
            ticks > i32::MIN,
            h.finder_preview_offset_min <= h.finder_preview_offset_max,
        ensures
            final(self).wf(),
            final(self).indexes_ok(),
            final(self).finder_ok(),
            final(self).sessions@ == old(self).sessions@,
            final(self).modal == old(self).modal,
            final(self).focus == old(self).focus,
            ticks == 0 ==> r@.len() == 0 && final(self).workspaces@ == old(self).workspaces@ && final(self).fuzzy_finder
                == old(self).fuzzy_finder,
            ticks != 0 && old(self).fuzzy_finder is Some ==> {
                let f = old(self).fuzzy_finder->0;
                let n = final(self).fuzzy_finder->0;
                &&& r@.len() == 0
                &&& final(self).fuzzy_finder is Some
                &&& n.preview_scroll.offset_spec() == if hit_spec(
                    h.finder_preview_area,
                    mouse.column as int,
                    mouse.row as int,
                ) {
                    crate::stable_scroll::clamp_int(
                        f.preview_scroll.offset_spec() - ticks,
                        h.finder_preview_offset_min as int,
                        h.finder_preview_offset_max as int,
                    )
                } else {
                    f.preview_scroll.offset_spec() as int
                }
                &&& n.results@ == f.results@
                &&& n.selected == f.selected
            },
            ticks != 0 && old(self).fuzzy_finder is None ==> final(self).fuzzy_finder is None,
            ticks != 0 && old(self).fuzzy_finder is None && old(self).modal is Some ==> r@.len() == 0 && final(self).workspaces@ == old(self).workspaces@,
            ticks != 0 && old(self).fuzzy_finder is None && old(self).modal is None && !hit_spec(
                h.sidebar_content_area,
                mouse.column as int,
                mouse.row as int,
            ) ==> {
                let content = terminal_content_rect_spec(h.terminal_area, !old(self).focus_mode);
                &&& final(self).workspaces@ == old(self).workspaces@
                &&& if hit_spec(content, mouse.column as int, mouse.row as int) && wants_mouse
                    && old(self).focused_session_spec() is Some {
                    let button: u8 = if ticks > 0 {
                        64
                    } else {
                        65
                    };
                    let unit = sgr_report_spec(
                        button,
                        report_coord(mouse.column as int, content.x as int),
                        report_coord(mouse.row as int, content.y as int),
                        false,
                    );
                    &&& r@.len() == 1
                    &&& r@[0] matches Effect::WriteToSession { session_id, bytes } && Some(session_id) == old(self).focused_session_spec() && bytes@ == repeat_bytes(
                        unit,
                        (if ticks < 0 {
                            -ticks
                        } else {
                            ticks as int
                        }) as nat,
                    )
                } else {
                    r@.len() == 0
                }
            },
    {
        let mut effects: Vec<Effect> = Vec::new();
        if ticks == 0 {
            return effects;
        }
        if self.fuzzy_finder.is_some() {
            if hit(h.finder_preview_area, mouse.column, mouse.row) {
                let mut f = self.fuzzy_finder.take().unwrap();
                f.scroll_preview(-ticks, h.finder_preview_offset_min, h.finder_preview_offset_max);
                self.fuzzy_finder = Some(f);
            }
            return effects;
        }
        if self.modal.is_some() {
            return effects;
        }
        if hit(h.sidebar_content_area, mouse.column, mouse.row) {
            self.scroll_sidebar(ticks);
            return effects;
        }
        let content = terminal_content_rect(h.terminal_area, !self.focus_mode);
        if !hit(content, mouse.column, mouse.row) || !wants_mouse {
            return effects;
        }
        match self.focused_session_id() {
            Some(session_id) => {
                let button: u8 = if ticks > 0 {
                    64
                } else {
                    65
                };
                let col = report_coord_exec(mouse.column, content.x);
                let row = report_coord_exec(mouse.row, content.y);
                let unit = sgr_report(button, col, row, false);
                let count: u32 = if ticks < 0 {
                    (-ticks) as u32
                } else {
                    ticks as u32
                };
                effects.push(Effect::WriteToSession { session_id, bytes: repeated(&unit, count) });
            },
            None => {},
        }
        effects
    }
}

} // verus!
