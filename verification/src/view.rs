use vstd::prelude::*;

use crate::app_model::{
    lemma_session_index, find_session, session_index, AppModel, Focus, RuntimeStatus, SidebarTab, WorkspaceModel,
};
use crate::clock::unix_millis;
use crate::i18n::{interpolate, placeholder, t, Catalog};
use crate::text::replace_all;
use crate::layout::{sat_sub, Rect};
use crate::modal::Modal;
use crate::text::{chars_of, string_from_chars};

verus! {

// ---------------------------------------------------------------------------
// Session status

/// The status glyph and the translation key of its label.
pub open spec fn status_glyph(status: RuntimeStatus) -> char {
    match status {
        RuntimeStatus::Thinking => '\u{25cf}',
        RuntimeStatus::Idle => '\u{25cb}',
        RuntimeStatus::Waiting => '\u{25c6}',
    }
}

/// `" <glyph> <label>"` for a session status, empty without one: shared by
/// the Focus Mode status line and the terminal pane's title.
pub fn session_status_text(catalog: &Catalog, status: Option<RuntimeStatus>) -> (r: String)
    ensures
        match status {
            None => r@.len() == 0,
            Some(RuntimeStatus::Thinking) => r@ == seq![' ', status_glyph(RuntimeStatus::Thinking), ' ']
                + catalog.resolve_spec("session.status.thinking"@),
            Some(RuntimeStatus::Idle) => r@ == seq![' ', status_glyph(RuntimeStatus::Idle), ' ']
                + catalog.resolve_spec("session.status.idle"@),
            Some(RuntimeStatus::Waiting) => r@ == seq![' ', status_glyph(RuntimeStatus::Waiting), ' ']
                + catalog.resolve_spec("session.status.waiting"@),
        },
{
    let (glyph, label) = match status {
        None => {
            return String::new();
        },
        Some(RuntimeStatus::Thinking) => ('\u{25cf}', t(catalog, "session.status.thinking", &[])),
        Some(RuntimeStatus::Idle) => ('\u{25cb}', t(catalog, "session.status.idle", &[])),
        Some(RuntimeStatus::Waiting) => ('\u{25c6}', t(catalog, "session.status.waiting", &[])),
    };
    let mut out: Vec<char> = Vec::new();
    out.push(' ');
    out.push(glyph);
    out.push(' ');
    let mut rest = chars_of(label.as_str());
    out.append(&mut rest);
    string_from_chars(out.as_slice())
}

// ---------------------------------------------------------------------------
// Time-driven animation

/// The frames of the "thinking" spinner.
pub open spec fn spinner_frames() -> Seq<char> {
    seq!['\u{283b}', '\u{283d}', '\u{283e}', '\u{2837}', '\u{282f}', '\u{281f}']
}

/// The spinner frame shown at `millis`: one frame per 120 ms.
pub open spec fn spinner_frame_spec(millis: u128) -> char {
    spinner_frames()[(((millis / 120) as usize) % 6) as int]
}

pub fn spinner_frame_at(millis: u128) -> (r: char)
    ensures
        r == spinner_frame_spec(millis),
{
    let frames = ['\u{283b}', '\u{283d}', '\u{283e}', '\u{2837}', '\u{282f}', '\u{281f}'];
    let idx = ((millis / 120) as usize) % 6;
    assert(frames@ == spinner_frames());
    frames[idx]
}

/// The spinner frame for the current wall-clock time.
pub fn spinner_frame() -> (r: char)
    ensures
        exists|millis: u128| r == spinner_frame_spec(millis),
{
    let now = unix_millis();
    let r = spinner_frame_at(now);
    assert(r == spinner_frame_spec(now));
    r
}

/// Whether a blinking indicator is in its "on" phase at `millis`,
/// alternating every `period_ms`.
pub open spec fn blink_on_spec(millis: u128, period_ms: u128) -> bool {
    (millis / period_ms) % 2 == 0
}

pub fn on_at(millis: u128, period_ms: u128) -> (r: bool)
    requires
        period_ms > 0,
    ensures
        r == blink_on_spec(millis, period_ms),
{
    (millis / period_ms) % 2 == 0
}

/// Whether a blinking indicator is "on" now.
pub fn on(period_ms: u128) -> (r: bool)
    requires
        period_ms > 0,
    ensures
        exists|millis: u128| r == blink_on_spec(millis, period_ms),
{
    let now = unix_millis();
    let r = on_at(now, period_ms);
    assert(r == blink_on_spec(now, period_ms));
    r
}

// ---------------------------------------------------------------------------
// Topbar

/// What a workspace tab flags: a session waiting on the user outranks one
/// that finished unseen.
#[derive(Debug, Clone, Copy, PartialEq, Eq, Structural)]
pub enum TabIndicator {
    Waiting,
    Unread,
}

/// The indicator for the sessions `ids` of a workspace, looking each up in
/// `sessions` (ids without an entry are skipped).
pub open spec fn tab_indicator_spec(sessions: Seq<crate::app_model::SessionModel>, ids: Seq<u128>) -> Option<TabIndicator> {
    if exists|k: int| 0 <= k < ids.len() && #[trigger] waiting_at(sessions, ids[k]) {
        Some(TabIndicator::Waiting)
    } else if exists|k: int| 0 <= k < ids.len() && #[trigger] unread_at(sessions, ids[k]) {
        Some(TabIndicator::Unread)
    } else {
        None
    }
}

/// The session `id` is recorded and waiting on the user.
pub open spec fn waiting_at(sessions: Seq<crate::app_model::SessionModel>, id: u128) -> bool {
    match session_index(sessions, id) {
        Some(i) => sessions[i].status == Some(RuntimeStatus::Waiting),
        None => false,
    }
}

/// The session `id` is recorded and unread.
pub open spec fn unread_at(sessions: Seq<crate::app_model::SessionModel>, id: u128) -> bool {
    match session_index(sessions, id) {
        Some(i) => sessions[i].unread,
        None => false,
    }
}

impl AppModel {
    /// The tab indicator of workspace entry `w`.
    pub fn tab_indicator(&self, w: &WorkspaceModel) -> (r: Option<TabIndicator>)
        ensures
            r == tab_indicator_spec(self.sessions@, w.sessions@),
    {
        let mut any_unread = false;
        let mut k: usize = 0;
        while k < w.sessions.len()
            invariant
                k <= w.sessions@.len(),
                forall|j: int| 0 <= j < k ==> !#[trigger] waiting_at(self.sessions@, w.sessions@[j]),
                any_unread == exists|j: int| 0 <= j < k && #[trigger] unread_at(self.sessions@, w.sessions@[j]),
            decreases w.sessions@.len() - k,
        {
            let id = w.sessions[k];
            proof {
                lemma_session_index(self.sessions@, id);
            }
            match find_session(&self.sessions, id) {
                Some(i) => {
                    if self.sessions[i].status == Some(RuntimeStatus::Waiting) {
                        assert(waiting_at(self.sessions@, w.sessions@[k as int]));
                        return Some(TabIndicator::Waiting);
                    }
                    if self.sessions[i].unread {
                        assert(unread_at(self.sessions@, w.sessions@[k as int]));
                        any_unread = true;
                    }
                },
                None => {},
            }
            k = k + 1;
        }
        if any_unread {
            Some(TabIndicator::Unread)
        } else {
            None
        }
    }
}

// ---------------------------------------------------------------------------
// Status bar

/// Which hint rows the status bar shows.
#[derive(Debug, Clone, Copy, PartialEq, Eq, Structural)]
pub enum HintContext {
    FocusMode,
    Terminal,
    Agents,
    Explorer,
}

impl AppModel {
    /// The status bar's context: Focus Mode has its own line; otherwise the
    /// focused pane's hints, the sidebar showing its active tab's (Agents
    /// when no workspace is active).
    pub fn hint_context(&self) -> (r: HintContext)
        ensures
            r == (if self.focus_mode {
                HintContext::FocusMode
            } else if self.focus == Focus::Terminal {
                HintContext::Terminal
            } else {
                match self.active_index() {
                    Some(i) => if self.workspaces@[i].sidebar_tab == SidebarTab::Explorer {
                        HintContext::Explorer
                    } else {
                        HintContext::Agents
                    },
                    None => HintContext::Agents,
                }
            }),
    {
        if self.focus_mode {
            return HintContext::FocusMode;
        }
        if self.focus == Focus::Terminal {
            return HintContext::Terminal;
        }
        match self.active_index_exec() {
            Some(i) => {
                proof {
                    crate::app_model::lemma_ws_index(self.workspaces@, self.active_workspace->0);
                }
                match self.workspaces[i].sidebar_tab {
                    SidebarTab::Explorer => HintContext::Explorer,
                    SidebarTab::Agents => HintContext::Agents,
                }
            },
            None => HintContext::Agents,
        }
    }

    /// Whether the Agents list's Enter hint is live: the active workspace
    /// has a session to focus.
    pub fn agents_enter_enabled(&self) -> (r: bool)
        ensures
            r == match self.active_index() {
                Some(i) => self.workspaces@[i].sessions@.len() > 0,
                None => false,
            },
    {
        match self.active_index_exec() {
            Some(i) => {
                proof {
                    crate::app_model::lemma_ws_index(self.workspaces@, self.active_workspace->0);
                }
                self.workspaces[i].sessions.len() > 0
            },
            None => false,
        }
    }
}

// ---------------------------------------------------------------------------
// Colors

/// A terminal color, named, indexed or RGB.
#[derive(Debug, Clone, Copy, PartialEq, Eq, Structural)]
pub enum Color {
    Reset,
    Black,
    Red,
    Green,
    Yellow,
    Blue,
    Magenta,
    Cyan,
    Gray,
    DarkGray,
    LightRed,
    LightGreen,
    LightYellow,
    LightBlue,
    LightMagenta,
    LightCyan,
    White,
    Rgb(u8, u8, u8),
    Indexed(u8),
}

/// An RGB triple approximating `color`, so every color can be dimmed the
/// same way; a color without one (reset, indexed) reads as a dark gray.
pub open spec fn to_rgb_spec(color: Color) -> (u8, u8, u8) {
    match color {
        Color::Rgb(r, g, b) => (r, g, b),
        Color::Black => (0, 0, 0),
        Color::Red => (205, 0, 0),
        Color::Green => (0, 205, 0),
        Color::Yellow => (205, 205, 0),
        Color::Blue => (0, 0, 238),
        Color::Magenta => (205, 0, 205),
        Color::Cyan => (0, 205, 205),
        Color::Gray => (229, 229, 229),
        Color::DarkGray => (127, 127, 127),
        Color::LightRed => (255, 0, 0),
        Color::LightGreen => (0, 255, 0),
        Color::LightYellow => (255, 255, 0),
        Color::LightBlue => (92, 92, 255),
        Color::LightMagenta => (255, 0, 255),
        Color::LightCyan => (0, 255, 255),
        Color::White => (255, 255, 255),
        _ => (40, 40, 40),
    }
}

pub fn to_rgb(color: Color) -> (r: (u8, u8, u8))
    ensures
        r == to_rgb_spec(color),
{
    match color {
        Color::Rgb(r, g, b) => (r, g, b),
        Color::Black => (0, 0, 0),
        Color::Red => (205, 0, 0),
        Color::Green => (0, 205, 0),
        Color::Yellow => (205, 205, 0),
        Color::Blue => (0, 0, 238),
        Color::Magenta => (205, 0, 205),
        Color::Cyan => (0, 205, 205),
        Color::Gray => (229, 229, 229),
        Color::DarkGray => (127, 127, 127),
        Color::LightRed => (255, 0, 0),
        Color::LightGreen => (0, 255, 0),
        Color::LightYellow => (255, 255, 0),
        Color::LightBlue => (92, 92, 255),
        Color::LightMagenta => (255, 0, 255),
        Color::LightCyan => (0, 255, 255),
        Color::White => (255, 255, 255),
        _ => (40, 40, 40),
    }
}

// ---------------------------------------------------------------------------
// Toast stack

pub const CARD_WIDTH: u16 = 42;

pub const CARD_HEIGHT: u16 = 4;

pub const CARD_MARGIN: u16 = 1;

/// Clearance above the status bar.
pub const CARD_BOTTOM_MARGIN: u16 = 3;

pub const CARD_GAP: u16 = 1;

/// Row of the newest card: `BOTTOM_MARGIN + CARD_HEIGHT` above the bottom.
pub open spec fn first_card_y(area: Rect) -> int {
    area.y + sat_sub(area.height as int, (CARD_BOTTOM_MARGIN + CARD_HEIGHT) as int)
}

/// How many of `count` toasts fit, stacking upward from the newest.
pub open spec fn cards_shown(area: Rect, count: int) -> int {
    let width = if CARD_WIDTH < sat_sub(area.width as int, 2) {
        CARD_WIDTH as int
    } else {
        sat_sub(area.width as int, 2)
    };
    if width == 0 || count == 0 {
        0
    } else {
        let fit = (first_card_y(area) - area.y) / ((CARD_HEIGHT + CARD_GAP) as int) + 1;
        if count < fit {
            count
        } else {
            fit
        }
    }
}

/// The card rects of the toast stack in `area`, newest first: anchored
/// bottom-left, each older card one card and a gap higher, as many as fit.
pub fn toast_cards(area: Rect, count: usize) -> (r: Vec<Rect>)
    requires
        area.y + area.height <= u16::MAX,
        area.x + area.width <= u16::MAX,
    ensures
        r@.len() == cards_shown(area, count as int),
        forall|k: int|
            0 <= k < r@.len() ==> (#[trigger] r@[k]) == (Rect {
                x: (area.x + CARD_MARGIN) as u16,
                y: (first_card_y(area) - k * (CARD_HEIGHT + CARD_GAP)) as u16,
                width: (if CARD_WIDTH < sat_sub(area.width as int, 2) {
                    CARD_WIDTH as int
                } else {
                    sat_sub(area.width as int, 2)
                }) as u16,
                height: CARD_HEIGHT,
            }),
{
    let avail = area.width.saturating_sub(CARD_MARGIN * 2);
    let width = if CARD_WIDTH < avail {
        CARD_WIDTH
    } else {
        avail
    };
    let mut cards: Vec<Rect> = Vec::new();
    if width == 0 || count == 0 {
        return cards;
    }
    let mut y: u16 = area.y + area.height.saturating_sub(CARD_BOTTOM_MARGIN + CARD_HEIGHT);
    let step: u16 = CARD_HEIGHT + CARD_GAP;
    let ghost y0 = y as int;
    let ghost fit = (y0 - area.y) / 5 + 1;
    let mut done = false;
    while !done && cards.len() < count
        invariant
            y0 == first_card_y(area),
            fit == (y0 - area.y) / 5 + 1,
            y0 >= area.y,
            step == 5,
            cards@.len() <= fit,
            cards@.len() <= count,
            !done ==> cards@.len() < fit && y == y0 - cards@.len() * 5 && area.y <= y,
            done ==> cards@.len() == fit,
            count > 0,
            width > 0,
            area.x + area.width <= u16::MAX,
            width == (if CARD_WIDTH < sat_sub(area.width as int, 2) {
                CARD_WIDTH as int
            } else {
                sat_sub(area.width as int, 2)
            }),
            forall|k: int|
                0 <= k < cards@.len() ==> (#[trigger] cards@[k]) == (Rect {
                    x: (area.x + CARD_MARGIN) as u16,
                    y: (y0 - k * 5) as u16,
                    width,
                    height: CARD_HEIGHT,
                }),
        decreases count - cards@.len(),
    {
        cards.push(Rect { x: area.x + CARD_MARGIN, y, width, height: CARD_HEIGHT });
        if y - area.y < step {
            assert(cards@.len() == fit) by (nonlinear_arith)
                requires
                    y == y0 - (cards@.len() - 1) * 5,
                    y - area.y < 5,
                    area.y <= y,
                    fit == (y0 - area.y) / 5 + 1,
            ;
            done = true;
        } else {
            y = y - step;
            assert(cards@.len() < fit) by (nonlinear_arith)
                requires
                    y == y0 - cards@.len() * 5,
                    area.y <= y,
                    fit == (y0 - area.y) / 5 + 1,
            ;
        }
    }
    cards
}

// ---------------------------------------------------------------------------
// Modal text

/// `text` with `{name}` replaced by `value`.
pub open spec fn fill(text: Seq<char>, name: Seq<char>, value: Seq<char>) -> Seq<char> {
    replace_all(text, placeholder(name), value)
}

fn t1(catalog: &Catalog, key: &str, name: &str, value: &str) -> (r: String)
    ensures
        r@ == fill(catalog.resolve_spec(key@), name@, value@),
{
    let params = [(name, value)];
    let r = t(catalog, key, &params);
    proof {
        reveal_with_fuel(interpolate, 2);
        assert(params@.skip(1).len() == 0);
    }
    r
}

fn t2(catalog: &Catalog, key: &str, name1: &str, value1: &str, name2: &str, value2: &str) -> (r: String)
    ensures
        r@ == fill(fill(catalog.resolve_spec(key@), name1@, value1@), name2@, value2@),
{
    let params = [(name1, value1), (name2, value2)];
    let r = t(catalog, key, &params);
    proof {
        reveal_with_fuel(interpolate, 3);
        assert(params@.skip(1)[0] == (name2, value2));
        assert(params@.skip(1).skip(1).len() == 0);
    }
    r
}

fn t0(catalog: &Catalog, key: &str) -> (r: String)
    ensures
        r@ == catalog.resolve_spec(key@),
{
    t(catalog, key, &[])
}

/// A modal's title, its body text, and whether it is a text prompt (rather
/// than a yes/no confirmation). Bodies show the typed input and the path
/// the modal is about.
pub fn modal_text(catalog: &Catalog, modal: &Modal) -> (r: (String, String, bool))
    ensures
        match modal {
            Modal::NewWorkspacePath { input } => r.0@ == catalog.resolve_spec("modal.new_workspace.title"@) && r.1@
                == fill(catalog.resolve_spec("modal.new_workspace.body"@), "input"@, input@) && r.2,
            Modal::RenameSession { input, .. } => r.0@ == catalog.resolve_spec("modal.rename_session.title"@) && r.1@
                == fill(catalog.resolve_spec("modal.rename_session.body"@), "input"@, input@) && r.2,
            Modal::NewFile { dir, input, .. } => r.0@ == catalog.resolve_spec("modal.new_file.title"@) && r.1@ == fill(
                fill(catalog.resolve_spec("modal.new_file.body"@), "dir"@, dir@),
                "input"@,
                input@,
            ) && r.2,
            Modal::NewDir { dir, input, .. } => r.0@ == catalog.resolve_spec("modal.new_dir.title"@) && r.1@ == fill(
                fill(catalog.resolve_spec("modal.new_dir.body"@), "dir"@, dir@),
                "input"@,
                input@,
            ) && r.2,
            Modal::RenamePath { from, input, .. } => r.0@ == catalog.resolve_spec("modal.rename_path.title"@) && r.1@
                == fill(fill(catalog.resolve_spec("modal.rename_path.body"@), "from"@, from@), "input"@, input@) && r.2,
            Modal::ConfirmCloseSession { .. } => r.0@ == catalog.resolve_spec("modal.confirm_close_session.title"@)
                && r.1@ == catalog.resolve_spec("modal.confirm_close_session.body"@) && !r.2,
            Modal::ConfirmCloseWorkspace { .. } => r.0@ == catalog.resolve_spec(
                "modal.confirm_close_workspace.title"@,
            ) && r.1@ == catalog.resolve_spec("modal.confirm_close_workspace.body"@) && !r.2,
            Modal::ConfirmDeletePath { path, .. } => r.0@ == catalog.resolve_spec("modal.confirm_delete_path.title"@)
                && r.1@ == fill(catalog.resolve_spec("modal.confirm_delete_path.body"@), "path"@, path@) && !r.2,
        },
{
    match modal {
        Modal::NewWorkspacePath { input } => (
            t0(catalog, "modal.new_workspace.title"),
            t1(catalog, "modal.new_workspace.body", "input", input.as_str()),
            true,
        ),
        Modal::RenameSession { input, .. } => (
            t0(catalog, "modal.rename_session.title"),
            t1(catalog, "modal.rename_session.body", "input", input.as_str()),
            true,
        ),
        Modal::NewFile { dir, input, .. } => (
            t0(catalog, "modal.new_file.title"),
            t2(catalog, "modal.new_file.body", "dir", dir.as_str(), "input", input.as_str()),
            true,
        ),
        Modal::NewDir { dir, input, .. } => (
            t0(catalog, "modal.new_dir.title"),
            t2(catalog, "modal.new_dir.body", "dir", dir.as_str(), "input", input.as_str()),
            true,
        ),
        Modal::RenamePath { from, input, .. } => (
            t0(catalog, "modal.rename_path.title"),
            t2(catalog, "modal.rename_path.body", "from", from.as_str(), "input", input.as_str()),
            true,
        ),
        Modal::ConfirmCloseSession { .. } => (
            t0(catalog, "modal.confirm_close_session.title"),
            t0(catalog, "modal.confirm_close_session.body"),
            false,
        ),
        Modal::ConfirmCloseWorkspace { .. } => (
            t0(catalog, "modal.confirm_close_workspace.title"),
            t0(catalog, "modal.confirm_close_workspace.body"),
            false,
        ),
        Modal::ConfirmDeletePath { path, .. } => (
            t0(catalog, "modal.confirm_delete_path.title"),
            t1(catalog, "modal.confirm_delete_path.body", "path", path.as_str()),
            false,
        ),
    }
}

} // verus!
