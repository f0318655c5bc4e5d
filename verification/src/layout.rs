use vstd::prelude::*;

use ratatui::layout as rl;

verus! {

pub const DEFAULT_SIDEBAR_WIDTH: u16 = 34;

pub const MIN_SIDEBAR_WIDTH: u16 = 20;

/// Columns the terminal pane keeps at minimum when the sidebar is dragged wide.
pub const MIN_TERMINAL_WIDTH: u16 = 30;

/// A rectangle of terminal cells.
#[derive(Clone, Copy, Debug, PartialEq, Eq, Structural)]
pub struct Rect {
    pub x: u16,
    pub y: u16,
    pub width: u16,
    pub height: u16,
}

impl Rect {
    /// The empty rectangle at the origin.
    pub fn zero() -> (r: Rect)
        ensures
            r == (Rect { x: 0, y: 0, width: 0, height: 0 }),
    {
        Rect { x: 0, y: 0, width: 0, height: 0 }
    }
}

/// `a + b` saturating at `u16::MAX`.
pub open spec fn sat_add(a: int, b: int) -> int {
    if a + b > u16::MAX {
        u16::MAX as int
    } else {
        a + b
    }
}

/// `a - b` saturating at 0.
pub open spec fn sat_sub(a: int, b: int) -> int {
    if a >= b {
        a - b
    } else {
        0
    }
}

/// Whether cell `(x, y)` lies inside `rect` (edges computed saturating).
pub open spec fn hit_spec(rect: Rect, x: int, y: int) -> bool {
    x >= rect.x && x < sat_add(rect.x as int, rect.width as int) && y >= rect.y && y < sat_add(
        rect.y as int,
        rect.height as int,
    )
}

pub fn hit(rect: Rect, x: u16, y: u16) -> (r: bool)
    ensures
        r == hit_spec(rect, x as int, y as int),
{
    x >= rect.x && x < rect.x.saturating_add(rect.width) && y >= rect.y && y < rect.y.saturating_add(
        rect.height,
    )
}

/// Sidebar width clamped so both the sidebar and the terminal pane keep
/// their minimum widths (the sidebar minimum wins when they conflict).
pub open spec fn clamp_sidebar_width_spec(width: int, full_width: int) -> int {
    let max = if sat_sub(full_width, MIN_TERMINAL_WIDTH as int) > MIN_SIDEBAR_WIDTH {
        sat_sub(full_width, MIN_TERMINAL_WIDTH as int)
    } else {
        MIN_SIDEBAR_WIDTH as int
    };
    if width < MIN_SIDEBAR_WIDTH {
        MIN_SIDEBAR_WIDTH as int
    } else if width > max {
        max
    } else {
        width
    }
}

pub fn clamp_sidebar_width(width: u16, full_width: u16) -> (r: u16)
    ensures
        r == clamp_sidebar_width_spec(width as int, full_width as int),
        MIN_SIDEBAR_WIDTH <= r,
{
    let max = full_width.saturating_sub(MIN_TERMINAL_WIDTH);
    let max = if max > MIN_SIDEBAR_WIDTH {
        max
    } else {
        MIN_SIDEBAR_WIDTH
    };
    if width < MIN_SIDEBAR_WIDTH {
        MIN_SIDEBAR_WIDTH
    } else if width > max {
        max
    } else {
        width
    }
}

/// PTY size `(cols, rows)` for a terminal pane, minus the border when there is one.
pub fn pty_content_size(terminal_area: Rect, bordered: bool) -> (r: (u16, u16))
    ensures
        r == if bordered {
            (
                sat_sub(terminal_area.width as int, 2) as u16,
                sat_sub(terminal_area.height as int, 2) as u16,
            )
        } else {
            (terminal_area.width, terminal_area.height)
        },
{
    if bordered {
        (terminal_area.width.saturating_sub(2), terminal_area.height.saturating_sub(2))
    } else {
        (terminal_area.width, terminal_area.height)
    }
}

/// The PTY content rect inside the terminal pane: the pane itself without a
/// border, one cell in from each side with one.
pub fn terminal_content_rect(area: Rect, bordered: bool) -> (r: Rect)
    ensures
        !bordered ==> r == area,
        bordered ==> r == (Rect {
            x: sat_add(area.x as int, 1) as u16,
            y: sat_add(area.y as int, 1) as u16,
            width: sat_sub(area.width as int, 2) as u16,
            height: sat_sub(area.height as int, 2) as u16,
        }),
{
    if !bordered {
        return area;
    }
    Rect {
        x: area.x.saturating_add(1),
        y: area.y.saturating_add(1),
        width: area.width.saturating_sub(2),
        height: area.height.saturating_sub(2),
    }
}

/// Whether `column` is on the two-column sidebar/terminal divider of a frame
/// starting at `full_x` with a sidebar `sidebar_width` wide.
pub fn on_resize_handle(column: u16, full_x: u16, sidebar_width: u16) -> (r: bool)
    requires
        full_x + sat_sub(sidebar_width as int, 1) <= u16::MAX,
    ensures
        r == (column == full_x + sat_sub(sidebar_width as int, 1) || column == sat_add(
            full_x + sat_sub(sidebar_width as int, 1),
            1,
        )),
{
    let border_x = full_x + sidebar_width.saturating_sub(1);
    column == border_x || column == border_x.saturating_add(1)
}

/// The sidebar width a divider drag to `column` asks for, clamped.
pub fn sidebar_width_for_drag(column: u16, full: Rect) -> (r: u16)
    ensures
        r == clamp_sidebar_width_spec(
            sat_add(sat_sub(column as int, full.x as int), 1),
            full.width as int,
        ),
{
    let width = column.saturating_sub(full.x).saturating_add(1);
    clamp_sidebar_width(width, full.width)
}

/// A sizing rule for one segment of a layout split.
#[derive(Clone, Copy, Debug, PartialEq, Eq, Structural)]
pub enum Constraint {
    Length(u16),
    Min(u16),
    Ratio(u32, u32),
}

#[derive(Clone, Copy, Debug, PartialEq, Eq, Structural)]
pub enum Direction {
    Horizontal,
    Vertical,
}

/// `part` lies inside `area`.
pub open spec fn within(part: Rect, area: Rect) -> bool {
    &&& area.x <= part.x
    &&& part.x + part.width <= area.x + area.width
    &&& area.y <= part.y
    &&& part.y + part.height <= area.y + area.height
}

/// `part` is a slice of `area` cut along `direction`: it lies inside the
/// area and spans it whole across the other axis.
pub open spec fn slice_of(part: Rect, area: Rect, direction: Direction) -> bool {
    &&& within(part, area)
    &&& match direction {
        Direction::Horizontal => part.y == area.y && part.height == area.height,
        Direction::Vertical => part.x == area.x && part.width == area.width,
    }
}

/// `parts` are `n` slices of `area` cut along `direction`.
pub open spec fn slices_of(parts: Seq<Rect>, area: Rect, direction: Direction, n: nat) -> bool {
    &&& parts.len() == n
    &&& forall|i: int| 0 <= i < parts.len() ==> slice_of(#[trigger] parts[i], area, direction)
}

/// `ratatui::layout::Layout::split` with default margins, spacing and flex:
/// one rect per constraint. Each rect copies the area's other axis
/// (`changes_to_rects`) and lies between the area's start and end along
/// the split, which the solver holds as required constraints. Where each
/// one starts, and whether neighbours touch or overlap, is left unsaid:
/// the solver only prefers, without requiring, empty gaps, and picks its
/// pivots by walking `HashMap`s, whose order is seeded per process.
#[verifier::external_body]
fn layout_split(area: Rect, direction: Direction, constraints: &Vec<Constraint>) -> (r: Vec<Rect>)
    ensures
        slices_of(r@, area, direction, constraints@.len()),
{
    let dir = match direction {
        Direction::Horizontal => rl::Direction::Horizontal,
        Direction::Vertical => rl::Direction::Vertical,
    };
    let cs = constraints.iter().map(|c| match c {
        Constraint::Length(n) => rl::Constraint::Length(*n),
        Constraint::Min(n) => rl::Constraint::Min(*n),
        Constraint::Ratio(a, b) => rl::Constraint::Ratio(*a, *b),
    });
    let outer = rl::Rect { x: area.x, y: area.y, width: area.width, height: area.height };
    let parts = rl::Layout::new(dir, cs).split(outer);
    parts.iter().map(|r| Rect { x: r.x, y: r.y, width: r.width, height: r.height }).collect()
}

/// The frame's regions.
#[derive(Clone, Copy, Debug, PartialEq, Eq, Structural)]
pub struct Regions {
    pub topbar: Rect,
    pub sidebar: Rect,
    pub terminal: Rect,
    pub statusbar: Rect,
}

/// The shape of the Focus Mode regions: no topbar or sidebar, and the
/// terminal and status bar two full-width slices of `full`, stacked.
pub open spec fn focus_regions_shape(full: Rect, r: Regions) -> bool {
    &&& r.topbar == (Rect { x: 0, y: 0, width: 0, height: 0 })
    &&& r.sidebar == (Rect { x: 0, y: 0, width: 0, height: 0 })
    &&& slice_of(r.terminal, full, Direction::Vertical)
    &&& slice_of(r.statusbar, full, Direction::Vertical)
}

/// The shape of the normal regions: `full` is cut into three full-width
/// rows (topbar, body, status bar); the body into sidebar and right-hand
/// column, each of the body's full height; and that column into two rows,
/// of which the lower one is the terminal.
pub open spec fn normal_regions_shape(full: Rect, r: Regions) -> bool {
    &&& slice_of(r.topbar, full, Direction::Vertical)
    &&& slice_of(r.statusbar, full, Direction::Vertical)
    &&& exists|body: Rect, column: Rect|
        #![trigger slice_of(body, full, Direction::Vertical), slice_of(column, body, Direction::Horizontal)]
        {
            &&& slice_of(body, full, Direction::Vertical)
            &&& slice_of(r.sidebar, body, Direction::Horizontal)
            &&& slice_of(column, body, Direction::Horizontal)
            &&& slice_of(r.terminal, column, Direction::Vertical)
        }
}

/// Computes the frame's regions: in Focus Mode no topbar or sidebar, the
/// terminal over a one-row status line; otherwise a topbar row, sidebar
/// and terminal side by side (the terminal one row lower, under the
/// sidebar's tab strip), and a two-row status bar. The solver places the
/// cuts, so the contract states the nesting of the slices.
pub fn compute(full: Rect, sidebar_width: u16, focus_mode: bool) -> (r: Regions)
    ensures
        focus_mode ==> focus_regions_shape(full, r),
        !focus_mode ==> normal_regions_shape(full, r),
{
    if focus_mode {
        let v = layout_split(full, Direction::Vertical, &vec![Constraint::Min(0), Constraint::Length(1)]);
        return Regions { topbar: Rect::zero(), sidebar: Rect::zero(), terminal: v[0], statusbar: v[1] };
    }
    let v = layout_split(
        full,
        Direction::Vertical,
        &vec![Constraint::Length(1), Constraint::Min(0), Constraint::Length(2)],
    );
    let body = layout_split(v[1], Direction::Horizontal, &vec![Constraint::Length(sidebar_width), Constraint::Min(0)]);
    let column = layout_split(body[1], Direction::Vertical, &vec![Constraint::Length(1), Constraint::Min(0)]);
    let r = Regions { topbar: v[0], sidebar: body[0], terminal: column[1], statusbar: v[2] };
    assert(slice_of(v@[0], full, Direction::Vertical) && slice_of(v@[1], full, Direction::Vertical)
        && slice_of(v@[2], full, Direction::Vertical));
    assert(slice_of(body@[0], v@[1], Direction::Horizontal) && slice_of(body@[1], v@[1], Direction::Horizontal));
    assert(slice_of(column@[1], body@[1], Direction::Vertical));
    r
}

/// `area` split into `n` equal-width columns (none for `n == 0`).
pub fn equal_columns(area: Rect, n: usize) -> (r: Vec<Rect>)
    requires
        n <= u32::MAX,
    ensures
        slices_of(r@, area, Direction::Horizontal, n as nat),
{
    if n == 0 {
        return Vec::new();
    }
    let den = n as u32;
    let mut cs: Vec<Constraint> = Vec::new();
    let mut i: usize = 0;
    while i < n
        invariant
            i <= n,
            den == n as u32,
            cs@ == Seq::new(i as nat, |k: int| Constraint::Ratio(1, den)),
        decreases n - i,
    {
        cs.push(Constraint::Ratio(1, den));
        i = i + 1;
    }
    layout_split(area, Direction::Horizontal, &cs)
}

} // verus!
