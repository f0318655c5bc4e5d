use vstd::prelude::*;

use crate::layout::{sat_sub, Rect};
use crate::text::chars_of;

verus! {

/// Which way an animated gradient's colors travel around the perimeter.
#[derive(Debug, Clone, Copy, PartialEq, Eq, Structural)]
pub enum Spin {
    Clockwise,
    CounterClockwise,
}

impl Default for Spin {
    fn default() -> (r: Spin)
        ensures
            r == Spin::Clockwise,
    {
        Spin::Clockwise
    }
}

/// The box-drawing glyph of one border cell (rounded corners).
#[derive(Debug, Clone, Copy, PartialEq, Eq, Structural)]
pub enum BorderGlyph {
    TopLeft,
    TopRight,
    BottomRight,
    BottomLeft,
    Horizontal,
    Vertical,
}

/// One border cell: its position, glyph, and distance walked clockwise
/// from the top-left corner.
#[derive(Debug, Clone, Copy, PartialEq, Eq, Structural)]
pub struct BorderCell {
    pub x: u16,
    pub y: u16,
    pub glyph: BorderGlyph,
    pub dist: usize,
}

/// The perimeter length a gradient is spread over (at least 1).
pub open spec fn perimeter_spec(area: Rect) -> int {
    let p = 2 * (area.width - 1) + 2 * (area.height - 1);
    if p < 1 {
        1
    } else {
        p
    }
}

pub fn perimeter(area: Rect) -> (r: usize)
    requires
        area.width >= 2,
        area.height >= 2,
    ensures
        r == perimeter_spec(area),
{
    let p: usize = 2 * (area.width as usize - 1) + 2 * (area.height as usize - 1);
    if p < 1 {
        1
    } else {
        p
    }
}

/// The cell walked `d` steps clockwise from the top-left corner of the
/// border of `area`: along the top edge, down the right edge, back along
/// the bottom edge and up the left edge.
pub open spec fn border_cell_spec(area: Rect, d: int) -> BorderCell {
    let w = area.width as int;
    let h = area.height as int;
    let left = area.x as int;
    let right = area.x + w - 1;
    let top = area.y as int;
    let bottom = area.y + h - 1;
    if d < w {
        BorderCell {
            x: (left + d) as u16,
            y: top as u16,
            glyph: if d == 0 {
                BorderGlyph::TopLeft
            } else if d == w - 1 {
                BorderGlyph::TopRight
            } else {
                BorderGlyph::Horizontal
            },
            dist: d as usize,
        }
    } else if d < w + h - 1 {
        let y = top + 1 + (d - w);
        BorderCell {
            x: right as u16,
            y: y as u16,
            glyph: if y == bottom {
                BorderGlyph::BottomRight
            } else {
                BorderGlyph::Vertical
            },
            dist: d as usize,
        }
    } else if d < 2 * w + h - 2 {
        let x = right - 1 - (d - (w + h - 1));
        BorderCell {
            x: x as u16,
            y: bottom as u16,
            glyph: if x == left {
                BorderGlyph::BottomLeft
            } else {
                BorderGlyph::Horizontal
            },
            dist: d as usize,
        }
    } else {
        BorderCell {
            x: left as u16,
            y: (bottom - 1 - (d - (2 * w + h - 2))) as u16,
            glyph: BorderGlyph::Vertical,
            dist: d as usize,
        }
    }
}

/// The cells of a rounded border around `area`, in clockwise order from the
/// top-left corner, with the distance each lies along the walk; nothing for
/// an area under 2×2.
pub fn border_cells(area: Rect) -> (r: Vec<BorderCell>)
    requires
        area.x + area.width <= u16::MAX,
        area.y + area.height <= u16::MAX,
    ensures
        area.width < 2 || area.height < 2 ==> r@.len() == 0,
        area.width >= 2 && area.height >= 2 ==> {
            &&& r@.len() == 2 * area.width + 2 * area.height - 4
            &&& forall|d: int| 0 <= d < r@.len() ==> (#[trigger] r@[d]) == border_cell_spec(area, d)
        },
{
    let mut cells: Vec<BorderCell> = Vec::new();
    if area.width < 2 || area.height < 2 {
        return cells;
    }
    let w = area.width;
    let h = area.height;
    let left = area.x;
    let right = area.x + w - 1;
    let top = area.y;
    let bottom = area.y + h - 1;
    let mut dist: usize = 0;
    let mut x = left;
    while x <= right
        invariant
            area.x + area.width <= u16::MAX,
            area.y + area.height <= u16::MAX,
            left == area.x,
            right == area.x + area.width - 1,
            top == area.y,
            w == area.width,
            w >= 2,
            h >= 2,
            left <= x <= right + 1,
            dist == x - left,
            cells@.len() == dist,
            forall|d: int| 0 <= d < cells@.len() ==> (#[trigger] cells@[d]) == border_cell_spec(area, d),
        decreases right + 1 - x,
    {
        let glyph = if x == left {
            BorderGlyph::TopLeft
        } else if x == right {
            BorderGlyph::TopRight
        } else {
            BorderGlyph::Horizontal
        };
        cells.push(BorderCell { x, y: top, glyph, dist });
        dist = dist + 1;
        x = x + 1;
    }
    let mut y = top + 1;
    while y <= bottom
        invariant
            area.x + area.width <= u16::MAX,
            area.y + area.height <= u16::MAX,
            left == area.x,
            right == area.x + area.width - 1,
            top == area.y,
            bottom == area.y + area.height - 1,
            w == area.width,
            h == area.height,
            w >= 2,
            h >= 2,
            top + 1 <= y <= bottom + 1,
            dist == w + (y - top - 1),
            cells@.len() == dist,
            forall|d: int| 0 <= d < cells@.len() ==> (#[trigger] cells@[d]) == border_cell_spec(area, d),
        decreases bottom + 1 - y,
    {
        let glyph = if y == bottom {
            BorderGlyph::BottomRight
        } else {
            BorderGlyph::Vertical
        };
        cells.push(BorderCell { x: right, y, glyph, dist });
        dist = dist + 1;
        y = y + 1;
    }
    let mut x = right;
    while x > left
        invariant
            area.x + area.width <= u16::MAX,
            area.y + area.height <= u16::MAX,
            left == area.x,
            right == area.x + area.width - 1,
            top == area.y,
            bottom == area.y + area.height - 1,
            w == area.width,
            h == area.height,
            w >= 2,
            h >= 2,
            left <= x <= right,
            dist == w + h - 1 + (right - x),
            cells@.len() == dist,
            forall|d: int| 0 <= d < cells@.len() ==> (#[trigger] cells@[d]) == border_cell_spec(area, d),
        decreases x - left,
    {
        let cx = x - 1;
        let glyph = if cx == left {
            BorderGlyph::BottomLeft
        } else {
            BorderGlyph::Horizontal
        };
        cells.push(BorderCell { x: cx, y: bottom, glyph, dist });
        dist = dist + 1;
        x = x - 1;
    }
    let mut y = bottom;
    while y > top + 1
        invariant
            area.x + area.width <= u16::MAX,
            area.y + area.height <= u16::MAX,
            left == area.x,
            right == area.x + area.width - 1,
            top == area.y,
            bottom == area.y + area.height - 1,
            w == area.width,
            h == area.height,
            w >= 2,
            h >= 2,
            top + 1 <= y <= bottom,
            dist == 2 * w + h - 2 + (bottom - y),
            cells@.len() == dist,
            forall|d: int| 0 <= d < cells@.len() ==> (#[trigger] cells@[d]) == border_cell_spec(area, d),
        decreases y - top,
    {
        cells.push(BorderCell { x: left, y: y - 1, glyph: BorderGlyph::Vertical, dist });
        dist = dist + 1;
        y = y - 1;
    }
    cells
}

/// Where a border title's chars go: from two cells right of the top-left
/// corner along the top edge, at most `width - 4` of them.
pub open spec fn title_len(area: Rect, title_len: int) -> int {
    let max = sat_sub(area.width as int, 4);
    if title_len < max {
        title_len
    } else {
        max
    }
}

/// The cells of a border title on the top edge of `area`: the title's
/// first chars, one per cell from `x + 2`, as many as fit.
pub fn title_cells(area: Rect, title: &str) -> (r: Vec<(u16, u16, char)>)
    requires
        area.x + area.width <= u16::MAX,
        area.width >= 2,
        area.height >= 2,
    ensures
        r@.len() == title_len(area, title@.len() as int),
        forall|i: int| 0 <= i < r@.len() ==> (#[trigger] r@[i]) == ((area.x + 2 + i) as u16, area.y, title@[i]),
{
    let cs = chars_of(title);
    let max_width = area.width.saturating_sub(4) as usize;
    let mut out: Vec<(u16, u16, char)> = Vec::new();
    let mut i: usize = 0;
    while i < cs.len() && i < max_width
        invariant
            cs@ == title@,
            i <= cs@.len(),
            i <= max_width,
            max_width == sat_sub(area.width as int, 4),
            area.x + area.width <= u16::MAX,
            out@.len() == i,
            forall|k: int| 0 <= k < i ==> (#[trigger] out@[k]) == ((area.x + 2 + k) as u16, area.y, title@[k]),
        decreases cs@.len() - i,
    {
        out.push((area.x + 2 + i as u16, area.y, cs[i]));
        i = i + 1;
    }
    out
}

} // verus!
