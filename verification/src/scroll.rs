use vstd::prelude::*;

verus! {

/// Offset of a `height`-row viewport over `len` rows that keeps `selected`
/// centered, clamped so the window never runs past either end.
pub open spec fn centered_offset_spec(len: int, selected: int, height: int) -> int {
    if height == 0 || len <= height {
        0
    } else {
        let lo = if selected >= height / 2 {
            selected - height / 2
        } else {
            0
        };
        if lo < len - height {
            lo
        } else {
            len - height
        }
    }
}

pub fn centered_offset(len: usize, selected: usize, height: usize) -> (r: usize)
    ensures
        r == centered_offset_spec(len as int, selected as int, height as int),
        r + height <= len || r == 0,
{
    if height == 0 || len <= height {
        return 0;
    }
    let half = height / 2;
    let max_offset = len - height;
    let lo = if selected >= half {
        selected - half
    } else {
        0
    };
    if lo < max_offset {
        lo
    } else {
        max_offset
    }
}

/// The rows visible through a centered `height`-row viewport, the offset of
/// the first one, and `selected`'s position among them (0 when it lies
/// above the window).
pub fn window<'a, T>(rows: &'a [T], selected: usize, height: usize) -> (r: (&'a [T], usize, usize))
    ensures
        r.1 == centered_offset_spec(rows@.len() as int, selected as int, height as int),
        r.0@ == rows@.subrange(
            r.1 as int,
            if r.1 + height < rows@.len() {
                r.1 + height
            } else {
                rows@.len() as int
            },
        ),
        r.2 == if selected >= r.1 {
            selected - r.1
        } else {
            0
        },
{
    let offset = centered_offset(rows.len(), selected, height);
    let end = if height < rows.len() - offset {
        offset + height
    } else {
        rows.len()
    };
    let rel = if selected >= offset {
        selected - offset
    } else {
        0
    };
    (&rows[offset..end], offset, rel)
}

} // verus!
