use vstd::prelude::*;

use crate::fuzzy_finder::{FinderMatch, FinderMode};
use crate::i18n::{ascii_lower_char, find_chars, find_pat};
use crate::stable_scroll::clamp_int;
use crate::terminal_protocol::ascii_lower;
use crate::text::{blank, chars_of, is_blank, strip_diacritics, strip_diacritics_spec};

verus! {

/// How many wrapped rows a line of `width` display cells takes at
/// `wrap_width` columns: the width (at least 1) divided by the wrap width
/// (at least 1), rounded up. An empty line still takes one row. The count
/// stops at 65535, the furthest a pane can scroll.
pub open spec fn line_visual_rows_spec(width: int, wrap_width: int) -> int {
    let w = if width < 1 {
        1
    } else {
        width
    };
    let d = if wrap_width < 1 {
        1
    } else {
        wrap_width
    };
    let rows = (w + d - 1) / d;
    if rows > 65535 {
        65535
    } else {
        rows
    }
}

/// A line takes between one and 65535 rows.
pub proof fn lemma_line_visual_rows_range(width: int, wrap_width: int)
    ensures
        1 <= line_visual_rows_spec(width, wrap_width) <= 65535,
{
    let w = if width < 1 {
        1
    } else {
        width
    };
    let d = if wrap_width < 1 {
        1
    } else {
        wrap_width
    };
    assert((w + d - 1) / d >= 1) by (nonlinear_arith)
        requires
            w >= 1,
            d >= 1,
    {
        assert(w + d - 1 >= d);
    }
}

pub fn line_visual_rows(width: usize, wrap_width: u16) -> (r: i32)
    ensures
        r == line_visual_rows_spec(width as int, wrap_width as int),
        1 <= r <= 65535,
{
    proof {
        lemma_line_visual_rows_range(width as int, wrap_width as int);
    }
    let w: usize = if width < 1 {
        1
    } else {
        width
    };
    let d: usize = if wrap_width < 1 {
        1
    } else {
        wrap_width as usize
    };
    let q = w / d;
    assert(w % d != 0 ==> q < usize::MAX) by (nonlinear_arith)
        requires
            q as int == w as int / d as int,
            d >= 1,
            w >= 1,
    {
        if w % d != 0 {
            assert(d >= 2);
            assert(q as int * 2 <= q as int * d as int);
            assert(q as int * d as int <= w as int);
        }
    }
    let rows: usize = if w % d == 0 {
        q
    } else {
        q + 1
    };
    proof {
        let wi = w as int;
        let di = d as int;
        let qi = q as int;
        let ri = rows as int;
        assert(ri == (wi + di - 1) / di) by (nonlinear_arith)
            requires
                qi == wi / di,
                di >= 1,
                wi >= 1,
                ri == if wi % di == 0 {
                    qi
                } else {
                    qi + 1
                },
        {
            assert(wi == di * qi + wi % di);
            assert(0 <= wi % di);
            assert(wi % di < di);
        }
    }
    if rows > 65535 {
        65535
    } else {
        rows as i32
    }
}

/// `s` folded for a search match: diacritics stripped, then ASCII
/// lowercased.
pub open spec fn fold_for_search(s: Seq<char>) -> Seq<char> {
    strip_diacritics_spec(s).map_values(|c: char| ascii_lower(c))
}

/// The char range of the first occurrence of `query` in `haystack`, both
/// folded the same way; `None` for a blank query or no occurrence.
pub open spec fn find_match_char_range_spec(query: Seq<char>, haystack: Seq<char>) -> Option<(int, int)> {
    if blank(query) {
        None
    } else {
        let p = find_pat(fold_for_search(haystack), fold_for_search(query), 0);
        if p < 0 {
            None
        } else {
            Some((p, p + query.len()))
        }
    }
}

fn fold_chars(s: &str) -> (r: Vec<char>)
    ensures
        r@ == fold_for_search(s@),
{
    let stripped = strip_diacritics(s);
    let cs = chars_of(stripped.as_str());
    let mut out: Vec<char> = Vec::new();
    let mut i: usize = 0;
    while i < cs.len()
        invariant
            i <= cs@.len(),
            cs@ == strip_diacritics_spec(s@),
            out@ == fold_for_search(s@).take(i as int),
        decreases cs@.len() - i,
    {
        out.push(ascii_lower_char(cs[i]));
        assert(fold_for_search(s@).take(i + 1) == fold_for_search(s@).take(i as int).push(ascii_lower(cs@[i as int])));
        i = i + 1;
    }
    assert(fold_for_search(s@).take(cs@.len() as int) == fold_for_search(s@));
    out
}

/// Finds the char range of `query` inside `haystack`, ignoring accents and
/// ASCII case on both sides. Folding keeps char positions, so the range
/// holds for the haystack as given.
pub fn find_match_char_range(query: &str, haystack: &str) -> (r: Option<(usize, usize)>)
    ensures
        match find_match_char_range_spec(query@, haystack@) {
            Some((a, b)) => r == Some((a as usize, b as usize)),
            None => r is None,
        },
{
    if is_blank(query) {
        return None;
    }
    let h = fold_chars(haystack);
    let q = fold_chars(query);
    assert(q@.len() > 0) by {
        if q@.len() == 0 {
            assert(query@.len() == 0);
        }
    }
    match find_chars(&h, &q, 0) {
        Some(start) => {
            proof {
                crate::i18n::lemma_find_pat_range(h@, q@, 0);
            }
            let hl = h.len();
            assert(start + q@.len() <= hl);
            assert(q@.len() == query@.len());
            Some((start, start + q.len()))
        },
        None => None,
    }
}

/// The 0-based preview line of the highlighted Content-mode match: its
/// 1-based line number minus one (saturating). Files mode has none.
pub open spec fn match_line_index_spec(mode: FinderMode, results: Seq<FinderMatch>, selected: int) -> Option<
    int,
> {
    if mode == FinderMode::Content && 0 <= selected < results.len() {
        match results[selected].line {
            Some(line) => Some(if line == 0 {
                0
            } else {
                line - 1
            }),
            None => None,
        }
    } else {
        None
    }
}

pub fn match_line_index(mode: FinderMode, results: &Vec<FinderMatch>, selected: usize) -> (r: Option<usize>)
    ensures
        match match_line_index_spec(mode, results@, selected as int) {
            Some(i) => r == Some(i as usize),
            None => r is None,
        },
{
    if mode == FinderMode::Content && selected < results.len() {
        match results[selected].line {
            Some(line) => {
                let idx: u64 = if line == 0 {
                    0
                } else {
                    line - 1
                };
                Some(idx as usize)
            },
            None => None,
        }
    } else {
        None
    }
}

/// Total wrapped rows of the lines of the given widths.
pub open spec fn rows_sum(widths: Seq<usize>, wrap_width: int) -> int
    decreases widths.len(),
{
    if widths.len() == 0 {
        0
    } else {
        rows_sum(widths.drop_last(), wrap_width) + line_visual_rows_spec(widths.last() as int, wrap_width)
    }
}

proof fn lemma_rows_sum_bounds(widths: Seq<usize>, wrap_width: int)
    ensures
        0 <= rows_sum(widths, wrap_width) <= 65535 * widths.len(),
    decreases widths.len(),
{
    if widths.len() > 0 {
        lemma_rows_sum_bounds(widths.drop_last(), wrap_width);
        lemma_line_visual_rows_range(widths.last() as int, wrap_width);
    }
}

/// Where the preview pane scrolls and how far manual scrolling may move it.
pub struct PreviewScroll {
    /// Smallest manual offset that still shows something.
    pub offset_min: i32,
    /// Largest manual offset before running past the end.
    pub offset_max: i32,
    /// The row the pane starts at.
    pub scroll_y: u16,
}

/// The auto-centered start row of the preview: the match's wrapped row
/// minus half the pane height, clamped to the scrollable range.
pub open spec fn auto_scroll_spec(widths: Seq<usize>, match_line: Option<int>, wrap_width: int, height: int) -> int {
    let total = rows_sum(widths, wrap_width);
    let target = match match_line {
        Some(idx) => rows_sum(widths.take(if idx < widths.len() { idx } else { widths.len() as int }), wrap_width),
        None => 0,
    };
    let max_scroll = if total - height > 0 {
        total - height
    } else {
        0
    };
    clamp_int(target - height / 2, 0, max_scroll)
}

/// The preview's scroll limits and start row, in wrapped rows: the match
/// line is centered when possible, the manual offset is added on top of that
/// clamped position and the sum is clamped again.
pub open spec fn preview_scroll_spec(
    widths: Seq<usize>,
    match_line: Option<int>,
    inner_width: int,
    inner_height: int,
    manual: int,
) -> (int, int, int) {
    let wrap = if inner_width < 1 {
        1
    } else {
        inner_width
    };
    let total = rows_sum(widths, wrap);
    let max_scroll = if total - inner_height > 0 {
        total - inner_height
    } else {
        0
    };
    let auto = auto_scroll_spec(widths, match_line, wrap, inner_height);
    (-auto, max_scroll - auto, clamp_int(auto + manual, 0, max_scroll) % 65536)
}

fn sum_rows(widths: &Vec<usize>, count: usize, wrap_width: u16) -> (r: i32)
    requires
        count <= widths@.len(),
        widths@.len() <= 32767,
        wrap_width >= 1,
    ensures
        r == rows_sum(widths@.take(count as int), wrap_width as int),
        0 <= r <= rows_sum(widths@, wrap_width as int),
{
    let mut total: i32 = 0;
    let mut i: usize = 0;
    while i < count
        invariant
            i <= count <= widths@.len() <= 32767,
            wrap_width >= 1,
            total == rows_sum(widths@.take(i as int), wrap_width as int),
        decreases count - i,
    {
        proof {
            lemma_rows_sum_bounds(widths@.take(i as int), wrap_width as int);
        }
        assert(widths@.take(i + 1).drop_last() == widths@.take(i as int));
        let rows = line_visual_rows(widths[i], wrap_width);
        total = total + rows;
        i = i + 1;
    }
    proof {
        lemma_rows_sum_mono(widths@, count as int, wrap_width as int);
        lemma_rows_sum_bounds(widths@.take(count as int), wrap_width as int);
    }
    total
}

proof fn lemma_rows_sum_mono(widths: Seq<usize>, k: int, wrap_width: int)
    requires
        0 <= k <= widths.len(),
    ensures
        rows_sum(widths.take(k), wrap_width) <= rows_sum(widths, wrap_width),
    decreases widths.len(),
{
    if k < widths.len() {
        assert(widths.drop_last().take(k) == widths.take(k));
        lemma_rows_sum_mono(widths.drop_last(), k, wrap_width);
        lemma_rows_sum_bounds(widths.drop_last(), wrap_width);
        lemma_line_visual_rows_range(widths.last() as int, wrap_width);
    } else {
        assert(widths.take(k) == widths);
    }
}

/// Scroll math of the preview pane: `widths` are the display widths of the
/// preview's lines, `match_line` the line to center on, `manual` the user's
/// extra offset.
pub fn preview_scroll(
    widths: &Vec<usize>,
    match_line: Option<usize>,
    inner_width: u16,
    inner_height: u16,
    manual: i32,
) -> (r: PreviewScroll)
    requires
        widths@.len() <= 32767,
        i32::MIN <= auto_scroll_spec(
            widths@,
            match match_line {
                Some(i) => Some(i as int),
                None => None,
            },
            if inner_width < 1 {
                1
            } else {
                inner_width as int
            },
            inner_height as int,
        ) + manual <= i32::MAX,
    ensures
        ({
            let (lo, hi, y) = preview_scroll_spec(
                widths@,
                match match_line {
                    Some(i) => Some(i as int),
                    None => None,
                },
                inner_width as int,
                inner_height as int,
                manual as int,
            );
            r.offset_min == lo && r.offset_max == hi && r.scroll_y == y
        }),
{
    let wrap: u16 = if inner_width < 1 {
        1
    } else {
        inner_width
    };
    let total = sum_rows(widths, widths.len(), wrap);
    assert(widths@.take(widths@.len() as int) == widths@);
    let target: i32 = match match_line {
        Some(idx) => {
            let n = if idx < widths.len() {
                idx
            } else {
                widths.len()
            };
            sum_rows(widths, n, wrap)
        },
        None => 0,
    };
    let h = inner_height as i32;
    let max_scroll: i32 = if total - h > 0 {
        total - h
    } else {
        0
    };
    let raw_center = target - h / 2;
    let auto: i32 = if raw_center < 0 {
        0
    } else if raw_center > max_scroll {
        max_scroll
    } else {
        raw_center
    };
    let sum = auto + manual;
    let clamped: i32 = if sum < 0 {
        0
    } else if sum > max_scroll {
        max_scroll
    } else {
        sum
    };
    PreviewScroll { offset_min: -auto, offset_max: max_scroll - auto, scroll_y: (clamped % 65536) as u16 }
}

} // verus!
