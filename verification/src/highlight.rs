use vstd::prelude::*;

use crate::text::{chars_of, string_from_chars};

verus! {

// ---------------------------------------------------------------------------
// Fuzzy-match hits in a result row

/// Whether char index `i` is one of the matcher's hit indices.
pub open spec fn is_hit(indices: Seq<usize>, i: int) -> bool {
    exists|k: int| 0 <= k < indices.len() && indices[k] == i
}

/// The runs of the first `n` chars of `cs`: every hit char in a run of its
/// own (flag set), the chars between hits grouped into one run (flag clear).
pub open spec fn hit_runs(cs: Seq<char>, indices: Seq<usize>, n: int) -> Seq<(Seq<char>, bool)>
    decreases n,
{
    if n <= 0 {
        Seq::empty()
    } else {
        let prev = hit_runs(cs, indices, n - 1);
        let c = cs[n - 1];
        if is_hit(indices, n - 1) {
            prev.push((seq![c], true))
        } else if prev.len() > 0 && !prev.last().1 {
            prev.drop_last().push((prev.last().0.push(c), false))
        } else {
            prev.push((seq![c], false))
        }
    }
}

/// Runs as plain values.
pub open spec fn runs_view(r: Seq<(String, bool)>) -> Seq<(Seq<char>, bool)> {
    r.map_values(|x: (String, bool)| (x.0@, x.1))
}

fn contains_index(indices: &[usize], i: usize) -> (r: bool)
    ensures
        r == is_hit(indices@, i as int),
{
    let mut k: usize = 0;
    while k < indices.len()
        invariant
            k <= indices@.len(),
            forall|j: int| 0 <= j < k ==> indices@[j] != i,
        decreases indices@.len() - k,
    {
        if indices[k] == i {
            return true;
        }
        k = k + 1;
    }
    false
}

/// Splits a result row's text into the runs drawn plain and the hit chars
/// drawn highlighted. Without hits the whole text is one plain run.
pub fn highlighted(text: &str, indices: &[usize]) -> (r: Vec<(String, bool)>)
    ensures
        indices@.len() == 0 ==> runs_view(r@) == seq![(text@, false)],
        indices@.len() > 0 ==> runs_view(r@) == hit_runs(text@, indices@, text@.len() as int),
{
    if indices.len() == 0 {
        let mut one: Vec<(String, bool)> = Vec::new();
        one.push((text.to_owned(), false));
        assert(runs_view(one@) =~= seq![(text@, false)]);
        return one;
    }
    let cs = chars_of(text);
    let mut out: Vec<(String, bool)> = Vec::new();
    let mut buf: Vec<char> = Vec::new();
    let mut i: usize = 0;
    while i < cs.len()
        invariant
            cs@ == text@,
            i <= cs@.len(),
            out@.len() > 0 ==> out@.last().1,
            runs_view(out@) + (if buf@.len() > 0 {
                seq![(buf@, false)]
            } else {
                Seq::empty()
            }) == hit_runs(cs@, indices@, i as int),
        decreases cs@.len() - i,
    {
        let c = cs[i];
        let ghost prev = hit_runs(cs@, indices@, i as int);
        let ghost before = runs_view(out@);
        let ghost old_buf = buf@;
        assert(hit_runs(cs@, indices@, i + 1) == if is_hit(indices@, i as int) {
            prev.push((seq![c], true))
        } else if prev.len() > 0 && !prev.last().1 {
            prev.drop_last().push((prev.last().0.push(c), false))
        } else {
            prev.push((seq![c], false))
        });
        if contains_index(indices, i) {
            if buf.len() > 0 {
                let run = string_from_chars(buf.as_slice());
                out.push((run, false));
                buf = Vec::new();
                assert(runs_view(out@) =~= before + seq![(old_buf, false)]);
            } else {
                assert(runs_view(out@) =~= before);
            }
            assert(runs_view(out@) =~= prev);
            let ghost mid = runs_view(out@);
            let single = vec![c];
            assert(single@ =~= seq![c]);
            let run = string_from_chars(single.as_slice());
            out.push((run, true));
            assert(runs_view(out@) =~= mid.push((seq![c], true)));
        } else {
            buf.push(c);
            proof {
                if old_buf.len() > 0 {
                    assert(prev.drop_last() =~= before);
                    assert(prev.last() == (old_buf, false));
                    assert(prev.len() > 0 && !prev.last().1);
                    assert(hit_runs(cs@, indices@, i + 1) == before.push((old_buf.push(c), false)));
                } else {
                    assert(prev =~= before);
                    assert(prev.len() == 0 || prev.last().1);
                    assert(buf@ =~= seq![c]);
                    assert(hit_runs(cs@, indices@, i + 1) == before.push((seq![c], false)));
                }
            }
            assert(runs_view(out@) + seq![(buf@, false)] =~= hit_runs(cs@, indices@, i + 1));
        }
        i = i + 1;
    }
    if buf.len() > 0 {
        out.push((string_from_chars(buf.as_slice()), false));
    }
    assert(runs_view(out@) =~= hit_runs(cs@, indices@, cs@.len() as int));
    out
}

// ---------------------------------------------------------------------------
// The matched range of a preview line

/// `v` clamped to `[0, hi]`.
pub open spec fn clamp0(v: int, hi: int) -> int {
    if v < 0 {
        0
    } else if v > hi {
        hi
    } else {
        v
    }
}

/// A piece when it holds text, nothing otherwise.
pub open spec fn piece(t: Seq<char>, style: u32) -> Seq<(Seq<char>, u32)> {
    if t.len() > 0 {
        seq![(t, style)]
    } else {
        Seq::empty()
    }
}

/// One span starting at char `off` of the line, with the chars in
/// `[start, end)` given `matched`'s style: its text before, inside and after
/// the range, each kept where not empty, as one piece when the styles agree.
pub open spec fn split_span(
    t: Seq<char>,
    style: u32,
    off: int,
    start: int,
    end: int,
    matched: u32,
) -> Seq<(Seq<char>, u32)> {
    let a = clamp0(start - off, t.len() as int);
    let b = clamp0(end - off, t.len() as int);
    if matched == style {
        piece(t, style)
    } else {
        piece(t.take(a), style) + piece(t.subrange(a, b), matched) + piece(t.skip(b), style)
    }
}

/// The spans of a line, the first starting at char `off`, with the range
/// `[start, end)` restyled.
pub open spec fn restyled(
    spans: Seq<(Seq<char>, u32)>,
    off: int,
    start: int,
    end: int,
    matched: u32,
) -> Seq<(Seq<char>, u32)>
    decreases spans.len(),
{
    if spans.len() == 0 {
        Seq::empty()
    } else {
        split_span(spans[0].0, spans[0].1, off, start, end, matched) + restyled(
            spans.skip(1),
            off + spans[0].0.len(),
            start,
            end,
            matched,
        )
    }
}

/// Spans as plain values.
pub open spec fn spans_view(s: Seq<(String, u32)>) -> Seq<(Seq<char>, u32)> {
    s.map_values(|x: (String, u32)| (x.0@, x.1))
}

/// How many chars the spans hold together.
pub open spec fn total_chars(s: Seq<(Seq<char>, u32)>) -> int
    decreases s.len(),
{
    if s.len() == 0 {
        0
    } else {
        s[0].0.len() + total_chars(s.skip(1))
    }
}

proof fn lemma_total_chars_split(s: Seq<(Seq<char>, u32)>, k: int)
    requires
        0 <= k <= s.len(),
    ensures
        total_chars(s) == total_chars(s.take(k)) + total_chars(s.skip(k)),
        total_chars(s.skip(k)) >= 0,
    decreases k,
{
    if k > 0 {
        lemma_total_chars_split(s.skip(1), k - 1);
        assert(s.skip(1).skip(k - 1) == s.skip(k));
        assert(s.take(k).skip(1) == s.skip(1).take(k - 1));
        assert(s.take(k)[0] == s[0]);
    } else {
        assert(s.take(0).len() == 0);
        assert(s.skip(0) == s);
        lemma_total_chars_nonneg(s);
    }
}

proof fn lemma_total_chars_nonneg(s: Seq<(Seq<char>, u32)>)
    ensures
        total_chars(s) >= 0,
    decreases s.len(),
{
    if s.len() > 0 {
        lemma_total_chars_nonneg(s.skip(1));
    }
}

/// `restyled` over a line split after `k` spans.
proof fn lemma_restyled_split(s: Seq<(Seq<char>, u32)>, k: int, off: int, start: int, end: int, m: u32)
    requires
        0 <= k <= s.len(),
    ensures
        restyled(s, off, start, end, m) == restyled(s.take(k), off, start, end, m) + restyled(
            s.skip(k),
            off + total_chars(s.take(k)),
            start,
            end,
            m,
        ),
    decreases k,
{
    if k == 0 {
        assert(s.skip(0) == s);
        assert(restyled(s.take(0), off, start, end, m) == Seq::<(Seq<char>, u32)>::empty());
        assert(restyled(s, off, start, end, m) == Seq::<(Seq<char>, u32)>::empty() + restyled(
            s,
            off,
            start,
            end,
            m,
        ));
    } else {
        lemma_restyled_split(s.skip(1), k - 1, off + s[0].0.len(), start, end, m);
        assert(s.skip(1).skip(k - 1) == s.skip(k));
        assert(s.take(k).skip(1) == s.skip(1).take(k - 1));
        assert(s.take(k)[0] == s[0]);
        assert(total_chars(s.take(k)) == s[0].0.len() + total_chars(s.skip(1).take(k - 1)));
        let head = split_span(s[0].0, s[0].1, off, start, end, m);
        assert(restyled(s.take(k), off, start, end, m) == head + restyled(
            s.skip(1).take(k - 1),
            off + s[0].0.len(),
            start,
            end,
            m,
        ));
        assert((head + restyled(s.skip(1).take(k - 1), off + s[0].0.len(), start, end, m)) + restyled(
            s.skip(k),
            off + total_chars(s.take(k)),
            start,
            end,
            m,
        ) =~= head + (restyled(s.skip(1).take(k - 1), off + s[0].0.len(), start, end, m) + restyled(
            s.skip(1).skip(k - 1),
            off + s[0].0.len() + total_chars(s.skip(1).take(k - 1)),
            start,
            end,
            m,
        )));
    }
}

/// The chars `[from, to)` of `cs` as a string.
fn sub_string(cs: &Vec<char>, from: usize, to: usize) -> (r: String)
    requires
        from <= to <= cs@.len(),
    ensures
        r@ == cs@.subrange(from as int, to as int),
{
    string_from_chars(vstd::slice::slice_subrange(cs.as_slice(), from, to))
}

/// Appends the chars `[from, to)` of `cs` in a style, when there are any.
fn push_piece(out: &mut Vec<(String, u32)>, cs: &Vec<char>, from: usize, to: usize, style: u32)
    requires
        from <= to <= cs@.len(),
    ensures
        spans_view(final(out)@) == spans_view(old(out)@) + piece(cs@.subrange(from as int, to as int), style),
{
    let ghost before = spans_view(out@);
    if from < to {
        out.push((sub_string(cs, from, to), style));
        assert(spans_view(out@) =~= before + piece(cs@.subrange(from as int, to as int), style));
    } else {
        assert(spans_view(out@) =~= before + piece(cs@.subrange(from as int, to as int), style));
    }
}

/// Restyles the chars `[start, end)` of a styled line (char positions
/// counted across its spans) with `matched`, so the match reads over
/// whatever style it had: a span is cut where the range begins or ends, and
/// pieces of one span in the same style stay one span. An empty range
/// leaves the line as it is.
pub fn highlight_match_range(spans: Vec<(String, u32)>, start: usize, end: usize, matched: u32) -> (r: Vec<
    (String, u32),
>)
    requires
        total_chars(spans_view(spans@)) <= usize::MAX,
    ensures
        start >= end ==> r@ == spans@,
        start < end ==> spans_view(r@) == restyled(spans_view(spans@), 0, start as int, end as int, matched),
{
    if start >= end {
        return spans;
    }
    let ghost sv = spans_view(spans@);
    let mut out: Vec<(String, u32)> = Vec::new();
    let mut off: usize = 0;
    let mut k: usize = 0;
    proof {
        lemma_total_chars_split(sv, 0);
        assert(sv.take(0).len() == 0);
    }
    while k < spans.len()
        invariant
            sv == spans_view(spans@),
            k <= spans@.len(),
            start < end,
            total_chars(sv) <= usize::MAX,
            off == total_chars(sv.take(k as int)),
            spans_view(out@) == restyled(sv.take(k as int), 0, start as int, end as int, matched),
        decreases spans@.len() - k,
    {
        let cs = chars_of(spans[k].0.as_str());
        let style = spans[k].1;
        let len = cs.len();
        let ghost t = cs@;
        proof {
            assert(sv[k as int] == (t, style));
            lemma_total_chars_split(sv, k as int);
            lemma_total_chars_split(sv, k + 1);
            assert(sv.skip(k as int)[0] == sv[k as int]);
            assert(sv.take(k + 1).take(k as int) == sv.take(k as int));
            lemma_total_chars_split(sv.take(k + 1), k as int);
            assert(sv.take(k + 1).skip(k as int) =~= seq![sv[k as int]]);
            assert(total_chars(seq![sv[k as int]]) == t.len() + total_chars(seq![sv[k as int]].skip(1)));
            assert(seq![sv[k as int]].skip(1).len() == 0);
            assert(total_chars(sv.take(k + 1)) == off + len);
            lemma_total_chars_nonneg(sv.skip(k + 1));
        }
        let a: usize = if start <= off {
            0
        } else if start - off >= len {
            len
        } else {
            start - off
        };
        let b: usize = if end <= off {
            0
        } else if end - off >= len {
            len
        } else {
            end - off
        };
        let ghost before = spans_view(out@);
        if matched == style {
            push_piece(&mut out, &cs, 0, len, style);
            assert(t.subrange(0, len as int) == t);
        } else {
            push_piece(&mut out, &cs, 0, a, style);
            push_piece(&mut out, &cs, a, b, matched);
            push_piece(&mut out, &cs, b, len, style);
            assert(t.subrange(0, a as int) == t.take(a as int));
            assert(t.subrange(b as int, len as int) == t.skip(b as int));
        }
        proof {
            let piece_k = split_span(t, style, off as int, start as int, end as int, matched);
            assert(spans_view(out@) =~= before + piece_k);
            lemma_restyled_split(sv.take(k + 1), k as int, 0, start as int, end as int, matched);
            assert(sv.take(k + 1).skip(k as int) =~= seq![(t, style)]);
            assert(restyled(seq![(t, style)], off as int, start as int, end as int, matched) =~= piece_k + restyled(
                seq![(t, style)].skip(1),
                off + t.len(),
                start as int,
                end as int,
                matched,
            ));
            assert(seq![(t, style)].skip(1).len() == 0);
        }
        off = off + len;
        k = k + 1;
    }
    proof {
        assert(sv.take(spans@.len() as int) == sv);
    }
    out
}

} // verus!
