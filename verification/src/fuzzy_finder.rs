use vstd::prelude::*;
use vstd::multiset::Multiset;

use nucleo_matcher::pattern::{CaseMatching, Normalization, Pattern};
use nucleo_matcher::{Config, Matcher, Utf32Str};

use crate::paths::{join_path, path_join, path_le, sort_paths, sorted_paths, string_views};
use crate::stable_scroll::StableScroll;
use crate::preview_subject::PreviewSubject;
use crate::text::{blank, is_blank, strip_diacritics, strip_diacritics_spec};

verus! {

/// Caps how many results a single query keeps around.
pub const RESULT_LIMIT: usize = 200;

/// The longest query (in chars) the fuzzy matcher is run on; nucleo's
/// per-atom `u16` score could overflow beyond it.
pub const MAX_QUERY_CHARS: usize = 2600;

/// How many lines `PageUp`/`PageDown` scroll the preview by.
pub const PREVIEW_PAGE_SIZE: i32 = 10;

/// Lines of a file kept for the preview pane.
pub const PREVIEW_MAX_LINES: usize = 400;

#[derive(Debug, Clone, Copy, PartialEq, Eq, Structural)]
pub enum FinderMode {
    Files,
    Content,
}

/// Which pane `Tab` currently routes navigation keys to.
#[derive(Debug, Clone, Copy, PartialEq, Eq, Structural)]
pub enum FinderFocus {
    Results,
    Preview,
}

impl Default for FinderFocus {
    fn default() -> (r: FinderFocus)
        ensures
            r == FinderFocus::Results,
    {
        FinderFocus::Results
    }
}

/// One row in the results list. `path` is workspace-relative.
#[derive(Debug, Clone)]
pub struct FinderMatch {
    pub path: String,
    /// Char indices into `path` that the fuzzy matcher hit; empty in
    /// Content mode.
    pub indices: Vec<usize>,
    /// Content mode only: 1-based line number of the match.
    pub line: Option<u64>,
    /// Content mode only: the matched line's text.
    pub line_text: Option<String>,
}

// ---------------------------------------------------------------------------
// The fuzzy matcher itself

#[verifier::external_type_specification]
#[verifier::external_body]
pub struct ExMatcher(Matcher);

#[verifier::external_type_specification]
#[verifier::external_body]
pub struct ExPattern(Pattern);

/// A nucleo pattern, remembered together with the query it was parsed from.
/// Only `parse_path_pattern` builds one, so `atoms` is always the parse of
/// `query`.
pub struct PathPattern {
    query: Ghost<Seq<char>>,
    atoms: Pattern,
}

impl View for PathPattern {
    type V = Seq<char>;

    closed spec fn view(&self) -> Seq<char> {
        self.query@
    }
}

/// `Matcher::new(Config::DEFAULT.match_paths())`: a matcher tuned for file
/// paths. It is the only way this crate obtains a `Matcher`, so every match
/// below runs with this configuration.
#[verifier::external_body]
fn new_path_matcher() -> Matcher {
    Matcher::new(Config::DEFAULT.match_paths())
}

/// `Pattern::parse(query, CaseMatching::Smart, Normalization::Never)`,
/// remembered with its source query.
#[verifier::external_body]
fn parse_path_pattern(query: &str) -> (r: PathPattern)
    ensures
        r@ == query@,
{
    PathPattern { query: Ghost(query@), atoms: Pattern::parse(query, CaseMatching::Smart, Normalization::Never) }
}

/// What nucleo's `Pattern::indices` gives for the pattern parsed from
/// `query` on `haystack` with the path matcher: `None` when it does not
/// match, else the score and the matched indices into the `Utf32Str` that
/// `Utf32Str::new` builds from `haystack` (one entry per char for ASCII
/// text, one per grapheme cluster otherwise).
pub uninterp spec fn nucleo_path_indices(query: Seq<char>, haystack: Seq<char>) -> Option<(u32, Seq<u32>)>;

/// `Pattern::indices` on `haystack` (through `Utf32Str::new`), with a
/// fresh index buffer. The result depends on the pattern's query and the
/// haystack alone (the matcher only lends scratch memory and its path
/// configuration). nucleo panics on haystacks longer than `u32::MAX`
/// chars, and each atom's `u16` score (with the path configuration at
/// most 25 per matched char, plus 9 more for the first) can overflow
/// for needles over 2621 chars; `requires` rules out both, bounding the
/// query to `MAX_QUERY_CHARS`.
#[verifier::external_body]
fn path_pattern_indices(pattern: &PathPattern, matcher: &mut Matcher, haystack: &str) -> (r: Option<
    (u32, Vec<u32>),
>)
    requires
        haystack@.len() <= u32::MAX,
        pattern@.len() <= MAX_QUERY_CHARS,
    ensures
        match r {
            Some((score, idx)) => nucleo_path_indices(pattern@, haystack@) == Some((score, idx@)),
            None => nucleo_path_indices(pattern@, haystack@) is None,
        },
{
    let mut chars = Vec::new();
    let mut idx = Vec::new();
    match pattern.atoms.indices(Utf32Str::new(haystack, &mut chars), matcher, &mut idx) {
        Some(score) => Some((score, idx)),
        None => None,
    }
}

// ---------------------------------------------------------------------------
// Ranking: a stable sort by descending score, of which only the first
// `RESULT_LIMIT` entries are kept.

/// Matched indices widened to `usize`.
pub open spec fn widen_indices(idx: Seq<u32>) -> Seq<usize> {
    idx.map_values(|i: u32| i as usize)
}

/// The first index at or after `from` whose score is below `score` (the
/// length when there is none).
pub open spec fn first_below(s: Seq<(u32, Seq<char>, Seq<usize>)>, score: u32, from: int) -> int
    decreases s.len() - from,
{
    if from >= s.len() {
        s.len() as int
    } else if s[from].0 < score {
        from
    } else {
        first_below(s, score, from + 1)
    }
}

/// Inserts `x` after every entry scoring at least as much as it.
pub open spec fn rank_insert(
    s: Seq<(u32, Seq<char>, Seq<usize>)>,
    x: (u32, Seq<char>, Seq<usize>),
) -> Seq<(u32, Seq<char>, Seq<usize>)> {
    s.insert(first_below(s, x.0, 0), x)
}

/// `items` sorted by descending score; entries of equal score keep their
/// order.
pub open spec fn ranked(items: Seq<(u32, Seq<char>, Seq<usize>)>) -> Seq<(u32, Seq<char>, Seq<usize>)>
    decreases items.len(),
{
    if items.len() == 0 {
        Seq::empty()
    } else {
        rank_insert(ranked(items.drop_last()), items.last())
    }
}

/// The first `k` entries of `s` (all of them when there are fewer).
pub open spec fn cap<T>(s: Seq<T>, k: int) -> Seq<T> {
    if s.len() <= k {
        s
    } else {
        s.take(k)
    }
}

/// Whether the scores of `s` never increase.
pub open spec fn descending(s: Seq<(u32, Seq<char>, Seq<usize>)>) -> bool {
    forall|i: int, j: int| 0 <= i < j < s.len() ==> s[i].0 >= s[j].0
}

proof fn lemma_first_below(s: Seq<(u32, Seq<char>, Seq<usize>)>, score: u32, from: int)
    requires
        0 <= from <= s.len(),
    ensures
        from <= first_below(s, score, from) <= s.len(),
        forall|i: int| from <= i < first_below(s, score, from) ==> s[i].0 >= score,
        first_below(s, score, from) < s.len() ==> s[first_below(s, score, from)].0 < score,
    decreases s.len() - from,
{
    if from < s.len() && s[from].0 >= score {
        lemma_first_below(s, score, from + 1);
    }
}

proof fn lemma_first_below_take(s: Seq<(u32, Seq<char>, Seq<usize>)>, score: u32, k: int, from: int)
    requires
        0 <= from <= k <= s.len(),
    ensures
        first_below(s.take(k), score, from) == if first_below(s, score, from) < k {
            first_below(s, score, from)
        } else {
            k
        },
    decreases k - from,
{
    lemma_first_below(s, score, from);
    if from < k {
        assert(s.take(k)[from] == s[from]);
        if s[from].0 >= score {
            lemma_first_below_take(s, score, k, from + 1);
        }
    }
}

/// Keeping only the first `k` entries before an insertion does not change
/// the first `k` entries after it.
proof fn lemma_cap_rank_insert(s: Seq<(u32, Seq<char>, Seq<usize>)>, x: (u32, Seq<char>, Seq<usize>), k: int)
    requires
        0 <= k,
    ensures
        cap(rank_insert(cap(s, k), x), k) == cap(rank_insert(s, x), k),
{
    if s.len() > k {
        lemma_first_below_take(s, x.0, k, 0);
        lemma_first_below(s, x.0, 0);
        let p = first_below(s, x.0, 0);
        if p < k {
            assert(cap(rank_insert(s.take(k), x), k) =~= cap(rank_insert(s, x), k));
        } else {
            assert(first_below(s.take(k), x.0, 0) == k);
            assert(cap(rank_insert(s.take(k), x), k) =~= s.take(k));
            assert(cap(rank_insert(s, x), k) =~= s.take(k));
        }
    }
}

proof fn lemma_rank_insert_descending(s: Seq<(u32, Seq<char>, Seq<usize>)>, x: (u32, Seq<char>, Seq<usize>))
    requires
        descending(s),
    ensures
        descending(rank_insert(s, x)),
{
    lemma_first_below(s, x.0, 0);
    let p = first_below(s, x.0, 0);
    let r = rank_insert(s, x);
    assert forall|i: int, j: int| 0 <= i < j < r.len() implies r[i].0 >= r[j].0 by {
        if i < p && j == p {
        } else if i == p && j > p {
            assert(r[j] == s[j - 1]);
            assert(s[p].0 < x.0);
            assert(s[p].0 >= s[j - 1].0);
        } else if i < p && j > p {
            assert(r[j] == s[j - 1]);
        } else {
        }
    }
}

/// The ranking is sorted by descending score.
pub proof fn lemma_ranked_descending(items: Seq<(u32, Seq<char>, Seq<usize>)>)
    ensures
        descending(ranked(items)),
    decreases items.len(),
{
    if items.len() > 0 {
        lemma_ranked_descending(items.drop_last());
        lemma_rank_insert_descending(ranked(items.drop_last()), items.last());
    }
}

/// The ranking holds exactly the entries it was given.
pub proof fn lemma_ranked_permutation(items: Seq<(u32, Seq<char>, Seq<usize>)>)
    ensures
        ranked(items).to_multiset() == items.to_multiset(),
    decreases items.len(),
{
    broadcast use vstd::seq_lib::to_multiset_insert, vstd::seq_lib::to_multiset_build;
    broadcast use vstd::seq_lib::to_multiset_len, vstd::multiset::lemma_multiset_empty_len;

    if items.len() == 0 {
        vstd::seq_lib::to_multiset_len(items);
        vstd::multiset::lemma_multiset_empty_len(items.to_multiset());
        vstd::seq_lib::to_multiset_len(ranked(items));
        vstd::multiset::lemma_multiset_empty_len(ranked(items).to_multiset());
    } else {
        lemma_ranked_permutation(items.drop_last());
        let r = ranked(items.drop_last());
        lemma_first_below(r, items.last().0, 0);
        assert(items.drop_last().push(items.last()) == items);
    }
}

// ---------------------------------------------------------------------------
// Matching a list of paths

/// The candidates that match `query`, in candidate order, each with its
/// score and matched indices. Both sides are diacritic-stripped before
/// matching; stripping keeps char positions, so the indices hold for the
/// unstripped path too.
pub open spec fn scored(query: Seq<char>, cands: Seq<String>) -> Seq<(u32, Seq<char>, Seq<usize>)>
    decreases cands.len(),
{
    if cands.len() == 0 {
        Seq::empty()
    } else {
        let prev = scored(query, cands.drop_last());
        let c = cands.last()@;
        match nucleo_path_indices(strip_diacritics_spec(query), strip_diacritics_spec(c)) {
            Some((score, idx)) => prev.push((score, c, widen_indices(idx))),
            None => prev,
        }
    }
}

/// What `match_files` returns, as (score, path, indices): a blank query
/// keeps the first `RESULT_LIMIT` candidates unscored (score 0, no
/// indices); otherwise the best `RESULT_LIMIT` matches by descending score.
pub open spec fn match_files_spec(query: Seq<char>, cands: Seq<String>) -> Seq<(u32, Seq<char>, Seq<usize>)> {
    if blank(query) {
        cap(cands, RESULT_LIMIT as int).map_values(|c: String| (0u32, c@, Seq::<usize>::empty()))
    } else {
        cap(ranked(scored(query, cands)), RESULT_LIMIT as int)
    }
}

/// `match_files` never returns more than `RESULT_LIMIT` matches.
pub proof fn lemma_match_files_len(query: Seq<char>, cands: Seq<String>)
    ensures
        match_files_spec(query, cands).len() <= RESULT_LIMIT,
{
}

/// Whether `r` lists exactly the entries of `spec` as finder matches.
pub open spec fn matches_view(r: Seq<FinderMatch>, spec: Seq<(u32, Seq<char>, Seq<usize>)>) -> bool {
    &&& r.len() == spec.len()
    &&& forall|i: int|
        0 <= i < r.len() ==> {
            &&& (#[trigger] r[i]).path@ == spec[i].1
            &&& r[i].indices@ == spec[i].2
            &&& r[i].line is None
            &&& r[i].line_text is None
        }
}

spec fn entry_view(e: (u32, String, Vec<usize>)) -> (u32, Seq<char>, Seq<usize>) {
    (e.0, e.1@, e.2@)
}

fn widen(idx: &Vec<u32>) -> (r: Vec<usize>)
    ensures
        r@ == widen_indices(idx@),
{
    let mut out: Vec<usize> = Vec::new();
    let mut i: usize = 0;
    while i < idx.len()
        invariant
            i <= idx@.len(),
            out@ == widen_indices(idx@.take(i as int)),
        decreases idx@.len() - i,
    {
        out.push(idx[i] as usize);
        assert(widen_indices(idx@.take(i + 1)) =~= widen_indices(idx@.take(i as int)).push(idx@[i as int] as usize));
        i = i + 1;
    }
    assert(idx@.take(idx@.len() as int) == idx@);
    out
}

/// Where `rank_insert` puts an entry of `score` into `top`.
fn insert_position(top: &Vec<(u32, String, Vec<usize>)>, score: u32) -> (r: usize)
    ensures
        r == first_below(top@.map_values(|e: (u32, String, Vec<usize>)| entry_view(e)), score, 0),
{
    let ghost v = top@.map_values(|e: (u32, String, Vec<usize>)| entry_view(e));
    let mut i: usize = 0;
    while i < top.len() && top[i].0 >= score
        invariant
            i <= top@.len(),
            v.len() == top@.len(),
            v == top@.map_values(|e: (u32, String, Vec<usize>)| entry_view(e)),
            first_below(v, score, i as int) == first_below(v, score, 0),
        decreases top@.len() - i,
    {
        assert(v[i as int].0 == top@[i as int].0);
        i = i + 1;
    }
    if i < top.len() {
        assert(v[i as int].0 == top@[i as int].0);
    }
    i
}

/// Fuzzy-matches `query` against workspace-relative `candidates`, returning
/// the top `RESULT_LIMIT` by descending score with the matched indices.
/// A blank query returns the first `RESULT_LIMIT` candidates unscored, in
/// order. Matching ignores accents in both the query and the paths.
pub fn match_files(query: &str, candidates: &Vec<String>) -> (r: Vec<FinderMatch>)
    requires
        forall|i: int| 0 <= i < candidates.len() ==> (#[trigger] candidates[i])@.len() <= u32::MAX,
        blank(query@) || query@.len() <= MAX_QUERY_CHARS,
    ensures
        matches_view(r@, match_files_spec(query@, candidates@)),
{
    if is_blank(query) {
        let mut out: Vec<FinderMatch> = Vec::new();
        let mut i: usize = 0;
        let ghost want = match_files_spec(query@, candidates@);
        while i < candidates.len() && i < RESULT_LIMIT
            invariant
                i <= candidates@.len(),
                i <= RESULT_LIMIT,
                want == cap(candidates@, RESULT_LIMIT as int).map_values(
                    |c: String| (0u32, c@, Seq::<usize>::empty()),
                ),
                out@.len() == i,
                forall|k: int|
                    0 <= k < i ==> {
                        &&& (#[trigger] out@[k]).path@ == want[k].1
                        &&& out@[k].indices@ == want[k].2
                        &&& out@[k].line is None
                        &&& out@[k].line_text is None
                    },
            decreases candidates@.len() - i,
        {
            out.push(FinderMatch { path: candidates[i].clone(), indices: Vec::new(), line: None, line_text: None });
            i = i + 1;
        }
        return out;
    }
    let mut matcher = new_path_matcher();
    let normalized_query = strip_diacritics(query);
    let pattern = parse_path_pattern(normalized_query.as_str());
    assert(pattern@.len() == query@.len());
    let mut top: Vec<(u32, String, Vec<usize>)> = Vec::new();
    let mut i: usize = 0;
    while i < candidates.len()
        invariant
            i <= candidates@.len(),
            pattern@ == strip_diacritics_spec(query@),
            pattern@.len() <= MAX_QUERY_CHARS,
            forall|k: int| 0 <= k < candidates.len() ==> (#[trigger] candidates[k])@.len() <= u32::MAX,
            top@.map_values(|e: (u32, String, Vec<usize>)| entry_view(e)) == cap(
                ranked(scored(query@, candidates@.take(i as int))),
                RESULT_LIMIT as int,
            ),
        decreases candidates@.len() - i,
    {
        let ghost prefix = candidates@.take(i as int);
        let ghost before = top@.map_values(|e: (u32, String, Vec<usize>)| entry_view(e));
        assert(candidates@.take(i + 1).drop_last() == prefix);
        assert(candidates@.take(i + 1).last() == candidates@[i as int]);
        let display = strip_diacritics(candidates[i].as_str());
        assert(candidates@[i as int]@.len() <= u32::MAX);
        match path_pattern_indices(&pattern, &mut matcher, display.as_str()) {
            Some((score, idx)) => {
                let wide = widen(&idx);
                let ghost x = (score, candidates@[i as int]@, wide@);
                let pos = insert_position(&top, score);
                proof {
                    lemma_first_below(before, score, 0);
                }
                let ghost old_top = top@;
                let entry = (score, candidates[i].clone(), wide);
                assert(entry_view(entry) == x);
                top.insert(pos, entry);
                assert(top@ == old_top.insert(pos as int, entry));
                assert(top@.map_values(|e: (u32, String, Vec<usize>)| entry_view(e)) =~= rank_insert(before, x));
                if top.len() > RESULT_LIMIT {
                    top.truncate(RESULT_LIMIT);
                }
                proof {
                    let s = ranked(scored(query@, prefix));
                    let sc = scored(query@, prefix);
                    assert(scored(query@, candidates@.take(i + 1)) == sc.push(x));
                    assert(sc.push(x).drop_last() == sc);
                    lemma_cap_rank_insert(s, x, RESULT_LIMIT as int);
                    assert(ranked(scored(query@, candidates@.take(i + 1))) == rank_insert(s, x));
                    assert(top@.map_values(|e: (u32, String, Vec<usize>)| entry_view(e)) =~= cap(
                        rank_insert(before, x),
                        RESULT_LIMIT as int,
                    ));
                }
            },
            None => {},
        }
        i = i + 1;
    }
    assert(candidates@.take(candidates@.len() as int) == candidates@);
    let ghost want = top@.map_values(|e: (u32, String, Vec<usize>)| entry_view(e));
    let mut out: Vec<FinderMatch> = Vec::new();
    let mut k: usize = 0;
    while k < top.len()
        invariant
            k <= top@.len(),
            want == top@.map_values(|e: (u32, String, Vec<usize>)| entry_view(e)),
            out@.len() == k,
            forall|j: int|
                0 <= j < k ==> {
                    &&& (#[trigger] out@[j]).path@ == want[j].1
                    &&& out@[j].indices@ == want[j].2
                    &&& out@[j].line is None
                    &&& out@[j].line_text is None
                },
        decreases top@.len() - k,
    {
        let entry = &top[k];
        out.push(FinderMatch { path: entry.1.clone(), indices: entry.2.clone(), line: None, line_text: None });
        k = k + 1;
    }
    out
}

// ---------------------------------------------------------------------------
// Preview text

/// The index of the first `'\n'` at or after `from` (the length when there
/// is none).
pub open spec fn first_newline(s: Seq<char>, from: int) -> int
    decreases s.len() - from,
{
    if from >= s.len() {
        s.len() as int
    } else if s[from] == '\n' {
        from
    } else {
        first_newline(s, from + 1)
    }
}

pub proof fn lemma_first_newline(s: Seq<char>, from: int)
    requires
        0 <= from <= s.len(),
    ensures
        from <= first_newline(s, from) <= s.len(),
        forall|k: int| from <= k < first_newline(s, from) ==> s[k] != '\n',
        first_newline(s, from) < s.len() ==> s[first_newline(s, from)] == '\n',
    decreases s.len() - from,
{
    if from < s.len() && s[from] != '\n' {
        lemma_first_newline(s, from + 1);
    }
}

/// A line read up to a `'\n'`, without the `'\r'` of a `"\r\n"` ending.
pub open spec fn strip_cr(line: Seq<char>) -> Seq<char> {
    if line.len() > 0 && line.last() == '\r' {
        line.drop_last()
    } else {
        line
    }
}

/// The lines of `s` from index `from` on, as `str::lines` splits them:
/// at each `'\n'`, dropping a `'\r'` just before it; a last line without a
/// terminator is kept as it is, and nothing follows a final `'\n'`.
pub open spec fn lines_from(s: Seq<char>, from: int) -> Seq<Seq<char>>
    decreases s.len() - from,
{
    if from < 0 || from >= s.len() {
        Seq::empty()
    } else {
        let n = first_newline(s, from);
        proof {
            lemma_first_newline(s, from);
        }
        if n >= s.len() {
            seq![s.subrange(from, s.len() as int)]
        } else {
            seq![strip_cr(s.subrange(from, n))] + lines_from(s, n + 1)
        }
    }
}

/// `lines` joined with `'\n'` between them.
pub open spec fn join_lines(lines: Seq<Seq<char>>) -> Seq<char>
    decreases lines.len(),
{
    if lines.len() == 0 {
        Seq::empty()
    } else if lines.len() == 1 {
        lines[0]
    } else {
        join_lines(lines.drop_last()) + seq!['\n'] + lines.last()
    }
}

/// The preview of a file: its lines rejoined, cut after `PREVIEW_MAX_LINES`
/// lines with a final `"\n…"` when there were more.
pub open spec fn truncate_preview_spec(contents: Seq<char>) -> Seq<char> {
    let lines = lines_from(contents, 0);
    if lines.len() > PREVIEW_MAX_LINES {
        join_lines(lines.take(PREVIEW_MAX_LINES as int)) + seq!['\n', '\u{2026}']
    } else {
        join_lines(lines)
    }
}

/// The finder's Files-mode results for `query`: those of `match_files`,
/// except that a non-blank query longer than `MAX_QUERY_CHARS` matches
/// nothing.
pub open spec fn finder_results_spec(query: Seq<char>, cands: Seq<String>) -> Seq<(u32, Seq<char>, Seq<usize>)> {
    if blank(query) || query.len() <= MAX_QUERY_CHARS {
        match_files_spec(query, cands)
    } else {
        Seq::empty()
    }
}

/// Runs `match_files` for the finder, guarding the matcher against a
/// query too long for it: such a query gets no results.
pub fn finder_results(query: &str, candidates: &Vec<String>) -> (r: Vec<FinderMatch>)
    requires
        forall|i: int| 0 <= i < candidates.len() ==> (#[trigger] candidates[i])@.len() <= u32::MAX,
    ensures
        matches_view(r@, finder_results_spec(query@, candidates@)),
        r@.len() <= RESULT_LIMIT,
{
    proof {
        lemma_match_files_len(query@, candidates@);
    }
    if is_blank(query) || query.unicode_len() <= MAX_QUERY_CHARS {
        match_files(query, candidates)
    } else {
        Vec::new()
    }
}

/// Caps a preview to `PREVIEW_MAX_LINES` lines, marking the cut with a
/// final `…` line.
pub fn truncate_preview(contents: &str) -> (r: String)
    ensures
        r@ == truncate_preview_spec(contents@),
{
    let cs = crate::text::chars_of(contents);
    let ghost s = contents@;
    let mut out: Vec<char> = Vec::new();
    let mut i: usize = 0;
    let mut count: usize = 0;
    let ghost mut emitted: Seq<Seq<char>> = Seq::empty();
    while i < cs.len() && count < PREVIEW_MAX_LINES
        invariant
            cs@ == s,
            i <= cs@.len(),
            count == emitted.len(),
            count <= PREVIEW_MAX_LINES,
            lines_from(s, 0) == emitted + lines_from(s, i as int),
            out@ == join_lines(emitted),
        decreases cs@.len() - i,
    {
        let mut n: usize = i;
        while n < cs.len() && cs[n] != '\n'
            invariant
                cs@ == s,
                i <= n <= cs@.len(),
                first_newline(s, n as int) == first_newline(s, i as int),
            decreases cs@.len() - n,
        {
            n = n + 1;
        }
        proof {
            lemma_first_newline(s, i as int);
        }
        let mut end = n;
        if n < cs.len() && end > i && cs[end - 1] == '\r' {
            end = end - 1;
        }
        let ghost line = if n < cs@.len() {
            strip_cr(s.subrange(i as int, n as int))
        } else {
            s.subrange(i as int, s.len() as int)
        };
        assert(line == s.subrange(i as int, end as int));
        let ghost before = out@;
        if count > 0 {
            out.push('\n');
        }
        let mut k = i;
        while k < end
            invariant
                cs@ == s,
                i <= k <= end <= cs@.len(),
                out@ == (if count > 0 { before + seq!['\n'] } else { before }) + s.subrange(i as int, k as int),
            decreases end - k,
        {
            out.push(cs[k]);
            assert(s.subrange(i as int, k + 1) == s.subrange(i as int, k as int).push(s[k as int]));
            k = k + 1;
        }
        let ghost next: int = if n < cs@.len() { n + 1 } else { n as int };
        assert(lines_from(s, i as int) == seq![line] + lines_from(s, next));
        assert(emitted + lines_from(s, i as int) == emitted.push(line) + lines_from(s, next));
        assert(emitted.push(line).drop_last() == emitted);
        assert(emitted.push(line).last() == line);
        assert(out@ == join_lines(emitted.push(line))) by {
            if count == 0 {
                assert(emitted.push(line) == seq![line]);
            }
        }
        proof {
            emitted = emitted.push(line);
        }
        count = count + 1;
        i = if n < cs.len() { n + 1 } else { n };
    }
    if i < cs.len() {
        assert(lines_from(s, i as int).len() >= 1);
        assert(lines_from(s, 0).take(PREVIEW_MAX_LINES as int) == emitted);
        out.push('\n');
        out.push('\u{2026}');
    } else {
        assert(lines_from(s, i as int) == Seq::<Seq<char>>::empty());
        assert(lines_from(s, 0) == emitted);
    }
    crate::text::string_from_chars(out.as_slice())
}

// ---------------------------------------------------------------------------
// The finder's state

/// Syntax-highlighted preview lines: per line, (text, rgb) fragments.
pub type HighlightedLines = Vec<Vec<(String, (u8, u8, u8))>>;

pub struct FuzzyFinderState {
    pub workspace_id: u128,
    pub root: String,
    pub mode: FinderMode,
    pub query: String,
    /// When true, search every file, ignored ones included.
    pub show_ignored: bool,
    pub results: Vec<FinderMatch>,
    pub selected: usize,
    pub focus: FinderFocus,
    /// Paths marked for a multi-select confirm; none occurs twice.
    pub marked: Vec<String>,
    pub preview: Option<String>,
    pub preview_path: Option<String>,
    /// Extra lines scrolled beyond the preview's auto-centered position,
    /// reset only when the previewed subject changes.
    pub preview_scroll: StableScroll<PreviewSubject>,
    /// Bumped on every query/mode/toggle change; results tagged with an
    /// older generation are stale.
    pub search_gen: u64,
    pub preview_gen: u64,
    pub preview_highlighted: Option<HighlightedLines>,
}

/// The marked paths as a set of strings.
pub open spec fn marked_set(marked: Seq<String>) -> Set<Seq<char>> {
    string_views(marked).to_set()
}

/// The marked set after toggling `p`: removed when it was in, added when
/// it was not.
pub open spec fn toggled(s: Set<Seq<char>>, p: Seq<char>) -> Set<Seq<char>> {
    if s.contains(p) {
        s.remove(p)
    } else {
        s.insert(p)
    }
}

/// Whether no path is marked twice.
pub open spec fn marked_unique(marked: Seq<String>) -> bool {
    forall|i: int, j: int| 0 <= i < j < marked.len() ==> (#[trigger] marked[i])@ != (#[trigger] marked[j])@
}

/// A rearrangement of a list with no path twice has no path twice either.
proof fn lemma_unique_survives_permutation(a: Seq<String>, b: Seq<String>)
    requires
        marked_unique(a),
        string_views(b).to_multiset() == string_views(a).to_multiset(),
    ensures
        marked_unique(b),
{
    let av = string_views(a);
    let bv = string_views(b);
    assert(av.no_duplicates()) by {
        assert forall|i: int, j: int| 0 <= i < av.len() && 0 <= j < av.len() && i != j implies av[i] != av[j] by {
            if i < j {
                assert(a[i]@ != a[j]@);
            } else {
                assert(a[j]@ != a[i]@);
            }
        }
    }
    av.lemma_multiset_has_no_duplicates();
    bv.lemma_multiset_has_no_duplicates_conv();
    assert forall|i: int, j: int| 0 <= i < j < b.len() implies (#[trigger] b[i])@ != (#[trigger] b[j])@ by {
        assert(bv[i] == b[i]@ && bv[j] == b[j]@);
    }
}

/// `g` is `f` switched to the other mode: no results, highlight on the
/// first row, the preview's manual scroll forgotten, all else as it was.
pub open spec fn mode_toggled(f: FuzzyFinderState, g: FuzzyFinderState) -> bool {
    &&& g.mode == (if f.mode == FinderMode::Files {
        FinderMode::Content
    } else {
        FinderMode::Files
    })
    &&& g.results@.len() == 0
    &&& g.selected == 0
    &&& g.preview_scroll.subject_spec() is None
    &&& g.preview_scroll.offset_spec() == 0
    &&& g == (FuzzyFinderState { mode: g.mode, results: g.results, selected: 0, preview_scroll: g.preview_scroll, ..f })
}

impl FuzzyFinderState {
    pub fn new(workspace_id: u128, root: String) -> (r: Self)
        ensures
            r.workspace_id == workspace_id,
            r.root@ == root@,
            r.mode == FinderMode::Files,
            r.query@ == Seq::<char>::empty(),
            !r.show_ignored,
            r.results@.len() == 0,
            r.selected == 0,
            r.focus == FinderFocus::Results,
            r.marked@.len() == 0,
            r.preview is None,
            r.preview_path is None,
            r.preview_scroll.subject_spec() is None,
            r.preview_scroll.offset_spec() == 0,
            r.search_gen == 0,
            r.preview_gen == 0,
            r.preview_highlighted is None,
    {
        FuzzyFinderState {
            workspace_id,
            root,
            mode: FinderMode::Files,
            query: String::new(),
            show_ignored: false,
            results: Vec::new(),
            selected: 0,
            focus: FinderFocus::default(),
            marked: Vec::new(),
            preview: None,
            preview_path: None,
            preview_scroll: StableScroll::new(),
            search_gen: 0,
            preview_gen: 0,
            preview_highlighted: None,
        }
    }

    /// Switches between Files and Content mode, dropping the results, the
    /// selection and the preview's manual scroll.
    pub fn toggle_mode(&mut self)
        ensures
            mode_toggled(*old(self), *final(self)),
    {
        self.mode = match self.mode {
            FinderMode::Files => FinderMode::Content,
            FinderMode::Content => FinderMode::Files,
        };
        self.results.clear();
        self.selected = 0;
        self.preview_scroll.reset();
    }

    /// Flips whether ignored files are searched; nothing else changes.
    pub fn toggle_show_ignored(&mut self)
        ensures
            *final(self) == (FuzzyFinderState { show_ignored: !old(self).show_ignored, ..*old(self) }),
    {
        self.show_ignored = !self.show_ignored;
    }

    pub fn toggle_focus(&mut self)
        ensures
            final(self).focus == (if old(self).focus == FinderFocus::Results {
                FinderFocus::Preview
            } else {
                FinderFocus::Results
            }),
            *final(self) == (FuzzyFinderState { focus: final(self).focus, ..*old(self) }),
    {
        self.focus = match self.focus {
            FinderFocus::Results => FinderFocus::Preview,
            FinderFocus::Preview => FinderFocus::Results,
        };
    }

    /// Scrolls the preview by `delta` lines on top of its auto-centered
    /// position, clamping the offset to `[min, max]` at once.
    pub fn scroll_preview(&mut self, delta: i32, min: i32, max: i32)
        requires
            min <= max,
        ensures
            final(self).preview_scroll.offset_spec() == crate::stable_scroll::clamp_int(
                old(self).preview_scroll.offset_spec() + delta,
                min as int,
                max as int,
            ),
            final(self).preview_scroll.subject_spec() == old(self).preview_scroll.subject_spec(),
            *final(self) == (FuzzyFinderState { preview_scroll: final(self).preview_scroll, ..*old(self) }),
    {
        self.preview_scroll.scroll_clamped(delta, min, max);
    }

    /// Marks the highlighted row's path, or unmarks it when it was marked;
    /// nothing happens when no row is highlighted.
    pub fn toggle_mark(&mut self)
        requires
            marked_unique(old(self).marked@),
        ensures
            marked_unique(final(self).marked@),
            *final(self) == (FuzzyFinderState { marked: final(self).marked, ..*old(self) }),
            old(self).selected < old(self).results@.len() ==> {
                let p = old(self).results@[old(self).selected as int].path@;
                marked_set(final(self).marked@) == toggled(marked_set(old(self).marked@), p)
            },
            old(self).selected >= old(self).results@.len() ==> final(self).marked@ == old(self).marked@,
    {
        if self.selected < self.results.len() {
            let path = self.results[self.selected].path.clone();
            let ghost p = path@;
            let ghost before = self.marked@;
            let mut i: usize = 0;
            while i < self.marked.len() && !(self.marked[i] == path)
                invariant
                    i <= self.marked@.len(),
                    self.marked@ == before,
                    path@ == p,
                    forall|k: int| 0 <= k < i ==> (#[trigger] before[k])@ != p,
                decreases self.marked@.len() - i,
            {
                i = i + 1;
            }
            if i < self.marked.len() {
                self.marked.remove(i);
                proof {
                    let after = self.marked@;
                    assert(after == before.remove(i as int));
                    assert forall|a: int, b: int| 0 <= a < b < after.len() implies (#[trigger] after[a])@
                        != (#[trigger] after[b])@ by {
                        let a0 = if a < i { a } else { a + 1 };
                        let b0 = if b < i { b } else { b + 1 };
                        assert(after[a] == before[a0]);
                        assert(after[b] == before[b0]);
                    }
                    assert(string_views(after) == string_views(before).remove(i as int));
                    assert forall|x: Seq<char>| marked_set(after).contains(x) == marked_set(before).remove(p).contains(x) by {
                        if marked_set(after).contains(x) {
                            let k = choose|k: int| 0 <= k < string_views(after).len() && string_views(after)[k] == x;
                            let k0 = if k < i { k } else { k + 1 };
                            assert(string_views(before)[k0] == x);
                            assert(before[i as int]@ == p);
                            assert(x != p) by {
                                if x == p {
                                    assert(before[k0]@ == before[i as int]@);
                                }
                            }
                        }
                        if marked_set(before).remove(p).contains(x) {
                            let k = choose|k: int| 0 <= k < string_views(before).len() && string_views(before)[k] == x;
                            assert(k != i);
                            let k1 = if k < i { k } else { k - 1 };
                            assert(string_views(after)[k1] == x);
                        }
                    }
                    assert(marked_set(after) =~= marked_set(before).remove(p));
                    assert(string_views(before)[i as int] == p);
                    assert(marked_set(before).contains(p));
                }
            } else {
                self.marked.push(path);
                proof {
                    let after = self.marked@;
                    assert(string_views(after) == string_views(before).push(p));
                    assert forall|x: Seq<char>| marked_set(after).contains(x) == marked_set(before).insert(p).contains(x) by {
                        if marked_set(after).contains(x) {
                            let k = choose|k: int| 0 <= k < string_views(after).len() && string_views(after)[k] == x;
                            if k < before.len() {
                                assert(string_views(before)[k] == x);
                            }
                        }
                        if marked_set(before).contains(x) {
                            let k = choose|k: int| 0 <= k < string_views(before).len() && string_views(before)[k] == x;
                            assert(string_views(after)[k] == x);
                        }
                        if x == p {
                            assert(string_views(after)[before.len() as int] == x);
                        }
                    }
                    assert(marked_set(after) =~= marked_set(before).insert(p));
                    assert(!marked_set(before).contains(p)) by {
                        if marked_set(before).contains(p) {
                            let k = choose|k: int| 0 <= k < string_views(before).len() && string_views(before)[k] == p;
                            assert(before[k]@ == p);
                        }
                    }
                }
            }
        }
    }

    /// Moves the highlight by `delta` rows, clamped to the list; with no
    /// results the highlight goes back to 0.
    pub fn move_selection(&mut self, delta: i32)
        requires
            old(self).results@.len() <= i32::MAX,
            old(self).selected <= i32::MAX,
        ensures
            final(self).selected == (if old(self).results@.len() == 0 {
                0
            } else {
                crate::stable_scroll::clamp_int(
                    old(self).selected + delta,
                    0,
                    old(self).results@.len() - 1,
                )
            }),
            *final(self) == (FuzzyFinderState { selected: final(self).selected, ..*old(self) }),
    {
        if self.results.len() == 0 {
            self.selected = 0;
            return;
        }
        let len = self.results.len() as i64;
        let sum: i64 = self.selected as i64 + delta as i64;
        let next: i64 = if sum < 0 {
            0
        } else if sum > len - 1 {
            len - 1
        } else {
            sum
        };
        self.selected = next as usize;
    }

    /// Absolute path of the highlighted row: the workspace root joined with
    /// its relative path.
    pub fn selected_abs_path(&self) -> (r: Option<String>)
        ensures
            self.selected < self.results@.len() ==> r is Some && r->0@ == path_join(
                self.root@,
                self.results@[self.selected as int].path@,
            ),
            self.selected >= self.results@.len() ==> r is None,
    {
        if self.selected < self.results.len() {
            Some(join_path(self.root.as_str(), self.results[self.selected].path.as_str()))
        } else {
            None
        }
    }

    /// What a confirm inserts: every marked path, in path order, if any are
    /// marked; otherwise the highlighted row's path, or nothing.
    pub open spec fn confirm_targets_spec(&self) -> Seq<Seq<char>> {
        if self.marked@.len() > 0 {
            sorted_paths(string_views(self.marked@))
        } else if self.selected < self.results@.len() {
            seq![self.results@[self.selected as int].path@]
        } else {
            Seq::empty()
        }
    }

    /// Paths to insert on confirm: every marked path, in path order, if any
    /// are marked; otherwise the highlighted row's path, or nothing.
    pub fn confirm_targets(&self) -> (r: Vec<String>)
        ensures
            string_views(r@) == self.confirm_targets_spec(),
            self.marked@.len() > 0 ==> {
                &&& string_views(r@).to_multiset() == string_views(self.marked@).to_multiset()
                &&& forall|i: int, j: int| 0 <= i < j < r@.len() ==> path_le(#[trigger] r@[i]@, #[trigger] r@[j]@)
                &&& marked_unique(self.marked@) ==> marked_unique(r@)
            },
            self.marked@.len() == 0 && self.selected < self.results@.len() ==> r@.len() == 1 && r@[0]@
                == self.results@[self.selected as int].path@,
            self.marked@.len() == 0 && self.selected >= self.results@.len() ==> r@.len() == 0,
    {
        if self.marked.len() > 0 {
            let r = sort_paths(&self.marked);
            proof {
                if marked_unique(self.marked@) {
                    lemma_unique_survives_permutation(self.marked@, r@);
                }
            }
            r
        } else if self.selected < self.results.len() {
            let mut v: Vec<String> = Vec::new();
            v.push(self.results[self.selected].path.clone());
            assert(string_views(v@) =~= seq![v@[0]@]);
            v
        } else {
            let v: Vec<String> = Vec::new();
            assert(string_views(v@) =~= Seq::<Seq<char>>::empty());
            v
        }
    }
}

} // verus!
