use vstd::prelude::*;

use crate::app_model::{without, ne_id};
use crate::explorer::is_expanded;
use crate::fuzzy_finder::{
    cap, descending, lemma_match_files_len, lemma_ranked_descending, lemma_ranked_permutation, match_files_spec,
    ranked, scored, toggled, RESULT_LIMIT,
};
use crate::pty_output::{
    base64_part, base64_standard_decode, bytes_match_at, find_bytes, is_clipboard_query, keep_tail, lemma_find_bytes_range,
    lemma_tail_keep_len_range, lemma_terminator_range, osc52_prefix, tail_keep_len, osc52_scan, terminator, utf8_lossy, OSC52_MAX_PENDING,
};
use crate::scroll_coalesce::{
    accelerated_lines, next_streak, scaled_ticks, CONTINUATION_WINDOW_NANOS, MAX_LINES_PER_BURST, MAX_STREAK,
};
use crate::text::blank;
use crate::git::{lemma_repo_index, repo_index, GitRepoState};
use crate::stable_scroll::clamp_int;
use crate::scroll::centered_offset_spec;
use crate::app_model::AppModel;
use crate::mouse::HitMap;
use crate::input::MouseEvent;
use crate::notification::{ids_increasing, select, without_card, Notification, NotificationCenter, NotificationKind, MAX_VISIBLE};
use crate::text_input::{not_line_break, single_line};
use crate::input::{KeyCode, KeyEvent};
use crate::terminal_protocol::key_bytes_spec;
use crate::app_model::{hook_status_spec, Effect, HookEventKind, RuntimeStatus};
use crate::explorer::{dir_for_selection_spec, flatten_spec};
use crate::paths::path_parent;
use crate::keys::{explorer_key_post, terminal_key_post};
use crate::app_model::session_index;
use crate::modal::Modal;

verus! {

// ---------------------------------------------------------------------------
// Wheel acceleration

/// A burst never forwards more than `MAX_LINES_PER_BURST` lines either way.
pub proof fn law_burst_lines_capped(ticks: int, streak: int)
    ensures
        -MAX_LINES_PER_BURST <= accelerated_lines(ticks, streak) <= MAX_LINES_PER_BURST,
{
}

/// Acceleration keeps the wheel's direction: notches up scroll up, notches
/// down scroll down, and no net notch scrolls nothing.
pub proof fn law_burst_keeps_direction(ticks: int, streak: int)
    requires
        streak >= 0,
    ensures
        ticks > 0 ==> accelerated_lines(ticks, streak) > 0,
        ticks < 0 ==> accelerated_lines(ticks, streak) < 0,
        ticks == 0 ==> accelerated_lines(ticks, streak) == 0,
{
    assert(ticks > 0 ==> ticks * (2 + streak) >= 2) by (nonlinear_arith)
        requires
            streak >= 0,
    ;
    assert(ticks < 0 ==> ticks * (2 + streak) <= -2) by (nonlinear_arith)
        requires
            streak >= 0,
    ;
    assert(ticks == 0 ==> ticks * (2 + streak) == 0) by (nonlinear_arith);
}

/// A pause starts a fresh flick: after no previous burst, or a gap longer
/// than the continuation window, the streak is back at zero.
pub proof fn law_pause_resets_streak(streak: u32, gap: Option<u128>)
    requires
        gap is None || gap->0 > CONTINUATION_WINDOW_NANOS,
    ensures
        next_streak(streak, gap) == 0,
{
}

/// Consecutive fast bursts ramp up: each one within the window raises the
/// streak by one up to its cap, and a higher streak never forwards fewer
/// lines for the same notches.
pub proof fn law_fast_bursts_ramp_up(streak: u32, gap: u128, ticks: int)
    requires
        streak <= MAX_STREAK,
        gap <= CONTINUATION_WINDOW_NANOS,
    ensures
        next_streak(streak, Some(gap)) == if streak < MAX_STREAK {
            streak + 1
        } else {
            MAX_STREAK as int
        },
        ticks >= 0 ==> accelerated_lines(ticks, next_streak(streak, Some(gap)) as int) >= accelerated_lines(
            ticks,
            streak as int,
        ),
        ticks <= 0 ==> accelerated_lines(ticks, next_streak(streak, Some(gap)) as int) <= accelerated_lines(
            ticks,
            streak as int,
        ),
{
    let n = next_streak(streak, Some(gap)) as int;
    let s = streak as int;
    assert(n >= s);
    assert(ticks >= 0 ==> ticks * (2 + n) >= ticks * (2 + s)) by (nonlinear_arith)
        requires
            n >= s,
    ;
    assert(ticks <= 0 ==> ticks * (2 + n) <= ticks * (2 + s)) by (nonlinear_arith)
        requires
            n >= s,
    ;
    assert(ticks * (2 + s) >= 0 ==> (ticks * (2 + n) + 1) / 2 >= (ticks * (2 + s) + 1) / 2 || ticks < 0)
        by (nonlinear_arith)
        requires
            ticks >= 0 ==> ticks * (2 + n) >= ticks * (2 + s),
    ;
    assert(ticks * (2 + s) <= 0 && ticks <= 0 ==> (-(ticks * (2 + n)) + 1) / 2 >= (-(ticks * (2 + s)) + 1) / 2)
        by (nonlinear_arith)
        requires
            ticks <= 0 ==> ticks * (2 + n) <= ticks * (2 + s),
    ;
    assert(ticks >= 0 ==> ticks * (2 + s) >= 0) by (nonlinear_arith)
        requires
            s >= 0,
    ;
    assert(ticks <= 0 ==> ticks * (2 + s) <= 0 && ticks * (2 + n) <= 0) by (nonlinear_arith)
        requires
            s >= 0,
            n >= 0,
    ;
}

/// With no streak running, notches scroll one line each, up to the cap.
pub proof fn law_unaccelerated_notches_one_to_one(ticks: int)
    ensures
        accelerated_lines(ticks, 0) == if ticks > MAX_LINES_PER_BURST {
            MAX_LINES_PER_BURST as int
        } else if ticks < -MAX_LINES_PER_BURST {
            -MAX_LINES_PER_BURST
        } else {
            ticks
        },
{
    assert(scaled_ticks(ticks, 0) == ticks);
}

// ---------------------------------------------------------------------------
// Fuzzy finder

/// For a non-blank query, the results come best first (scores never
/// increase), hold at most `RESULT_LIMIT` entries, and every entry is a
/// candidate that matched, with its own score and indices.
pub proof fn law_match_results_ranked(query: Seq<char>, cands: Seq<String>)
    requires
        !blank(query),
    ensures
        descending(match_files_spec(query, cands)),
        match_files_spec(query, cands).len() <= RESULT_LIMIT,
        forall|i: int|
            0 <= i < match_files_spec(query, cands).len() ==> scored(query, cands).contains(
                #[trigger] match_files_spec(query, cands)[i],
            ),
{
    let r = ranked(scored(query, cands));
    lemma_ranked_descending(scored(query, cands));
    lemma_ranked_permutation(scored(query, cands));
    lemma_match_files_len(query, cands);
    let m = match_files_spec(query, cands);
    assert forall|i: int| 0 <= i < m.len() implies scored(query, cands).contains(#[trigger] m[i]) by {
        assert(m[i] == r[i]);
        assert(r.to_multiset().count(r[i]) > 0) by {
            vstd::seq_lib::to_multiset_contains(r, r[i]);
            assert(r.contains(r[i]));
        }
        vstd::seq_lib::to_multiset_contains(scored(query, cands), r[i]);
    }
}

/// When every candidate matches, no match is lost below the result limit:
/// the results hold them all, or exactly `RESULT_LIMIT` of them.
pub proof fn law_match_results_fill_limit(query: Seq<char>, cands: Seq<String>)
    requires
        !blank(query),
    ensures
        match_files_spec(query, cands).len() == if scored(query, cands).len() < RESULT_LIMIT {
            scored(query, cands).len() as int
        } else {
            RESULT_LIMIT as int
        },
{
    lemma_ranked_permutation(scored(query, cands));
    vstd::seq_lib::to_multiset_len(scored(query, cands));
    vstd::seq_lib::to_multiset_len(ranked(scored(query, cands)));
}

/// Marking the same path twice undoes the first toggle.
pub proof fn law_toggle_mark_twice(s: Set<Seq<char>>, p: Seq<char>)
    ensures
        toggled(toggled(s, p), p) == s,
{
    assert(toggled(toggled(s, p), p) =~= s);
}

// ---------------------------------------------------------------------------
// Explorer

/// Toggling a directory twice leaves it expanded exactly when it was.
pub proof fn law_toggle_dir_twice(e0: Seq<String>, e1: Seq<String>, e2: Seq<String>, d: Seq<char>)
    requires
        is_expanded(e0, d) ==> !is_expanded(e1, d),
        !is_expanded(e0, d) ==> is_expanded(e1, d),
        is_expanded(e1, d) ==> !is_expanded(e2, d),
        !is_expanded(e1, d) ==> is_expanded(e2, d),
    ensures
        is_expanded(e2, d) == is_expanded(e0, d),
{
}

// ---------------------------------------------------------------------------
// Workspaces and sessions

/// Switching to the next workspace tab and back lands on the same tab, and
/// so does the other way round.
pub proof fn law_cycle_there_and_back(cur: int, len: int)
    requires
        0 <= cur < len,
    ensures
        (((cur + 1) % len) - 1) % len == cur,
        (((cur - 1) % len) + 1) % len == cur,
{
    if cur + 1 == len {
        assert((cur + 1) % len == 0) by (nonlinear_arith)
            requires
                cur + 1 == len,
                len > 0,
        ;
        assert((0 - 1) % len == len - 1) by (nonlinear_arith)
            requires
                len > 0,
        ;
    } else {
        assert((cur + 1) % len == cur + 1) by (nonlinear_arith)
            requires
                0 <= cur + 1 < len,
        ;
        assert((cur + 1 - 1) % len == cur) by (nonlinear_arith)
            requires
                0 <= cur < len,
        ;
    }
    if cur == 0 {
        assert((0 - 1) % len == len - 1) by (nonlinear_arith)
            requires
                len > 0,
        ;
        assert((len - 1 + 1) % len == 0) by (nonlinear_arith)
            requires
                len > 0,
        ;
    } else {
        assert((cur - 1) % len == cur - 1) by (nonlinear_arith)
            requires
                0 <= cur - 1 < len,
        ;
        assert((cur - 1 + 1) % len == cur) by (nonlinear_arith)
            requires
                0 <= cur < len,
        ;
    }
}

/// A session that is gone is listed nowhere any more, and no workspace
/// shows it: one that showed it moves on to its first remaining session.
pub proof fn law_gone_session_not_listed(ids: Seq<u128>, focused: Option<u128>, id: u128)
    ensures
        !without(ids, id).contains(id),
        (if focused == Some(id) {
            if without(ids, id).len() > 0 {
                Some(without(ids, id)[0])
            } else {
                None
            }
        } else {
            focused
        }) != Some(id),
{
    broadcast use vstd::seq_lib::group_filter_ensures;

    if without(ids, id).contains(id) {
        let k = choose|k: int| 0 <= k < without(ids, id).len() && without(ids, id)[k] == id;
        assert(ne_id(id)(without(ids, id)[k]));
    }
    if focused == Some(id) && without(ids, id).len() > 0 {
        assert(ne_id(id)(without(ids, id)[0]));
    }
}

// ---------------------------------------------------------------------------
// Text input

/// A paste into a single-line field never brings a line break with it.
pub proof fn law_paste_single_line(input: Seq<char>, text: Seq<char>)
    ensures
        forall|i: int|
            input.len() <= i < (input + single_line(text)).len() ==> not_line_break(
                #[trigger] (input + single_line(text))[i],
            ),
{
    let f = single_line(text);
    broadcast use vstd::seq_lib::group_filter_ensures;
    assert forall|i: int| input.len() <= i < (input + f).len() implies not_line_break(#[trigger] (input + f)[i]) by {
        assert((input + f)[i] == f[i - input.len()]);
    }
}

// ---------------------------------------------------------------------------
// Clipboard escapes in terminal output

/// The bytes carried over between chunks never exceed
/// `OSC52_MAX_PENDING`, whatever the stream holds.
pub proof fn law_osc52_pending_bounded(b: Seq<u8>, found: Option<Seq<char>>)
    ensures
        osc52_scan(b, found).1.len() <= OSC52_MAX_PENDING,
    decreases b.len(),
{
    let start = find_bytes(b, osc52_prefix(), 0);
    lemma_find_bytes_range(b, osc52_prefix(), 0);
    if start < 0 || start + 5 > b.len() {
        lemma_tail_keep_len_range(b, 4);
    } else {
        let seq_buf = b.skip(start);
        let body = seq_buf.skip(5);
        lemma_terminator_range(body);
        match terminator(body) {
            None => {},
            Some((payload_end, seq_end)) => {
                if seq_end < 1 || 5 + seq_end > seq_buf.len() || payload_end > seq_end {
                } else {
                    let rest = seq_buf.skip(5 + seq_end);
                    let payload = seq_buf.subrange(5, 5 + payload_end);
                    let next = if is_clipboard_query(payload) {
                        found
                    } else {
                        match base64_standard_decode(base64_part(payload)) {
                            Some(d) => Some(utf8_lossy(d)),
                            None => found,
                        }
                    };
                    law_osc52_pending_bounded(rest, next);
                }
            },
        }
    }
}

/// A buffer without an escape byte has no tail that could begin an
/// introducer.
proof fn lemma_no_escape_keeps_nothing(b: Seq<u8>, n: int)
    requires
        forall|i: int| 0 <= i < b.len() ==> b[i] != 0x1bu8,
    ensures
        tail_keep_len(b, n) == 0,
    decreases n,
{
    if n > 0 {
        lemma_no_escape_keeps_nothing(b, n - 1);
        if n <= b.len() && b.skip(b.len() - n).is_prefix_of(osc52_prefix()) {
            assert(b.skip(b.len() - n)[0] == osc52_prefix()[0]);
            assert(b.skip(b.len() - n)[0] == b[b.len() - n]);
        }
    }
}

/// Output without any escape byte is passed over completely: nothing is
/// found and nothing is carried over.
pub proof fn law_plain_output_leaves_no_residue(b: Seq<u8>, found: Option<Seq<char>>)
    requires
        forall|i: int| 0 <= i < b.len() ==> b[i] != 0x1bu8,
    ensures
        osc52_scan(b, found) == (found, Seq::<u8>::empty()),
{
    lemma_find_bytes_range(b, osc52_prefix(), 0);
    let start = find_bytes(b, osc52_prefix(), 0);
    if start >= 0 {
        assert(b.subrange(start, start + 5)[0] == b[start]);
    }
    lemma_no_escape_keeps_nothing(b, 4);
    assert(b.skip(b.len() as int) =~= Seq::<u8>::empty());
}

/// Whether `b` holds an OSC 52 introducer whose body is terminated.
pub open spec fn has_terminated_osc52(b: Seq<u8>) -> bool {
    exists|i: int| #[trigger] bytes_match_at(b, osc52_prefix(), i) && terminator(b.skip(i + 5)) is Some
}

/// What may be carried over to the next chunk: a tail that could still grow
/// into an introducer (nothing at all included), or an introducer whose
/// body has not been terminated yet.
pub open spec fn pending_shape(k: Seq<u8>) -> bool {
    ||| k.len() < 5 && k.is_prefix_of(osc52_prefix())
    ||| k.len() >= 5 && k.take(5) == osc52_prefix() && terminator(k.skip(5)) is None
}

/// Clipboard text is only ever taken from a terminated sequence: a scan
/// whose text differs from what it started with saw an introducer followed
/// by a terminated body.
pub proof fn law_osc52_text_needs_terminated_sequence(b: Seq<u8>, found: Option<Seq<char>>)
    ensures
        osc52_scan(b, found).0 != found ==> has_terminated_osc52(b),
{
    let start = find_bytes(b, osc52_prefix(), 0);
    lemma_find_bytes_range(b, osc52_prefix(), 0);
    if start >= 0 && start + 5 <= b.len() {
        let body = b.skip(start).skip(5);
        assert(body == b.skip(start + 5));
        if terminator(body) is Some {
            assert(bytes_match_at(b, osc52_prefix(), start));
        }
    }
}

/// The kept tail, when not empty, is a suffix of the buffer that begins the
/// introducer.
proof fn lemma_tail_keep_len_prefix(b: Seq<u8>, n: int)
    ensures
        tail_keep_len(b, n) > 0 ==> b.skip(b.len() - tail_keep_len(b, n)).is_prefix_of(osc52_prefix()),
    decreases n,
{
    if n > 0 {
        lemma_tail_keep_len_prefix(b, n - 1);
    }
}

/// What a scan carries over never holds a complete sequence: it is either a
/// tail that may begin an introducer or an introducer still waiting for its
/// terminator.
pub proof fn law_osc52_pending_shape(b: Seq<u8>, found: Option<Seq<char>>)
    ensures
        pending_shape(osc52_scan(b, found).1),
    decreases b.len(),
{
    let start = find_bytes(b, osc52_prefix(), 0);
    lemma_find_bytes_range(b, osc52_prefix(), 0);
    if start < 0 || start + 5 > b.len() {
        lemma_tail_keep_len_range(b, 4);
        lemma_tail_keep_len_prefix(b, 4);
        let k = keep_tail(b);
        if tail_keep_len(b, 4) == 0 {
            assert(k =~= Seq::<u8>::empty());
            assert(k.is_prefix_of(osc52_prefix()));
        }
    } else {
        let seq_buf = b.skip(start);
        let body = seq_buf.skip(5);
        lemma_terminator_range(body);
        assert(seq_buf.take(5) =~= b.subrange(start, start + 5));
        match terminator(body) {
            None => {
                if seq_buf.len() > OSC52_MAX_PENDING {
                    assert(Seq::<u8>::empty().is_prefix_of(osc52_prefix()));
                }
            },
            Some((payload_end, seq_end)) => {
                let rest = seq_buf.skip(5 + seq_end);
                let payload = seq_buf.subrange(5, 5 + payload_end);
                let next = if is_clipboard_query(payload) {
                    found
                } else {
                    match base64_standard_decode(base64_part(payload)) {
                        Some(d) => Some(utf8_lossy(d)),
                        None => found,
                    }
                };
                law_osc52_pending_shape(rest, next);
            },
        }
    }
}

// ---------------------------------------------------------------------------
// Scrolling

/// A clamped scroll offset always lies within the bounds it was clamped to.
pub proof fn law_clamped_offset_in_bounds(v: int, lo: int, hi: int)
    requires
        lo <= hi,
    ensures
        lo <= clamp_int(v, lo, hi) <= hi,
        lo <= v <= hi ==> clamp_int(v, lo, hi) == v,
{
}

/// A list centred on its selection shows the selected row, and its window
/// never runs past either end of the list.
pub proof fn law_centered_window_shows_selection(len: int, selected: int, height: int)
    requires
        0 <= selected < len,
        height > 0,
    ensures
        0 <= centered_offset_spec(len, selected, height) <= selected,
        selected < centered_offset_spec(len, selected, height) + height,
        len <= height ==> centered_offset_spec(len, selected, height) == 0,
        len > height ==> centered_offset_spec(len, selected, height) + height <= len,
{
}

// ---------------------------------------------------------------------------
// Mouse forwarding

/// Once a press went to the session, its release goes too, wherever the
/// pointer is let go: the child never sees a press without its release.
pub proof fn law_held_press_gets_its_release(
    m: AppModel,
    h: HitMap,
    mouse: MouseEvent,
    wants_mouse: bool,
    wants_motion: bool,
)
    requires
        m.forwarding_mouse,
        mouse.kind is Up,
    ensures
        m.forwards(&h, mouse, wants_mouse, wants_motion),
{
}

// ---------------------------------------------------------------------------
// Notifications

/// `x` is an element of `s` whose flag in `keep` is set.
spec fn flagged_in<T>(s: Seq<T>, keep: Seq<bool>, x: T) -> bool {
    exists|i: int| 0 <= i < s.len() && keep[i] && s[i] == x
}

/// The cards a selection keeps are cards of the queue whose flag is set.
proof fn lemma_select_flagged<T>(s: Seq<T>, keep: Seq<bool>)
    requires
        keep.len() == s.len(),
    ensures
        forall|k: int| 0 <= k < select(s, keep).len() ==> flagged_in(s, keep, #[trigger] select(s, keep)[k]),
    decreases s.len(),
{
    if s.len() > 0 {
        let n = s.len() - 1;
        let rest = select(s.drop_last(), keep.take(n));
        lemma_select_flagged(s.drop_last(), keep.take(n));
        let out = select(s, keep);
        assert(out == if keep[n] { rest.push(s.last()) } else { rest });
        assert forall|k: int| 0 <= k < out.len() implies flagged_in(s, keep, #[trigger] out[k]) by {
            if k < rest.len() {
                assert(out[k] == rest[k]);
                assert(flagged_in(s.drop_last(), keep.take(n), rest[k]));
                let i = choose|i: int|
                    0 <= i < s.drop_last().len() && keep.take(n)[i] && s.drop_last()[i] == rest[k];
                assert(keep[i] && s[i] == out[k]);
            } else {
                assert(keep[n] && s[n] == out[k]);
            }
        }
    }
}

/// Selecting with every flag set keeps the whole queue.
proof fn lemma_select_all<T>(s: Seq<T>, keep: Seq<bool>)
    requires
        keep.len() == s.len(),
        forall|i: int| 0 <= i < keep.len() ==> keep[i],
    ensures
        select(s, keep) == s,
    decreases s.len(),
{
    if s.len() > 0 {
        lemma_select_all(s.drop_last(), keep.take(s.len() - 1));
        assert(s.drop_last().push(s.last()) =~= s);
    }
}

/// Dismissing a card leaves no card with its id, and dismissing an id that
/// no card has changes nothing.
pub proof fn law_dismiss_removes_only_that_card(q: Seq<Notification>, id: u64)
    ensures
        forall|k: int| 0 <= k < without_card(q, id).len() ==> (#[trigger] without_card(q, id)[k]).id != id,
        (forall|i: int| 0 <= i < q.len() ==> q[i].id != id) ==> without_card(q, id) == q,
{
    let keep = Seq::new(q.len(), |i: int| q[i].id != id);
    lemma_select_flagged(q, keep);
    assert forall|k: int| 0 <= k < without_card(q, id).len() implies (#[trigger] without_card(q, id)[k]).id
        != id by {
        assert(flagged_in(q, keep, without_card(q, id)[k]));
    }
    if forall|i: int| 0 <= i < q.len() ==> q[i].id != id {
        lemma_select_all(q, keep);
    }
}

/// A pushed card gets an id that no card shown before it has.
pub proof fn law_pushed_card_id_is_fresh(
    before: NotificationCenter,
    after: NotificationCenter,
    kind: NotificationKind,
    title: Seq<char>,
    message: Seq<char>,
)
    requires
        before.wf(),
        after.pushed_from(before, kind, title, message),
    ensures
        forall|i: int|
            0 <= i < before.queue_spec().len() ==> (#[trigger] before.queue_spec()[i]).id
                != after.queue_spec().last().id,
{
}

/// A push appends the new card last and evicts the oldest cards beyond
/// `MAX_VISIBLE`: the cards shown are the newest of the old ones followed by
/// the new card, whose id is the old `next_id`; ids keep increasing from
/// oldest to newest and stay below the next id to be handed out.
pub proof fn law_push_evicts_oldest(
    before: NotificationCenter,
    after: NotificationCenter,
    kind: NotificationKind,
    title: Seq<char>,
    message: Seq<char>,
)
    requires
        before.wf(),
        after.pushed_from(before, kind, title, message),
    ensures
        ({
            let q = before.queue_spec();
            let a = after.queue_spec();
            &&& a == q.push(a.last()).skip(q.len() + 1 - a.len())
            &&& a.len() == if q.len() < MAX_VISIBLE { q.len() + 1int } else { MAX_VISIBLE as int }
            &&& a.last().id == before.next_id_spec()
            &&& after.next_id_spec() == before.next_id_spec() + 1
            &&& ids_increasing(a)
            &&& forall|i: int| 0 <= i < a.len() ==> (#[trigger] a[i]).id < after.next_id_spec()
        }),
{
    let q = before.queue_spec();
    let a = after.queue_spec();
    let off = q.len() + 1 - a.len();
    assert(a =~= a.drop_last().push(a.last()));
    assert(q.push(a.last()).skip(off) =~= q.skip(off).push(a.last()));
}

// ---------------------------------------------------------------------------
// Git tab

/// Listing repositories that are all known already adds nothing: after
/// `add_repos` with such paths, the repositories are exactly what they were.
pub proof fn law_known_repos_add_nothing(before: Seq<GitRepoState>, after: Seq<GitRepoState>, paths: Seq<String>)
    requires
        forall|i: int| 0 <= i < paths.len() ==> repo_index(before, (#[trigger] paths[i])@) is Some,
        after.len() >= before.len(),
        after.take(before.len() as int) == before,
        forall|k: int|
            before.len() <= k < after.len() ==> {
                let n = #[trigger] after[k];
                &&& exists|i: int| 0 <= i < paths.len() && paths[i]@ == n.path@
                &&& repo_index(after, n.path@) == Some(k)
            },
    ensures
        after == before,
{
    if after.len() > before.len() {
        let k = before.len() as int;
        let n = after[k];
        let i = choose|i: int| 0 <= i < paths.len() && paths[i]@ == n.path@;
        let p = paths[i]@;
        lemma_repo_index(before, p);
        lemma_repo_index(after, p);
        let j = repo_index(before, p)->0;
        assert(after[j] == before[j]);
        assert(false);
    }
    assert(after =~= before);
}

// ---------------------------------------------------------------------------
// Keys sent to a session

/// The keys that move a cursor or a page.
pub open spec fn navigation_code(c: KeyCode) -> bool {
    ||| c == KeyCode::Up
    ||| c == KeyCode::Down
    ||| c == KeyCode::Right
    ||| c == KeyCode::Left
    ||| c == KeyCode::Home
    ||| c == KeyCode::End
    ||| c == KeyCode::PageUp
    ||| c == KeyCode::PageDown
    ||| c == KeyCode::Insert
    ||| c == KeyCode::Delete
}

/// Page Up and Page Down send `ESC [ 5 ~` and `ESC [ 6 ~` whatever
/// modifiers are held.
pub proof fn law_page_keys_send_their_sequences(key: KeyEvent)
    ensures
        key.code == KeyCode::PageUp ==> key_bytes_spec(key) == Some(seq![0x1bu8, 0x5bu8, 0x35u8, 0x7eu8]),
        key.code == KeyCode::PageDown ==> key_bytes_spec(key) == Some(seq![0x1bu8, 0x5bu8, 0x36u8, 0x7eu8]),
{
}

/// Two different navigation keys with the same modifiers never send the
/// same bytes, so the session always tells them apart.
pub proof fn law_navigation_keys_send_distinct_bytes(a: KeyEvent, b: KeyEvent)
    requires
        navigation_code(a.code),
        navigation_code(b.code),
        a.code != b.code,
        a.modifiers == b.modifiers,
    ensures
        key_bytes_spec(a) is Some,
        key_bytes_spec(b) is Some,
        key_bytes_spec(a) != key_bytes_spec(b),
{
    let sa = key_bytes_spec(a)->0;
    let sb = key_bytes_spec(b)->0;
    assert(sa.len() != sb.len() || sa.last() != sb.last() || sa[2] != sb[2]);
}

// ---------------------------------------------------------------------------
// Session status from hooks

/// A submitted prompt means the agent is thinking, a stop means it is
/// idle, and a notification means it waits on the user; no two hook kinds
/// give the same status.
pub proof fn law_hook_status(kind: HookEventKind, other: HookEventKind)
    ensures
        kind == HookEventKind::PromptSubmitted ==> hook_status_spec(kind) == RuntimeStatus::Thinking,
        kind == HookEventKind::Stopped ==> hook_status_spec(kind) == RuntimeStatus::Idle,
        kind == HookEventKind::Notification ==> hook_status_spec(kind) == RuntimeStatus::Waiting,
        kind != other ==> hook_status_spec(kind) != hook_status_spec(other),
{
}

// ---------------------------------------------------------------------------
// Where new Explorer entries go

/// A new file or folder goes into the highlighted directory, or next to
/// the highlighted file (in its parent); only a file without a parent, or
/// no highlighted row, falls back to the workspace root.
pub proof fn law_new_entry_goes_next_to_the_selection(
    rows: Seq<(Seq<char>, nat, bool)>,
    selected: int,
    root: Seq<char>,
)
    ensures
        0 <= selected < rows.len() && rows[selected].2 ==> dir_for_selection_spec(rows, selected, root)
            == rows[selected].0,
        0 <= selected < rows.len() && !rows[selected].2 && path_parent(rows[selected].0) is Some
            ==> dir_for_selection_spec(rows, selected, root) == path_parent(rows[selected].0)->0,
        0 <= selected < rows.len() && !rows[selected].2 && path_parent(rows[selected].0) is None
            ==> dir_for_selection_spec(rows, selected, root) == root,
        !(0 <= selected < rows.len()) ==> dir_for_selection_spec(rows, selected, root) == root,
{
}

/// Pressing `a` on the Explorer with a file highlighted opens the new-file
/// prompt in that file's parent directory.
pub proof fn law_new_file_prompt_opens_in_the_files_folder(pre: AppModel, post: AppModel, r: Seq<Effect>, key: KeyEvent)
    requires
        explorer_key_post(pre, post, key, r),
        key.code == KeyCode::Char('a'),
        !key.modifiers.control,
        pre.active_index() is Some,
    ensures
        ({
            let w = pre.workspaces@[pre.active_index()->0];
            let rows = flatten_spec(w.explorer.dirs@, w.explorer.expanded@, w.root@);
            let sel = w.explorer.selected as int;
            sel < rows.len() && !rows[sel].2 && path_parent(rows[sel].0) is Some ==> (post.modal matches Some(
                Modal::NewFile { dir, .. },
            ) && dir@ == path_parent(rows[sel].0)->0)
        }),
{
}

/// A key that answers a session waiting on the user moves it on: Esc or
/// Ctrl+C cancels (Idle), Enter confirms (Thinking); other keys leave it
/// waiting.
pub proof fn law_answering_key_moves_a_waiting_session(pre: AppModel, post: AppModel, key: KeyEvent, r: Seq<Effect>, i: int)
    requires
        terminal_key_post(pre, post, key, r),
        pre.focused_session_spec() is Some,
        session_index(pre.sessions@, pre.focused_session_spec()->0) == Some(i),
        pre.sessions@[i].status == Some(RuntimeStatus::Waiting),
    ensures
        key.code == KeyCode::Esc ==> post.sessions@[i].status == Some(RuntimeStatus::Idle),
        key.code == KeyCode::Char('c') && key.modifiers.control ==> post.sessions@[i].status == Some(RuntimeStatus::Idle),
        key.code == KeyCode::Enter ==> post.sessions@[i].status == Some(RuntimeStatus::Thinking),
        key.code == KeyCode::Up || key.code == KeyCode::Down || key.code == KeyCode::Tab || key.code == KeyCode::Char('1')
            ==> post.sessions@[i].status == Some(RuntimeStatus::Waiting),
{
}

} // verus!
