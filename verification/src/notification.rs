use vstd::prelude::*;

use std::collections::VecDeque;
use std::time::Instant;

use crate::clock::{duration_as_nanos, instant_elapsed, instant_now};

verus! {

/// How long a toast stays on screen, in nanoseconds.
pub const LIFETIME_NANOS: u128 = 4_000_000_000;

/// Fade-in time of a fresh toast, in nanoseconds.
pub const FADE_IN_NANOS: u128 = 120_000_000;

/// Fade-out time before a toast's lifetime ends, in nanoseconds.
pub const FADE_OUT_NANOS: u128 = 200_000_000;

/// Most toasts stacked at once; the oldest is evicted first.
pub const MAX_VISIBLE: usize = 4;

#[derive(Clone, Copy, Debug, PartialEq, Eq, Structural)]
pub enum NotificationKind {
    Info,
    Warn,
    Error,
}

impl NotificationKind {
    pub open spec fn rgb_spec(self) -> (u8, u8, u8) {
        match self {
            NotificationKind::Info => (59u8, 130u8, 246u8),
            NotificationKind::Warn => (245u8, 158u8, 11u8),
            NotificationKind::Error => (239u8, 68u8, 68u8),
        }
    }

    /// The toast's accent color.
    pub fn rgb(self) -> (r: (u8, u8, u8))
        ensures
            r == self.rgb_spec(),
    {
        match self {
            NotificationKind::Info => (59, 130, 246),
            NotificationKind::Warn => (245, 158, 11),
            NotificationKind::Error => (239, 68, 68),
        }
    }
}

/// One toast card.
pub struct Notification {
    pub id: u64,
    pub kind: NotificationKind,
    pub title: String,
    pub message: String,
    pub shown_at: Instant,
}

impl Notification {
    /// Time since the card appeared, in nanoseconds (read off the clock).
    pub fn elapsed_nanos(&self) -> u128 {
        let d = instant_elapsed(&self.shown_at);
        duration_as_nanos(&d)
    }
}

/// Whether a card `elapsed` nanoseconds old is mid-fade rather than fully
/// opaque: still fading in, already fading out, or past its lifetime.
pub open spec fn fading(elapsed: u128) -> bool {
    elapsed < FADE_IN_NANOS || elapsed > LIFETIME_NANOS - FADE_OUT_NANOS
}

/// Whether a card `elapsed` nanoseconds old is still within its lifetime.
pub open spec fn alive(elapsed: u128) -> bool {
    elapsed < LIFETIME_NANOS
}

/// The elements of `s` whose flag in `keep` is set, in their order in `s`.
pub open spec fn select<T>(s: Seq<T>, keep: Seq<bool>) -> Seq<T>
    decreases s.len(),
{
    if s.len() == 0 {
        Seq::empty()
    } else {
        let rest = select(s.drop_last(), keep.take(s.len() - 1));
        if keep[s.len() - 1] {
            rest.push(s.last())
        } else {
            rest
        }
    }
}

/// The cards of `q` other than the one with this id, in order.
pub open spec fn without_card(q: Seq<Notification>, id: u64) -> Seq<Notification> {
    select(q, Seq::new(q.len(), |i: int| q[i].id != id))
}

/// Which cards of the given ages are kept: those younger than the lifetime.
pub open spec fn expiry_keep(ages: Seq<u128>) -> Seq<bool> {
    Seq::new(ages.len(), |k: int| ages[k] < LIFETIME_NANOS)
}

/// Ids strictly increasing from oldest to newest.
pub open spec fn ids_increasing(q: Seq<Notification>) -> bool {
    forall|i: int, j: int| 0 <= i < j < q.len() ==> q[i].id < q[j].id
}

/// A selection keeps elements of `s` only, keeps their order, and is no longer than `s`.
pub proof fn lemma_select_subsequence<T>(s: Seq<T>, keep: Seq<bool>)
    requires
        keep.len() == s.len(),
    ensures
        select(s, keep).len() <= s.len(),
        forall|x: T| select(s, keep).contains(x) ==> s.contains(x),
    decreases s.len(),
{
    if s.len() > 0 {
        let rest = s.drop_last();
        lemma_select_subsequence(rest, keep.take(s.len() - 1));
        assert forall|x: T| select(s, keep).contains(x) implies s.contains(x) by {
            let r = select(rest, keep.take(s.len() - 1));
            if r.contains(x) {
                let k = choose|k: int| 0 <= k < r.len() && r[k] == x;
                assert(rest.contains(x));
                let m = choose|m: int| 0 <= m < rest.len() && rest[m] == x;
                assert(s[m] == x);
            } else {
                assert(s[s.len() - 1] == x);
            }
        }
    }
}

/// Selecting from a queue with increasing ids keeps the ids increasing.
pub proof fn lemma_select_keeps_ids_increasing(s: Seq<Notification>, keep: Seq<bool>)
    requires
        keep.len() == s.len(),
        ids_increasing(s),
    ensures
        ids_increasing(select(s, keep)),
        forall|x: Notification| select(s, keep).contains(x) ==> s.contains(x),
    decreases s.len(),
{
    lemma_select_subsequence(s, keep);
    if s.len() > 0 {
        let rest = s.drop_last();
        let kr = keep.take(s.len() - 1);
        lemma_select_keeps_ids_increasing(rest, kr);
        let r = select(rest, kr);
        if keep[s.len() - 1] {
            let x = s.last();
            assert forall|i: int, j: int| 0 <= i < j < r.len() + 1 implies #[trigger] r.push(x)[i].id
                < #[trigger] r.push(x)[j].id by {
                assert(r.push(x)[i] == r[i]);
                if j == r.len() {
                    assert(r.push(x)[j] == x);
                    assert(r.contains(r[i]));
                    assert(rest.contains(r[i]));
                    let m = choose|m: int| 0 <= m < rest.len() && rest[m] == r[i];
                    assert(rest[m] == s[m]);
                } else {
                    assert(r.push(x)[j] == r[j]);
                }
            }
        }
    }
}

/// Toast notification engine: cards are pushed through `info`/`warn`/`error`,
/// `tick` expires the ones shown for longer than the lifetime.
pub struct NotificationCenter {
    queue: VecDeque<Notification>,
    next_id: u64,
}

impl NotificationCenter {
    /// The visible cards, oldest first.
    pub closed spec fn queue_spec(&self) -> Seq<Notification> {
        self.queue@
    }

    /// The id the next pushed card gets.
    pub closed spec fn next_id_spec(&self) -> u64 {
        self.next_id
    }

    /// At most `MAX_VISIBLE` cards, ids increasing and all below `next_id`.
    pub open spec fn wf(&self) -> bool {
        &&& self.queue_spec().len() <= MAX_VISIBLE
        &&& ids_increasing(self.queue_spec())
        &&& forall|i: int| 0 <= i < self.queue_spec().len() ==> #[trigger] self.queue_spec()[i].id
            < self.next_id_spec()
    }

    pub fn new() -> (r: Self)
        ensures
            r.queue_spec().len() == 0,
            r.next_id_spec() == 0,
            r.wf(),
    {
        NotificationCenter { queue: VecDeque::new(), next_id: 0 }
    }

    /// Pushes an info card.
    pub fn info(&mut self, title: String, message: String)
        requires
            old(self).wf(),
            old(self).next_id_spec() < u64::MAX,
        ensures
            final(self).pushed_from(*old(self), NotificationKind::Info, title@, message@),
    {
        self.push(NotificationKind::Info, title, message);
    }

    /// Pushes a warning card.
    pub fn warn(&mut self, title: String, message: String)
        requires
            old(self).wf(),
            old(self).next_id_spec() < u64::MAX,
        ensures
            final(self).pushed_from(*old(self), NotificationKind::Warn, title@, message@),
    {
        self.push(NotificationKind::Warn, title, message);
    }

    /// Pushes an error card.
    pub fn error(&mut self, title: String, message: String)
        requires
            old(self).wf(),
            old(self).next_id_spec() < u64::MAX,
        ensures
            final(self).pushed_from(*old(self), NotificationKind::Error, title@, message@),
    {
        self.push(NotificationKind::Error, title, message);
    }

    /// `self` is `before` after one card of `kind` with these texts was pushed:
    /// it got the next id, was appended last, and the oldest cards beyond
    /// `MAX_VISIBLE` were evicted.
    pub open spec fn pushed_from(
        self,
        before: NotificationCenter,
        kind: NotificationKind,
        title: Seq<char>,
        message: Seq<char>,
    ) -> bool {
        let q = before.queue_spec();
        let n = self.queue_spec().last();
        &&& self.wf()
        &&& self.next_id_spec() == before.next_id_spec() + 1
        &&& self.queue_spec().len() == if q.len() + 1 > MAX_VISIBLE {
            MAX_VISIBLE as int
        } else {
            q.len() + 1int
        }
        &&& n.id == before.next_id_spec()
        &&& n.kind == kind
        &&& n.title@ == title
        &&& n.message@ == message
        &&& self.queue_spec().drop_last() == q.skip(q.len() + 1 - self.queue_spec().len())
    }

    fn push(&mut self, kind: NotificationKind, title: String, message: String)
        requires
            old(self).wf(),
            old(self).next_id_spec() < u64::MAX,
        ensures
            final(self).pushed_from(*old(self), kind, title@, message@),
    {
        let ghost q = self.queue@;
        let id = self.next_id;
        self.next_id = self.next_id + 1;
        self.queue.push_back(Notification { id, kind, title, message, shown_at: instant_now() });
        let ghost pushed = self.queue@;
        assert(pushed.drop_last() == q);
        if self.queue.len() > MAX_VISIBLE {
            self.queue.pop_front();
            assert(self.queue@.drop_last() == q.skip(1));
        } else {
            assert(q.skip(0) == q);
        }
        assert(ids_increasing(self.queue@)) by {
            assert forall|i: int, j: int| 0 <= i < j < self.queue@.len() implies self.queue@[i].id
                < self.queue@[j].id by {
                let off: int = pushed.len() - self.queue@.len();
                assert(self.queue@[i] == pushed[i + off]);
                assert(self.queue@[j] == pushed[j + off]);
                if j + off == pushed.len() - 1 {
                    assert(pushed[i + off] == q[i + off]);
                }
            }
        }
        assert forall|i: int| 0 <= i < self.queue@.len() implies #[trigger] self.queue@[i].id < self.next_id by {
            let off: int = pushed.len() - self.queue@.len();
            assert(self.queue@[i] == pushed[i + off]);
        }
    }

    /// Keeps exactly the cards whose flag in `keep` is set, in order.
    pub fn retain_flagged(&mut self, keep: &Vec<bool>)
        requires
            old(self).wf(),
            keep@.len() == old(self).queue_spec().len(),
        ensures
            final(self).queue_spec() == select(old(self).queue_spec(), keep@),
            final(self).next_id_spec() == old(self).next_id_spec(),
            final(self).wf(),
    {
        let ghost q = self.queue@;
        let mut kept: VecDeque<Notification> = VecDeque::new();
        let len = self.queue.len();
        let mut done: usize = 0;
        while done < len
            invariant
                len == q.len(),
                q.len() == keep@.len(),
                self.next_id == old(self).next_id,
                done <= q.len(),
                self.queue@ == q.skip(done as int),
                kept@ == select(q.take(done as int), keep@.take(done as int)),
            decreases len - done,
        {
            let n = self.queue.pop_front().unwrap();
            let ghost i: int = done as int;
            assert(n == q[i]);
            assert(q.take(i + 1).drop_last() == q.take(i));
            assert(keep@.take(i + 1).take(i) == keep@.take(i));
            if keep[done] {
                kept.push_back(n);
            }
            done = done + 1;
            assert(self.queue@ == q.skip(done as int));
        }
        assert(q.take(q.len() as int) == q);
        assert(keep@.take(q.len() as int) == keep@);
        self.queue = kept;
        proof {
            lemma_select_keeps_ids_increasing(q, keep@);
            lemma_select_subsequence(q, keep@);
            assert forall|i: int| 0 <= i < self.queue@.len() implies #[trigger] self.queue@[i].id
                < self.next_id by {
                assert(self.queue@.contains(self.queue@[i]));
                assert(q.contains(self.queue@[i]));
                let m = choose|m: int| 0 <= m < q.len() && q[m] == self.queue@[i];
                assert(q[m].id < self.next_id);
            }
        }
    }

    /// Removes the card with this id at once (the close button).
    pub fn dismiss(&mut self, id: u64)
        requires
            old(self).wf(),
        ensures
            final(self).queue_spec() == without_card(old(self).queue_spec(), id),
            final(self).next_id_spec() == old(self).next_id_spec(),
            final(self).wf(),
    {
        let mut keep: Vec<bool> = Vec::new();
        let mut i: usize = 0;
        while i < self.queue.len()
            invariant
                i <= self.queue@.len(),
                keep@.len() == i,
                forall|k: int| 0 <= k < i ==> keep@[k] == (self.queue@[k].id != id),
            decreases self.queue@.len() - i,
        {
            keep.push(self.queue[i].id != id);
            i = i + 1;
        }
        assert(keep@ == Seq::new(self.queue@.len(), |k: int| self.queue@[k].id != id));
        self.retain_flagged(&keep);
    }

    /// Drops every card whose age (nanoseconds, one per visible card, oldest
    /// first) reached the lifetime, keeping the rest in order.
    pub fn expire(&mut self, ages: &Vec<u128>)
        requires
            old(self).wf(),
            ages@.len() == old(self).queue_spec().len(),
        ensures
            final(self).queue_spec() == select(old(self).queue_spec(), expiry_keep(ages@)),
            final(self).next_id_spec() == old(self).next_id_spec(),
            final(self).wf(),
    {
        let mut keep: Vec<bool> = Vec::new();
        let mut i: usize = 0;
        while i < ages.len()
            invariant
                i <= ages@.len(),
                keep@.len() == i,
                forall|k: int| 0 <= k < i ==> keep@[k] == (ages@[k] < LIFETIME_NANOS),
            decreases ages@.len() - i,
        {
            keep.push(ages[i] < LIFETIME_NANOS);
            i = i + 1;
        }
        assert(keep@ =~= expiry_keep(ages@));
        self.retain_flagged(&keep);
    }

    /// Drops every card shown for at least the lifetime, reading each
    /// card's age off the clock once.
    pub fn tick(&mut self)
        requires
            old(self).wf(),
        ensures
            exists|ages: Seq<u128>|
                ages.len() == old(self).queue_spec().len() && final(self).queue_spec() == #[trigger] select(
                    old(self).queue_spec(),
                    expiry_keep(ages),
                ),
            final(self).next_id_spec() == old(self).next_id_spec(),
            final(self).wf(),
    {
        let mut ages: Vec<u128> = Vec::new();
        let mut i: usize = 0;
        while i < self.queue.len()
            invariant
                i <= self.queue@.len(),
                ages@.len() == i,
            decreases self.queue@.len() - i,
        {
            ages.push(self.queue[i].elapsed_nanos());
            i = i + 1;
        }
        let ghost a = ages@;
        self.expire(&ages);
        assert(a.len() == old(self).queue_spec().len() && self.queue_spec() == select(
            old(self).queue_spec(),
            expiry_keep(a),
        ));
    }

    /// The visible cards, oldest first.
    pub fn visible(&self) -> (r: &VecDeque<Notification>)
        ensures
            r@ == self.queue_spec(),
    {
        &self.queue
    }

    /// Whether any card is mid-fade, judged by the clock: the age of each
    /// card is read once, and the answer is whether any of those ages is
    /// mid-fade. Which ages are read depends on the clock.
    pub fn is_animating(&self) -> (r: bool)
        ensures
            self.queue_spec().len() == 0 ==> !r,
            exists|ages: Seq<u128>|
                ages.len() == self.queue_spec().len() && r == #[trigger] any_fading_spec(ages),
    {
        let mut elapsed: Vec<u128> = Vec::new();
        let mut i: usize = 0;
        while i < self.queue.len()
            invariant
                i <= self.queue@.len(),
                elapsed@.len() == i,
            decreases self.queue@.len() - i,
        {
            elapsed.push(self.queue[i].elapsed_nanos());
            i = i + 1;
        }
        let r = any_fading(&elapsed);
        assert(elapsed@.len() == self.queue_spec().len() && r == any_fading_spec(elapsed@));
        r
    }
}

/// Whether any of the given card ages (in nanoseconds) is mid-fade.
pub open spec fn any_fading_spec(ages: Seq<u128>) -> bool {
    exists|i: int| 0 <= i < ages.len() && fading(#[trigger] ages[i])
}

/// Whether any of the given card ages (in nanoseconds) is mid-fade.
pub fn any_fading(elapsed: &Vec<u128>) -> (r: bool)
    ensures
        r == any_fading_spec(elapsed@),
{
    let mut i: usize = 0;
    while i < elapsed.len()
        invariant
            i <= elapsed@.len(),
            forall|k: int| 0 <= k < i ==> !fading(#[trigger] elapsed@[k]),
        decreases elapsed@.len() - i,
    {
        let e = elapsed[i];
        if e < FADE_IN_NANOS || e > LIFETIME_NANOS - FADE_OUT_NANOS {
            return true;
        }
        i = i + 1;
    }
    false
}

} // verus!
