use vstd::prelude::*;
use vstd::std_specs::cmp::PartialEqSpec;

verus! {

/// A manual scroll offset that survives redundant re-renders of whatever it
/// is scrolling, but resets to zero the moment the subject being viewed
/// actually changes.
pub struct StableScroll<K> {
    subject: Option<K>,
    offset: i32,
}

impl<K: PartialEq> StableScroll<K> {
    /// The subject last declared through `set_subject`, if any.
    pub closed spec fn subject_spec(&self) -> Option<K> {
        self.subject
    }

    /// The current manual offset.
    pub closed spec fn offset_spec(&self) -> i32 {
        self.offset
    }

    /// Whether `subject` counts as the same subject as the one last declared.
    pub open spec fn same_subject(&self, subject: K) -> bool {
        match self.subject_spec() {
            Some(s) => s.eq_spec(&subject),
            None => false,
        }
    }

    pub fn new() -> (r: Self)
        ensures
            r.subject_spec() is None,
            r.offset_spec() == 0,
    {
        StableScroll { subject: None, offset: 0 }
    }

    /// Declares what should currently be showing. Keeps the offset when
    /// `subject` equals the last declared one and resets it to 0 otherwise
    /// (also on the first call).
    pub fn set_subject(&mut self, subject: K)
        ensures
            final(self).subject_spec() == Some(subject),
            K::obeys_eq_spec() ==> final(self).offset_spec() == (if old(self).same_subject(subject) {
                old(self).offset_spec()
            } else {
                0
            }),
            !K::obeys_eq_spec() ==> (final(self).offset_spec() == old(self).offset_spec()
                || final(self).offset_spec() == 0),
            old(self).subject_spec() is None ==> final(self).offset_spec() == 0,
    {
        let same = match &self.subject {
            Some(s) => s.eq(&subject),
            None => false,
        };
        if !same {
            self.offset = 0;
        }
        self.subject = Some(subject);
    }

    /// Clears the subject and the offset.
    pub fn reset(&mut self)
        ensures
            final(self).subject_spec() is None,
            final(self).offset_spec() == 0,
    {
        self.subject = None;
        self.offset = 0;
    }

    /// Adds `delta` to the offset and clamps the sum to `[min, max]` at once.
    pub fn scroll_clamped(&mut self, delta: i32, min: i32, max: i32)
        requires
            min <= max,
        ensures
            final(self).subject_spec() == old(self).subject_spec(),
            final(self).offset_spec() == clamp_int(old(self).offset_spec() + delta, min as int, max as int),
    {
        let sum: i64 = self.offset as i64 + delta as i64;
        self.offset = if sum < min as i64 {
            min
        } else if sum > max as i64 {
            max
        } else {
            sum as i32
        };
    }

    pub fn offset(&self) -> (r: i32)
        ensures
            r == self.offset_spec(),
    {
        self.offset
    }
}

/// `v` clamped into `[lo, hi]`.
pub open spec fn clamp_int(v: int, lo: int, hi: int) -> int {
    if v < lo {
        lo
    } else if v > hi {
        hi
    } else {
        v
    }
}

} // verus!
