use vstd::prelude::*;

use crate::input::{Event, MouseEvent, MouseEventKind};

verus! {

/// Most notches one drained burst nets together.
pub const MAX_NOTCHES_PER_BURST: usize = 3;

/// Bursts closer together than this (in nanoseconds) continue a flick.
pub const CONTINUATION_WINDOW_NANOS: u128 = 100_000_000;

/// Longest streak of consecutive fast bursts that still raises the multiplier.
pub const MAX_STREAK: u32 = 6;

/// Most lines forwarded for one burst.
pub const MAX_LINES_PER_BURST: i32 = 12;

/// The signed notch a wheel event contributes: +1 up, -1 down, none otherwise.
pub open spec fn tick_spec(kind: MouseEventKind) -> Option<i32> {
    match kind {
        MouseEventKind::ScrollUp => Some(1i32),
        MouseEventKind::ScrollDown => Some(-1i32),
        _ => None,
    }
}

pub fn tick(mouse: &MouseEvent) -> (r: Option<i32>)
    ensures
        r == tick_spec(mouse.kind),
{
    match mouse.kind {
        MouseEventKind::ScrollUp => Some(1),
        MouseEventKind::ScrollDown => Some(-1),
        _ => None,
    }
}

/// What one more event pulled off the input stream does to a scroll burst.
#[derive(Debug)]
pub enum BurstStep {
    /// A further wheel notch: the burst goes on with this net count.
    Notch { net: i32, last: MouseEvent },
    /// Not a wheel notch: the burst ends and the event is kept for later.
    Boundary,
}

/// Folds one more queued event into a burst whose net count so far is `net`.
pub fn burst_step(net: i32, event: &Event) -> (r: BurstStep)
    requires
        -(MAX_NOTCHES_PER_BURST as int) <= net <= MAX_NOTCHES_PER_BURST as int,
    ensures
        match event {
            Event::Mouse(m) => match tick_spec(m.kind) {
                Some(t) => r == (BurstStep::Notch { net: (net + t) as i32, last: *m }),
                None => r is Boundary,
            },
            _ => r is Boundary,
        },
{
    match event {
        Event::Mouse(m) => match tick(m) {
            Some(t) => BurstStep::Notch { net: net + t, last: *m },
            None => BurstStep::Boundary,
        },
        _ => BurstStep::Boundary,
    }
}

/// Whether a burst that has already drained `drained` notches may drain more.
pub fn burst_has_room(drained: usize) -> (r: bool)
    ensures
        r == (drained < MAX_NOTCHES_PER_BURST),
{
    drained < MAX_NOTCHES_PER_BURST
}

/// The streak after a burst that came `gap` nanoseconds after the last one.
pub open spec fn next_streak(streak: u32, gap: Option<u128>) -> u32 {
    match gap {
        Some(g) if g <= CONTINUATION_WINDOW_NANOS => if streak + 1 <= MAX_STREAK {
            (streak + 1) as u32
        } else {
            MAX_STREAK
        },
        _ => 0,
    }
}

/// `ticks * (1 + streak / 2)` rounded half away from zero.
pub open spec fn scaled_ticks(ticks: int, streak: int) -> int {
    let p = ticks * (2 + streak);
    if p >= 0 {
        (p + 1) / 2
    } else {
        -((-p + 1) / 2)
    }
}

/// Lines forwarded for `ticks` notches at `streak`, capped at the burst limit.
pub open spec fn accelerated_lines(ticks: int, streak: int) -> int {
    let s = scaled_ticks(ticks, streak);
    if s > MAX_LINES_PER_BURST {
        MAX_LINES_PER_BURST as int
    } else if s < -MAX_LINES_PER_BURST {
        -MAX_LINES_PER_BURST
    } else {
        s
    }
}

/// Scales a burst's net notches by how long an unbroken streak of fast
/// bursts led up to it.
pub struct ScrollAccelerator {
    streak: u32,
}

impl ScrollAccelerator {
    pub closed spec fn streak_spec(&self) -> u32 {
        self.streak
    }

    pub open spec fn wf(&self) -> bool {
        self.streak_spec() <= MAX_STREAK
    }

    pub fn new() -> (r: Self)
        ensures
            r.streak_spec() == 0,
            r.wf(),
    {
        ScrollAccelerator { streak: 0 }
    }

    /// `gap` is the time in nanoseconds since the previous forwarded burst
    /// (`None` for the first one of a gesture). Returns how many lines to
    /// forward for `ticks` net notches.
    pub fn accelerate(&mut self, ticks: i32, gap: Option<u128>) -> (lines: i32)
        ensures
            final(self).streak_spec() == next_streak(old(self).streak_spec(), gap),
            lines == accelerated_lines(ticks as int, final(self).streak_spec() as int),
            final(self).wf(),
    {
        let continues = match gap {
            Some(g) => g <= CONTINUATION_WINDOW_NANOS,
            None => false,
        };
        self.streak = if continues {
            if self.streak < MAX_STREAK {
                self.streak + 1
            } else {
                MAX_STREAK
            }
        } else {
            0
        };
        let factor: i64 = 2 + self.streak as i64;
        assert(-(0x8000_0000 * 8) <= (ticks as i64) * factor <= 0x8000_0000 * 8) by (nonlinear_arith)
            requires
                2 <= factor <= 8,
                -0x8000_0000 <= ticks < 0x8000_0000,
        ;
        let p: i64 = (ticks as i64) * factor;
        let s: i64 = if p >= 0 {
            (p + 1) / 2
        } else {
            -((-p + 1) / 2)
        };
        if s > MAX_LINES_PER_BURST as i64 {
            MAX_LINES_PER_BURST
        } else if s < -(MAX_LINES_PER_BURST as i64) {
            -MAX_LINES_PER_BURST
        } else {
            s as i32
        }
    }
}

} // verus!
