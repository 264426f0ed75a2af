//! Frame pacing.
//!
//! The render loop tells the controller when a frame starts and when it ends,
//! and the controller answers how long the loop has to pause so that frames
//! start no less than a sixtieth of a second apart.  A frame that took longer
//! is followed by no pause, and leaves no debt for later frames.
//!
//! Time is a count of nanoseconds on a clock that never runs backwards; the
//! caller picks the clock's origin.  The controller keeps the starts and ends
//! of the last [`WINDOW`] frames, to report the frame rate and the average
//! frame time; they play no part in pacing.

use std::collections::VecDeque;
use vstd::prelude::*;

verus! {

/// A sixtieth of a second, to the nearest nanosecond.
pub const TARGET_FRAME_NANOS: u64 = 16_666_667;

/// Nanoseconds in a second.
pub const SECOND_NANOS: u64 = 1_000_000_000;

/// The number of frames whose times are kept.
pub const WINDOW: usize = 128;

/// The time from `from` to `to`; zero if `to` is the earlier of the two.
pub open spec fn elapsed(from: u64, to: u64) -> u64 {
    if to >= from {
        (to - from) as u64
    } else {
        0
    }
}

/// The pause after a frame that started at `start` and ended at `end`: what
/// is left of `target`, or nothing if the frame used it up.
pub open spec fn pause_between(target: u64, start: u64, end: u64) -> u64 {
    if elapsed(start, end) < target {
        (target - elapsed(start, end)) as u64
    } else {
        0
    }
}

/// How many of the latest `starts` are at or after `since`, counted back from
/// the last one up to the first that is earlier.
pub open spec fn recent(starts: Seq<u64>, since: u64) -> nat
    decreases starts.len(),
{
    if starts.len() == 0 || starts.last() < since {
        0
    } else {
        1 + recent(starts.drop_last(), since)
    }
}

/// The time that the first `n` frames took together, each from its start to
/// its end.
pub open spec fn total_frame_time(starts: Seq<u64>, ends: Seq<u64>, n: nat) -> nat
    decreases n,
{
    if n == 0 {
        0
    } else {
        total_frame_time(starts, ends, (n - 1) as nat) + elapsed(starts[n - 1], ends[n - 1]) as nat
    }
}

/// The smaller of two lengths.
pub open spec fn shorter(a: nat, b: nat) -> nat {
    if a <= b {
        a
    } else {
        b
    }
}

/// Keeps the pace of the render loop and the times of the latest frames.
#[derive(Debug)]
pub struct FPSController {
    target_duration: u64,
    // Starts and ends of the latest frames, oldest first; the end at an index
    // belongs to the start at the same index.
    frame_start: VecDeque<u64>,
    frame_end: VecDeque<u64>,
}

/// The controller as a mathematical value.
pub struct FpsView {
    pub target_duration: u64,
    pub frame_start: Seq<u64>,
    pub frame_end: Seq<u64>,
}

impl FpsView {
    /// No more ends than starts are kept, and no more starts than the window
    /// holds.
    pub open spec fn wf(self) -> bool {
        self.frame_end.len() <= self.frame_start.len() <= WINDOW
    }

    /// A controller that has seen no frame.
    pub open spec fn initial() -> FpsView {
        FpsView {
            target_duration: TARGET_FRAME_NANOS,
            frame_start: Seq::empty(),
            frame_end: Seq::empty(),
        }
    }

    /// The controller after a frame started at `now`.  Where the window is
    /// full, the oldest start leaves, and with it the oldest end.
    pub open spec fn started(self, now: u64) -> FpsView {
        if self.frame_start.len() >= WINDOW {
            FpsView {
                target_duration: self.target_duration,
                frame_start: self.frame_start.drop_first().push(now),
                frame_end: if self.frame_end.len() > 0 {
                    self.frame_end.drop_first()
                } else {
                    self.frame_end
                },
            }
        } else {
            FpsView { frame_start: self.frame_start.push(now), ..self }
        }
    }

    /// The controller after a frame ended at `now`.  Ends for which no start
    /// is kept leave, oldest first.
    pub open spec fn ended(self, now: u64) -> FpsView {
        let ends = self.frame_end.push(now);
        FpsView {
            frame_end: if ends.len() > self.frame_start.len() {
                ends.subrange(ends.len() - self.frame_start.len(), ends.len() as int)
            } else {
                ends
            },
            ..self
        }
    }

    /// The pause that is due at `now`, the end of the frame that started
    /// last.  Before any frame has started the whole target is due.
    pub open spec fn pause(self, now: u64) -> u64 {
        if self.frame_start.len() > 0 {
            pause_between(self.target_duration, self.frame_start.last(), now)
        } else {
            self.target_duration
        }
    }

    /// The number of frames of which both the start and the end are kept.
    pub open spec fn finished(self) -> nat {
        shorter(self.frame_start.len(), self.frame_end.len())
    }

    /// The average time of the finished frames, rounded down; zero where
    /// there is none.
    pub open spec fn avg_frame_time(self) -> nat {
        if self.finished() > 0 {
            total_frame_time(self.frame_start, self.frame_end, self.finished())
                / self.finished()
        } else {
            0
        }
    }

    /// The frame rate at `now`: the frame under way, and the frames before
    /// it that started within the last second.
    pub open spec fn fps(self, now: u64) -> nat {
        1 + recent(self.frame_start, elapsed(SECOND_NANOS, now))
    }
}

impl View for FPSController {
    type V = FpsView;

    closed spec fn view(&self) -> FpsView {
        FpsView {
            target_duration: self.target_duration,
            frame_start: self.frame_start@,
            frame_end: self.frame_end@,
        }
    }
}

/// A controller that starts from no frames keeps to its window whatever
/// starts and ends it is told of.
pub proof fn lemma_window_is_kept(view: FpsView, now: u64)
    requires
        view.wf(),
    ensures
        FpsView::initial().wf(),
        view.started(now).wf(),
        view.ended(now).wf(),
        view.started(now).target_duration == view.target_duration,
        view.ended(now).target_duration == view.target_duration,
{
}

/// Pacing.  Take a frame that starts at `start` and ends at `end`, after any
/// history.  If it took less than the target, the pause fills the target up
/// exactly, so that whatever starts after the pause starts at least the
/// target after `start`.  If it took the target or more, there is no pause.
/// In both cases the pause is a function of this frame's own start and end.
pub proof fn lemma_frame_pacing(history: FpsView, start: u64, end: u64, next_start: u64)
    requires
        start <= end,
        end + history.started(start).ended(end).pause(end) <= next_start,
    ensures
        ({
            let target = history.target_duration;
            let pause = history.started(start).ended(end).pause(end);
            &&& pause == pause_between(target, start, end)
            &&& end - start < target ==> end + pause == start + target
            &&& end - start >= target ==> pause == 0
            &&& next_start - start >= target
        }),
{
    let begun = history.started(start);
    assert(begun.frame_start.last() == start);
    assert(begun.ended(end).frame_start == begun.frame_start);
}

/// No debt.  The pause after a frame is the same whatever came before it: a
/// frame that overran is not made up for by shortening a later pause.
pub proof fn lemma_no_debt(one: FpsView, other: FpsView, start: u64, end: u64)
    requires
        one.target_duration == other.target_duration,
    ensures
        one.started(start).ended(end).pause(end) == other.started(start).ended(end).pause(end),
{
    assert(one.started(start).frame_start.last() == start);
    assert(other.started(start).frame_start.last() == start);
}

/// The frames' total time is at most the largest time for each.
proof fn lemma_total_bound(starts: Seq<u64>, ends: Seq<u64>, n: nat)
    ensures
        total_frame_time(starts, ends, n) <= n * u64::MAX,
    decreases n,
{
    if n > 0 {
        lemma_total_bound(starts, ends, (n - 1) as nat);
        assert((n - 1) * u64::MAX + u64::MAX == n * u64::MAX) by (nonlinear_arith);
    }
}

impl Default for FPSController {
    /// A controller that has seen no frame, with a sixtieth of a second as
    /// its target.
    fn default() -> (controller: Self)
        ensures
            controller@ == FpsView::initial(),
    {
        Self {
            frame_start: VecDeque::with_capacity(WINDOW),
            frame_end: VecDeque::with_capacity(WINDOW),
            target_duration: TARGET_FRAME_NANOS,
        }
    }
}

impl FPSController {
    #[verifier::type_invariant]
    spec fn well_formed(&self) -> bool {
        self@.wf()
    }

    /// The least time from one frame's start to the next, in nanoseconds.
    pub fn target_duration(&self) -> (target: u64)
        ensures
            target == self@.target_duration,
    {
        self.target_duration
    }

    /// The number of frames whose start is kept: never more than the window
    /// holds.
    pub fn frames(&self) -> (frames: usize)
        ensures
            frames == self@.frame_start.len(),
            self@.wf(),
    {
        proof {
            use_type_invariant(self);
        }
        self.frame_start.len()
    }

    /// Records that a frame starts at `now`.
    pub fn start_frame(&mut self, now: u64)
        ensures
            final(self)@ == old(self)@.started(now),
            final(self)@.wf(),
    {
        proof {
            use_type_invariant(&*self);
        }
        let mut taken = FPSController {
            target_duration: self.target_duration,
            frame_start: VecDeque::new(),
            frame_end: VecDeque::new(),
        };
        core::mem::swap(self, &mut taken);
        let FPSController { target_duration, mut frame_start, mut frame_end } = taken;
        if frame_start.len() >= WINDOW {
            frame_start.pop_front();
            frame_end.pop_front();
        }
        frame_start.push_back(now);
        assert(frame_start@ =~= old(self)@.started(now).frame_start);
        assert(frame_end@ =~= old(self)@.started(now).frame_end);
        *self = FPSController { target_duration, frame_start, frame_end };
    }

    /// Records that the frame under way ends at `now`, and returns the
    /// nanoseconds to pause before the next frame starts.
    pub fn end_frame(&mut self, now: u64) -> (pause: u64)
        ensures
            final(self)@ == old(self)@.ended(now),
            final(self)@.wf(),
            pause == old(self)@.pause(now),
    {
        proof {
            use_type_invariant(&*self);
        }
        let mut taken = FPSController {
            target_duration: self.target_duration,
            frame_start: VecDeque::new(),
            frame_end: VecDeque::new(),
        };
        core::mem::swap(self, &mut taken);
        let FPSController { target_duration, frame_start, mut frame_end } = taken;
        frame_end.push_back(now);
        let ghost pushed = frame_end@;
        while frame_end.len() > frame_start.len()
            invariant
                frame_end@.len() <= pushed.len(),
                pushed.len() <= frame_start@.len() ==> frame_end@.len() == pushed.len(),
                pushed.len() > frame_start@.len() ==> frame_end@.len() >= frame_start@.len(),
                frame_end@ == pushed.subrange(pushed.len() - frame_end@.len(), pushed.len() as int),
            decreases frame_end@.len(),
        {
            frame_end.pop_front();
        }
        assert(frame_end@ =~= old(self)@.ended(now).frame_end);
        let starts = frame_start.len();
        let elapsed: u64 = if starts > 0 {
            let start = frame_start[starts - 1];
            if now >= start {
                now - start
            } else {
                0
            }
        } else {
            0
        };
        *self = FPSController { target_duration, frame_start, frame_end };
        if elapsed < target_duration {
            target_duration - elapsed
        } else {
            0
        }
    }

    /// The average time of the finished frames in nanoseconds, rounded down;
    /// zero where there is none.
    pub fn avg_frame_time(&self) -> (average: u64)
        ensures
            average == self@.avg_frame_time(),
    {
        if self.frame_start.len() == 0 {
            return 0;
        }
        let n = if self.frame_start.len() <= self.frame_end.len() {
            self.frame_start.len()
        } else {
            self.frame_end.len()
        };
        let mut total: u128 = 0;
        let mut i: usize = 0;
        while i < n
            invariant
                n == self@.finished(),
                i <= n,
                total == total_frame_time(self.frame_start@, self.frame_end@, i as nat),
            decreases n - i,
        {
            let start = self.frame_start[i];
            let end = self.frame_end[i];
            proof {
                lemma_total_bound(self.frame_start@, self.frame_end@, (i + 1) as nat);
                assert((i + 1) * u64::MAX <= usize::MAX * u64::MAX) by (nonlinear_arith)
                    requires
                        i + 1 <= usize::MAX,
                ;
                assert(usize::MAX * u64::MAX <= u64::MAX * u64::MAX) by (nonlinear_arith)
                    requires
                        usize::MAX <= u64::MAX,
                ;
                assert(u64::MAX * u64::MAX < u128::MAX);
            }
            let took: u64 = if end >= start {
                end - start
            } else {
                0
            };
            total = total + took as u128;
            i += 1;
        }
        if n > 0 {
            proof {
                lemma_total_bound(self.frame_start@, self.frame_end@, n as nat);
                assert(total / (n as u128) <= u64::MAX) by (nonlinear_arith)
                    requires
                        total <= n * u64::MAX,
                        n > 0,
                ;
            }
            (total / n as u128) as u64
        } else {
            0
        }
    }

    /// The frame rate at `now`: the frame under way, and the frames before
    /// it that started within the last second.
    pub fn fps(&self, now: u64) -> (frames: usize)
        ensures
            frames == self@.fps(now),
    {
        proof {
            use_type_invariant(self);
        }
        let since = if now >= SECOND_NANOS {
            now - SECOND_NANOS
        } else {
            0
        };
        let n = self.frame_start.len();
        let mut counted: usize = 0;
        assert(self.frame_start@.take(n as int) =~= self.frame_start@);
        while counted < n && self.frame_start[n - 1 - counted] >= since
            invariant
                n == self.frame_start@.len(),
                counted <= n,
                recent(self.frame_start@, since) == counted + recent(
                    self.frame_start@.take(n - counted),
                    since,
                ),
            decreases n - counted,
        {
            proof {
                let rest = self.frame_start@.take(n - counted);
                assert(rest.last() == self.frame_start@[n - 1 - counted]);
                assert(rest.drop_last() =~= self.frame_start@.take(n - counted - 1));
            }
            counted += 1;
        }
        proof {
            let rest = self.frame_start@.take(n - counted);
            if counted < n {
                assert(rest.last() == self.frame_start@[n - 1 - counted]);
            }
            assert(recent(rest, since) == 0);
        }
        counted + 1
    }
}

} // verus!
