use vstd::prelude::*;

verus! {

/// The length of one measuring interval, in milliseconds.
pub const FRAME_INTERVAL_MS: u64 = 2000;

/// Counts the frames of a render loop and, once per interval, reports how
/// many there were and asks for cached data to be refreshed.
/// Times are milliseconds on a monotonic clock that the caller reads.
pub struct FrameClock {
    /// Frames counted in the current interval.
    pub frames: u64,
    /// When the current interval began.
    pub since: u64,
    /// Frames counted in the last complete interval.
    pub last_frames: u64,
}

/// What one tick reports.
#[derive(Clone, Copy, Debug, PartialEq, Eq, Structural)]
pub struct FrameTick {
    /// Frames counted in the last complete interval; the rate per second is
    /// this count divided by the interval's length in seconds.
    pub frames: u64,
    /// Whether an interval ended on this tick, so that cached data should be
    /// fetched again.
    pub force_reload: bool,
}

/// Whether a tick at `now` ends the interval that began at `since`: the
/// time elapsed since then exceeds the interval.
pub open spec fn interval_elapsed(since: u64, now: u64) -> bool {
    now >= since && now - since > FRAME_INTERVAL_MS
}

/// The frame count after one more frame (saturating).
pub open spec fn counted(frames: u64) -> u64 {
    if frames < u64::MAX {
        (frames + 1) as u64
    } else {
        u64::MAX
    }
}

/// A tick at `now`: the clock after it, and what it reports.
pub open spec fn ticked(c: FrameClock, now: u64) -> (FrameClock, FrameTick) {
    if interval_elapsed(c.since, now) {
        (
            FrameClock { frames: 0, since: now, last_frames: counted(c.frames) },
            FrameTick { frames: counted(c.frames), force_reload: true },
        )
    } else {
        (
            FrameClock { frames: counted(c.frames), ..c },
            FrameTick { frames: c.last_frames, force_reload: false },
        )
    }
}

/// The clock after ticks at each of `times`, in order.
pub open spec fn run_ticks(c: FrameClock, times: Seq<u64>) -> FrameClock
    decreases times.len(),
{
    if times.len() == 0 {
        c
    } else {
        run_ticks(ticked(c, times[0]).0, times.drop_first())
    }
}

/// How many of the ticks at `times`, in order, asked for a reload.
pub open spec fn reloads(c: FrameClock, times: Seq<u64>) -> nat
    decreases times.len(),
{
    if times.len() == 0 {
        0
    } else {
        (if ticked(c, times[0]).1.force_reload {
            1nat
        } else {
            0nat
        }) + reloads(ticked(c, times[0]).0, times.drop_first())
    }
}

/// Ticks inside the current interval ask for no reload and only count.
proof fn lemma_ticks_within_interval(c: FrameClock, times: Seq<u64>)
    requires
        c.frames + times.len() < u64::MAX,
        forall|i: int| 0 <= i < times.len() ==> !interval_elapsed(c.since, #[trigger] times[i]),
    ensures
        reloads(c, times) == 0,
        run_ticks(c, times) == (FrameClock { frames: (c.frames + times.len()) as u64, ..c }),
    decreases times.len(),
{
    if times.len() > 0 {
        let next = ticked(c, times[0]).0;
        assert forall|i: int| 0 <= i < times.drop_first().len() implies !interval_elapsed(
            next.since,
            #[trigger] times.drop_first()[i],
        ) by {
            assert(times.drop_first()[i] == times[i + 1]);
        }
        lemma_ticks_within_interval(next, times.drop_first());
    }
}

/// From the start of an interval, the ticks that come before the elapsed
/// time exceeds the interval ask for no reload; the first tick after that
/// reports every frame of the interval, itself included, and asks for a
/// reload; a further tick at that same moment asks for none.
pub proof fn lemma_one_reload_per_interval(start: u64, times: Seq<u64>, end: u64)
    requires
        times.len() + 1 < u64::MAX,
        forall|i: int| 0 <= i < times.len() ==> !interval_elapsed(start, #[trigger] times[i]),
        interval_elapsed(start, end),
    ensures
        ({
            let fresh = FrameClock { frames: 0, since: start, last_frames: 0 };
            let (after, report) = ticked(run_ticks(fresh, times), end);
            &&& reloads(fresh, times) == 0
            &&& report == (FrameTick { frames: (times.len() + 1) as u64, force_reload: true })
            &&& !ticked(after, end).1.force_reload
        }),
{
    let fresh = FrameClock { frames: 0, since: start, last_frames: 0 };
    lemma_ticks_within_interval(fresh, times);
}

/// Ticks that ask for no reload leave the start of the interval where it was.
proof fn lemma_start_kept(c: FrameClock, times: Seq<u64>)
    requires
        reloads(c, times) == 0,
    ensures
        run_ticks(c, times).since == c.since,
    decreases times.len(),
{
    if times.len() > 0 {
        lemma_start_kept(ticked(c, times[0]).0, times.drop_first());
    }
}

/// Two ticks that ask for a reload, with none asking in between, are more
/// than one interval apart, however many frames come between them.
pub proof fn lemma_reloads_more_than_an_interval_apart(
    c: FrameClock,
    first: u64,
    times: Seq<u64>,
    second: u64,
)
    requires
        ticked(c, first).1.force_reload,
        reloads(ticked(c, first).0, times) == 0,
        ticked(run_ticks(ticked(c, first).0, times), second).1.force_reload,
    ensures
        second > first + FRAME_INTERVAL_MS,
{
    lemma_start_kept(ticked(c, first).0, times);
}

impl FrameClock {
    /// A clock whose first interval begins at `now`.
    pub fn new(now: u64) -> (r: FrameClock)
        ensures
            r.frames == 0,
            r.since == now,
            r.last_frames == 0,
    {
        FrameClock { frames: 0, since: now, last_frames: 0 }
    }

    /// Counts one frame at time `now`. When the time elapsed since the
    /// current interval began exceeds the interval, the count becomes the reported one, a
    /// new interval begins at `now` and a reload is asked for; otherwise the
    /// count grows (saturating) and the last report stands. A time before
    /// the interval's start counts as no time elapsed.
    pub fn tick(&mut self, now: u64) -> (r: FrameTick)
        ensures
            (*final(self), r) == ticked(*old(self), now),
    {
        let counted = self.frames.saturating_add(1);
        if now >= self.since && now - self.since > FRAME_INTERVAL_MS {
            self.frames = 0;
            self.since = now;
            self.last_frames = counted;
            FrameTick { frames: counted, force_reload: true }
        } else {
            self.frames = counted;
            FrameTick { frames: self.last_frames, force_reload: false }
        }
    }
}

} // verus!
