use crate::frame::frame_height;
use crate::region::DetectedRegion;
use vstd::prelude::*;

verus! {

/// Time between the end of one detection cycle and the start of the next.
pub const DETECTION_INTERVAL_MS: u64 = 100;

/// Number of whole rows a detection cycle reads from a frame snapshot of
/// `len` bytes and width `width`, or `None` when no frame has been received
/// yet (width zero) and the cycle is skipped.
pub fn frame_rows(len: usize, width: usize) -> (r: Option<usize>)
    ensures
        width == 0 <==> r is None,
        r matches Some(h) ==> h as int == len as int / (width as int * 3),
{
    if width == 0 {
        None
    } else {
        Some(frame_height(len, width))
    }
}

/// What the detection loop does next.
#[derive(Clone, Copy, Debug, PartialEq, Eq, Structural)]
pub enum EngineAction {
    /// Wait this many milliseconds, then ask again.
    Sleep(u64),
    /// Snapshot the frame and the configuration now and run one cycle.
    RunCycle,
}

/// The cadence of the detection loop: a cycle starts one interval after the
/// previous one ended, and cycles never overlap.
pub struct DetectionSchedule {
    interval_ms: u64,
    last_end_ms: u64,
    running: bool,
}

impl DetectionSchedule {
    pub closed spec fn interval(&self) -> int {
        self.interval_ms as int
    }

    /// When the last cycle ended (or the loop started, before any cycle).
    pub closed spec fn last_end(&self) -> int {
        self.last_end_ms as int
    }

    /// Whether a cycle is in progress.
    pub closed spec fn is_running(&self) -> bool {
        self.running
    }

    /// Earliest time at which the next cycle may start.
    pub open spec fn wake_at(&self) -> int {
        self.last_end() + self.interval()
    }

    /// The action for a poll at time `now` while no cycle runs.
    pub open spec fn action_at(&self, now: int) -> EngineAction {
        if now >= self.wake_at() {
            EngineAction::RunCycle
        } else {
            EngineAction::Sleep((self.wake_at() - now) as u64)
        }
    }

    /// A loop started at `now_ms` whose first cycle comes one interval later.
    pub fn new(interval_ms: u64, now_ms: u64) -> (r: DetectionSchedule)
        ensures
            r.interval() == interval_ms,
            r.last_end() == now_ms,
            !r.is_running(),
    {
        DetectionSchedule { interval_ms, last_end_ms: now_ms, running: false }
    }

    /// Decide, at time `now_ms`, whether to start a cycle or how long to sleep.
    /// Starting a cycle marks the schedule as running.
    pub fn poll(&mut self, now_ms: u64) -> (r: EngineAction)
        requires
            !old(self).is_running(),
            now_ms >= old(self).last_end(),
        ensures
            r == old(self).action_at(now_ms as int),
            final(self).interval() == old(self).interval(),
            final(self).last_end() == old(self).last_end(),
            final(self).is_running() == (r == EngineAction::RunCycle),
    {
        let elapsed = now_ms - self.last_end_ms;
        if elapsed >= self.interval_ms {
            self.running = true;
            EngineAction::RunCycle
        } else {
            EngineAction::Sleep(self.interval_ms - elapsed)
        }
    }

    /// Record that the running cycle ended at `now_ms`.
    pub fn cycle_done(&mut self, now_ms: u64)
        requires
            old(self).is_running(),
            now_ms >= old(self).last_end(),
        ensures
            !final(self).is_running(),
            final(self).interval() == old(self).interval(),
            final(self).last_end() == now_ms,
    {
        self.running = false;
        self.last_end_ms = now_ms;
    }

    /// A configuration write that completes at time `w`, while no cycle runs,
    /// is read by a cycle that starts no later than one interval after it:
    /// every poll from `wake_at` on starts a cycle, and that cycle snapshots
    /// the configuration when it starts.
    pub proof fn lemma_write_seen_within_interval(&self, w: int)
        requires
            !self.is_running(),
            self.last_end() <= w,
        ensures
            self.wake_at() <= w + self.interval(),
            forall|t: int| t >= self.wake_at() ==> #[trigger] self.action_at(t)
                == EngineAction::RunCycle,
            self.action_at(w + self.interval()) == EngineAction::RunCycle,
    {
    }
}

/// Holder of the latest list of detected regions, replaced whole each cycle.
pub struct DetectionResults {
    regions: Vec<DetectedRegion>,
}

impl View for DetectionResults {
    type V = Seq<DetectedRegion>;

    closed spec fn view(&self) -> Seq<DetectedRegion> {
        self.regions@
    }
}

impl DetectionResults {
    /// An empty list.
    pub fn new() -> (r: DetectionResults)
        ensures
            r@ == Seq::<DetectedRegion>::empty(),
    {
        DetectionResults { regions: Vec::new() }
    }

    /// Replace the stored list with `regions`, keeping nothing of the old one.
    pub fn publish(&mut self, regions: Vec<DetectedRegion>)
        ensures
            final(self)@ == regions@,
    {
        self.regions = regions;
    }

    /// A copy of the stored list.
    pub fn read(&self) -> (r: Vec<DetectedRegion>)
        ensures
            r@ == self@,
    {
        let mut out: Vec<DetectedRegion> = Vec::with_capacity(self.regions.len());
        let mut i: usize = 0;
        while i < self.regions.len()
            invariant
                0 <= i <= self.regions@.len(),
                out@ == self.regions@.subrange(0, i as int),
            decreases self.regions@.len() - i,
        {
            out.push(self.regions[i]);
            i = i + 1;
            assert(out@ =~= self.regions@.subrange(0, i as int));
        }
        assert(out@ =~= self.regions@);
        out
    }
}

} // verus!
