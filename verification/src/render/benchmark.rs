use vstd::prelude::*;

verus! {

/// What a benchmark run measured, apart from its duration.
#[derive(Clone, Copy, Debug, PartialEq, Eq, Structural)]
pub struct BenchmarkReport {
    pub frames: u32,
    pub bytes: u64,
    pub max_frame_bytes: usize,
}

/// Counts frames and bytes written during a benchmark run; the counters
/// stop at their maximum instead of wrapping.
pub struct BenchmarkTracker {
    frames: u32,
    bytes: u64,
    max_frame_bytes: usize,
}

pub open spec fn saturating(v: int, max: int) -> int {
    if v > max {
        max
    } else {
        v
    }
}

/// One frame of `frame_bytes` bytes counted into `r`: frames and bytes
/// add up, stopping at their maximum, and the largest frame is kept.
pub open spec fn record_step(r: BenchmarkReport, frame_bytes: usize) -> BenchmarkReport {
    BenchmarkReport {
        frames: saturating(r.frames + 1, u32::MAX as int) as u32,
        bytes: saturating(r.bytes + frame_bytes, u64::MAX as int) as u64,
        max_frame_bytes: if frame_bytes > r.max_frame_bytes {
            frame_bytes
        } else {
            r.max_frame_bytes
        },
    }
}

/// The report of a fresh tracker after frames of the given sizes, in turn.
pub open spec fn report_after(sizes: Seq<usize>) -> BenchmarkReport
    decreases sizes.len(),
{
    if sizes.len() == 0 {
        BenchmarkReport { frames: 0, bytes: 0, max_frame_bytes: 0 }
    } else {
        record_step(report_after(sizes.drop_last()), sizes.last())
    }
}

/// The sum of `sizes`.
pub open spec fn total_bytes(sizes: Seq<usize>) -> int
    decreases sizes.len(),
{
    if sizes.len() == 0 {
        0
    } else {
        total_bytes(sizes.drop_last()) + sizes.last()
    }
}

/// The largest of `sizes`, 0 when there are none.
pub open spec fn largest(sizes: Seq<usize>) -> usize
    decreases sizes.len(),
{
    if sizes.len() == 0 {
        0
    } else if sizes.last() > largest(sizes.drop_last()) {
        sizes.last()
    } else {
        largest(sizes.drop_last())
    }
}

/// After frames of the given sizes, a fresh tracker reports the number of
/// frames and the sum of their sizes, each stopped at its type's maximum
/// rather than wrapping, and the largest size (0 when there was no frame).
pub proof fn lemma_report_totals(sizes: Seq<usize>)
    ensures
        report_after(sizes).frames == saturating(sizes.len() as int, u32::MAX as int),
        report_after(sizes).bytes == saturating(total_bytes(sizes), u64::MAX as int),
        report_after(sizes).max_frame_bytes == largest(sizes),
        largest(sizes) >= 0,
        forall|i: int| 0 <= i < sizes.len() ==> sizes[i] <= largest(sizes),
    decreases sizes.len(),
{
    if sizes.len() > 0 {
        let rest = sizes.drop_last();
        lemma_report_totals(rest);
        lemma_total_nonneg(rest);
        assert forall|i: int| 0 <= i < sizes.len() implies sizes[i] <= largest(sizes) by {
            if i < rest.len() {
                assert(rest[i] == sizes[i]);
            }
        }
    }
}

proof fn lemma_total_nonneg(sizes: Seq<usize>)
    ensures
        total_bytes(sizes) >= 0,
    decreases sizes.len(),
{
    if sizes.len() > 0 {
        lemma_total_nonneg(sizes.drop_last());
    }
}

impl BenchmarkTracker {
    pub closed spec fn report(self) -> BenchmarkReport {
        BenchmarkReport { frames: self.frames, bytes: self.bytes, max_frame_bytes: self.max_frame_bytes }
    }

    pub fn new() -> (r: Self)
        ensures
            r.report() == (BenchmarkReport { frames: 0, bytes: 0, max_frame_bytes: 0 }),
    {
        BenchmarkTracker { frames: 0, bytes: 0, max_frame_bytes: 0 }
    }

    /// Counts one frame of `frame_bytes` bytes.
    pub fn record_frame(&mut self, frame_bytes: usize)
        ensures
            final(self).report() == record_step(old(self).report(), frame_bytes),
    {
        self.frames = self.frames.saturating_add(1);
        self.bytes = self.bytes.saturating_add(frame_bytes as u64);
        if frame_bytes > self.max_frame_bytes {
            self.max_frame_bytes = frame_bytes;
        }
    }

    /// The counts so far.
    pub fn finish(self) -> (r: BenchmarkReport)
        ensures
            r == self.report(),
    {
        BenchmarkReport { frames: self.frames, bytes: self.bytes, max_frame_bytes: self.max_frame_bytes }
    }
}

} // verus!
