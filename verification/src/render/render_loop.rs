use vstd::prelude::*;
use crate::cli::FrameLimit;

verus! {

/// The frame after `index` in an animation of `count` frames, wrapping to
/// the first.
pub open spec fn next_frame_index(index: int, count: int) -> int {
    if index + 1 == count {
        0
    } else {
        index + 1
    }
}

/// Which frame comes next and how many have been drawn; the clock and the
/// pause between frames belong to the caller.
pub struct RenderLoop {
    frame_index: usize,
    frames_rendered: u32,
    frame_count: usize,
}

impl RenderLoop {
    pub closed spec fn index(self) -> int {
        self.frame_index as int
    }

    pub closed spec fn rendered(self) -> u32 {
        self.frames_rendered
    }

    pub closed spec fn count(self) -> int {
        self.frame_count as int
    }

    pub open spec fn wf(self) -> bool {
        0 <= self.index() < self.count()
    }

    /// A loop over an animation of `frame_count` frames, at the first frame.
    pub fn new(frame_count: usize) -> (r: Self)
        requires
            frame_count > 0,
        ensures
            r.wf(),
            r.index() == 0,
            r.rendered() == 0,
            r.count() == frame_count,
    {
        RenderLoop { frame_index: 0, frames_rendered: 0, frame_count }
    }

    /// The frame to draw next.
    pub fn frame_index(&self) -> (r: usize)
        ensures
            r == self.index(),
    {
        self.frame_index
    }

    pub fn frames_rendered(&self) -> (r: u32)
        ensures
            r == self.rendered(),
    {
        self.frames_rendered
    }

    /// Counts a drawn frame. Returns true when that was the last frame of
    /// the limit (the frame index is then left as it was); otherwise moves
    /// on to the next frame and returns false.
    pub fn finish_frame(&mut self, frame_limit: Option<FrameLimit>) -> (r: bool)
        requires
            old(self).wf(),
        ensures
            final(self).wf(),
            final(self).count() == old(self).count(),
            final(self).rendered() == (if old(self).rendered() == u32::MAX { u32::MAX } else { (old(self).rendered() + 1) as u32 }),
            r == (frame_limit matches Some(l) && final(self).rendered() == l@),
            r ==> final(self).index() == old(self).index(),
            !r ==> final(self).index() == next_frame_index(old(self).index(), old(self).count()),
    {
        self.frames_rendered = self.frames_rendered.saturating_add(1);
        if let Some(limit) = frame_limit {
            if self.frames_rendered == limit.get() {
                return true;
            }
        }
        self.advance_frame();
        false
    }

    /// Moves on to the next frame, wrapping after the last.
    pub fn advance_frame(&mut self)
        requires
            old(self).wf(),
        ensures
            final(self).wf(),
            final(self).count() == old(self).count(),
            final(self).rendered() == old(self).rendered(),
            final(self).index() == next_frame_index(old(self).index(), old(self).count()),
    {
        self.frame_index = self.frame_index + 1;
        if self.frame_index == self.frame_count {
            self.frame_index = 0;
        }
    }
}

/// The frame index after `steps` advances from the first frame.
pub open spec fn index_after(steps: nat, count: int) -> int
    decreases steps,
{
    if steps == 0 {
        0
    } else {
        next_frame_index(index_after((steps - 1) as nat, count), count)
    }
}

/// Advancing `steps` times from the first frame lands on frame
/// `steps % count`: the animation cycles through its frames in order and
/// wraps after the last one.
pub proof fn lemma_frames_cycle(steps: nat, count: int)
    requires
        count > 0,
    ensures
        index_after(steps, count) == (steps as int) % count,
    decreases steps,
{
    if steps > 0 {
        lemma_frames_cycle((steps - 1) as nat, count);
        let prev: int = steps - 1;
        let s: int = steps as int;
        assert(prev % count + 1 == count ==> s % count == 0) by (nonlinear_arith)
            requires count > 0, s == prev + 1;
        assert(prev % count + 1 != count ==> s % count == prev % count + 1) by (nonlinear_arith)
            requires count > 0, s == prev + 1, prev >= 0;
    } else {
        assert((steps as int) % count == 0) by (nonlinear_arith)
            requires count > 0, steps == 0;
    }
}

} // verus!
