//! Frame pacing: a fast rate while input keeps coming, a slow one after a
//! run of polls without any.

use vstd::prelude::*;

verus! {

/// Frame time at the active rate of 30 frames a second, in milliseconds.
pub const ACTIVE_FRAME_MS: u64 = 33;

/// Frame time at the idle rate of 10 frames a second, in milliseconds.
pub const IDLE_FRAME_MS: u64 = 100;

/// Polls without input after which the loop goes idle.
pub const IDLE_THRESHOLD: u32 = 60;

/// Counts the polls without input since the last one with input.
#[derive(Clone, Copy, Debug, PartialEq, Eq, Structural)]
pub struct FramePacer {
    pub idle_frames: u32,
}

/// The count after one more poll: back to zero on input, one up without,
/// and never past what the counter can hold.
pub open spec fn idle_after(idle_frames: u32, has_input: bool) -> u32 {
    if has_input {
        0
    } else if idle_frames == u32::MAX {
        u32::MAX
    } else {
        (idle_frames + 1) as u32
    }
}

/// The frame time for a count of idle polls.
pub open spec fn interval_for(idle_frames: u32) -> u64 {
    if idle_frames < IDLE_THRESHOLD {
        ACTIVE_FRAME_MS
    } else {
        IDLE_FRAME_MS
    }
}

/// The count after `n` polls in a row without input.
pub open spec fn idle_after_quiet(idle_frames: u32, n: nat) -> u32
    decreases n,
{
    if n == 0 {
        idle_frames
    } else {
        idle_after(idle_after_quiet(idle_frames, (n - 1) as nat), false)
    }
}

impl FramePacer {
    /// A pacer at the active rate.
    pub fn new() -> (p: FramePacer)
        ensures
            p.idle_frames == 0,
    {
        FramePacer { idle_frames: 0 }
    }

    /// Records one poll.
    pub fn record(&mut self, has_input: bool)
        ensures
            final(self).idle_frames == idle_after(old(self).idle_frames, has_input),
    {
        if has_input {
            self.idle_frames = 0;
        } else if self.idle_frames < u32::MAX {
            self.idle_frames = self.idle_frames + 1;
        }
    }

    /// Whether the loop runs at the idle rate.
    pub fn is_idle(&self) -> (idle: bool)
        ensures
            idle == (self.idle_frames >= IDLE_THRESHOLD),
    {
        self.idle_frames >= IDLE_THRESHOLD
    }

    /// How long one frame lasts now, in milliseconds.
    pub fn frame_interval_ms(&self) -> (ms: u64)
        ensures
            ms == interval_for(self.idle_frames),
    {
        if self.idle_frames < IDLE_THRESHOLD {
            ACTIVE_FRAME_MS
        } else {
            IDLE_FRAME_MS
        }
    }

    /// How long to sleep after a frame that took `elapsed_ms`: what is left
    /// of the frame time, or nothing where the frame overran.
    pub fn sleep_ms(&self, elapsed_ms: u64) -> (ms: u64)
        ensures
            ms == (if elapsed_ms < interval_for(self.idle_frames) {
                interval_for(self.idle_frames) - elapsed_ms
            } else {
                0
            }),
    {
        let interval: u64 = self.frame_interval_ms();
        if elapsed_ms < interval {
            interval - elapsed_ms
        } else {
            0
        }
    }
}

/// Any input brings the active rate back at once, and a run of polls
/// without input reaches the idle rate exactly when it is long enough to
/// take the count to the threshold.
pub proof fn lemma_pacing(idle_frames: u32, n: nat)
    ensures
        interval_for(idle_after(idle_frames, true)) == ACTIVE_FRAME_MS,
        idle_after_quiet(idle_frames, n) == (if idle_frames + n <= u32::MAX {
            idle_frames + n
        } else {
            u32::MAX as int
        }),
        interval_for(idle_after_quiet(idle_frames, n)) == IDLE_FRAME_MS <==> idle_frames + n
            >= IDLE_THRESHOLD,
    decreases n,
{
    if n > 0 {
        lemma_pacing(idle_frames, (n - 1) as nat);
    }
}

} // verus!
