//! The capture service: where frames come from and which of them go on to
//! analysis.

use vstd::prelude::*;

use std::sync::Arc;

verus! {

/// A captured frame: packed RGB pixels (`0x00RRGGBB`), row by row, shared
/// between the display and the analysis.
pub type FrameBuffer = Arc<Vec<u32>>;

/// anyhow's error type, which frame sources report failures with.
#[verifier::external_type_specification]
#[verifier::external_body]
pub struct ExAnyhowError(anyhow::Error);

/// A source of frames. Another capture method (another SDK, another pixel
/// format) is added by implementing this for a new type.
pub trait VideoSource: Send {
    fn capture_frame(&mut self) -> Result<FrameBuffer, anyhow::Error>;
}

/// Every `interval`-th frame after a sample is sampled: from `frames_since`
/// frames since the last sample, the next frame gives (frames since the
/// last sample afterwards, whether it is sampled).
pub open spec fn sample_step(interval: u32, frames_since: u32) -> (u32, bool) {
    if frames_since + 1 >= interval {
        (0, true)
    } else {
        ((frames_since + 1) as u32, false)
    }
}

/// The counter after `n` frames, starting from no frames.
pub open spec fn frames_since_after(interval: u32, n: nat) -> u32
    decreases n,
{
    if n == 0 {
        0
    } else {
        sample_step(interval, frames_since_after(interval, (n - 1) as nat)).0
    }
}

/// Frame number `n` (counting from 1) is sampled exactly when `n` is a
/// multiple of the interval, and the counter is `n` modulo the interval.
pub proof fn lemma_every_interval_th_frame_sampled(interval: u32, n: nat)
    requires
        interval >= 1,
    ensures
        frames_since_after(interval, n) == n % (interval as nat),
        sample_step(interval, frames_since_after(interval, n)).1 <==> (n + 1) % (interval as nat) == 0,
    decreases n,
{
    if n > 0 {
        lemma_every_interval_th_frame_sampled(interval, (n - 1) as nat);
        lemma_mod_successor((n - 1) as nat, interval as nat);
    }
    lemma_mod_successor(n, interval as nat);
}

/// `(m + 1) % d` is `m % d + 1`, or 0 when that reaches `d`.
proof fn lemma_mod_successor(m: nat, d: nat)
    requires
        d >= 1,
    ensures
        (m + 1) % d == if m % d + 1 >= d {
            0
        } else {
            m % d + 1
        },
{
    let q = m as int / d as int;
    let r = m as int % d as int;
    vstd::arithmetic::div_mod::lemma_fundamental_div_mod(m as int, d as int);
    vstd::arithmetic::div_mod::lemma_mod_bound(m as int, d as int);
    assert(d * q == q * d) by (nonlinear_arith);
    if r + 1 >= d {
        assert((q + 1) * d == q * d + d) by (nonlinear_arith);
        vstd::arithmetic::div_mod::lemma_fundamental_div_mod_converse((m + 1) as int, d as int, q + 1, 0);
    } else {
        vstd::arithmetic::div_mod::lemma_fundamental_div_mod_converse((m + 1) as int, d as int, q, r + 1);
    }
}

/// Takes frames from a source; every `ml_sample_interval_frames`-th frame
/// is also handed to analysis.
pub struct CaptureService {
    source: Box<dyn VideoSource>,
    ml_sample_interval_frames: u32,
}

impl CaptureService {
    /// How many frames apart the analysed frames are.
    pub closed spec fn interval(&self) -> u32 {
        self.ml_sample_interval_frames
    }

    /// A service over `source`; an interval of 0 counts as 1 (every frame).
    pub fn new(source: Box<dyn VideoSource>, ml_sample_interval_frames: u32) -> (s: Self)
        ensures
            s.interval() == if ml_sample_interval_frames == 0 {
                1
            } else {
                ml_sample_interval_frames
            },
    {
        let interval = if ml_sample_interval_frames == 0 {
            1
        } else {
            ml_sample_interval_frames
        };
        CaptureService { source, ml_sample_interval_frames: interval }
    }

    /// The interval.
    pub fn ml_sample_interval_frames(&self) -> (n: u32)
        ensures
            n == self.interval(),
    {
        self.ml_sample_interval_frames
    }

    /// Takes the next frame from the source.
    pub fn capture_frame(&mut self) -> (frame: Result<FrameBuffer, anyhow::Error>)
        ensures
            final(self).interval() == old(self).interval(),
    {
        self.source.capture_frame()
    }

    /// Counts one more captured frame: given the frames since the last
    /// analysed one, gives the count afterwards and whether this frame is
    /// handed to analysis.
    pub fn next_ml_sample(&self, frames_since_last_ml_sample: u32) -> (r: (u32, bool))
        requires
            frames_since_last_ml_sample < self.interval(),
        ensures
            r == sample_step(self.interval(), frames_since_last_ml_sample),
            r.0 < self.interval(),
    {
        let next = frames_since_last_ml_sample + 1;
        if next >= self.ml_sample_interval_frames {
            (0, true)
        } else {
            (next, false)
        }
    }
}

} // verus!
