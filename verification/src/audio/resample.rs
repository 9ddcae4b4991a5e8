//! Sizing the audio ring buffer and reading frames of interleaved samples.

use vstd::prelude::*;

verus! {

pub const MILLISECONDS_PER_SECOND: u64 = 1000;

/// The ring buffer capacity, in samples, that holds `target_latency_millis`
/// milliseconds of audio at `sample_rate` with `channel_count` channels
/// (rounded down).
pub open spec fn ring_buffer_capacity(
    sample_rate: u32,
    channel_count: u32,
    target_latency_millis: u64,
) -> int {
    sample_rate * channel_count * target_latency_millis / MILLISECONDS_PER_SECOND as int
}

/// The ring buffer capacity for a target latency, in samples over all
/// channels.
pub fn calculate_ring_buffer_capacity(
    sample_rate: u32,
    channel_count: u32,
    target_latency_millis: u64,
) -> (capacity: usize)
    requires
        sample_rate * channel_count <= u32::MAX,
        sample_rate * channel_count * target_latency_millis <= u64::MAX,
    ensures
        capacity == ring_buffer_capacity(sample_rate, channel_count, target_latency_millis) as usize,
{
    let samples_per_second_all_channels = (sample_rate * channel_count) as u64;
    let latency_ms = target_latency_millis;

    ((samples_per_second_all_channels * latency_ms) / MILLISECONDS_PER_SECOND) as usize
}

/// The first sample of frame `idx` of interleaved input, the frame index
/// held to the last frame.
pub open spec fn frame_start(idx: usize, frame_count: usize, channels: usize) -> int {
    let clamped = if idx < frame_count - 1 {
        idx as int
    } else {
        frame_count - 1
    };
    clamped * channels
}

/// The `channels` samples of frame `idx` of a block of interleaved frames,
/// a frame past the end giving the last frame.
pub fn frame_at<T>(input: &[T], idx: usize, frame_count: usize, channels: usize) -> (frame: &[T])
    requires
        frame_count >= 1,
        frame_start(idx, frame_count, channels) + channels <= input@.len(),
    ensures
        frame@ == input@.subrange(
            frame_start(idx, frame_count, channels),
            frame_start(idx, frame_count, channels) + channels,
        ),
{
    let idx = if idx < frame_count - 1 {
        idx
    } else {
        frame_count - 1
    };
    let len = input.len();
    assert(idx * channels + channels <= len);
    let start = idx * channels;
    &input[start..start + channels]
}


/// The capacity is the number of samples in the latency, rounded down:
/// the samples of `capacity` whole milliseconds' worth of thousandths fit,
/// one more sample would not.
pub proof fn lemma_capacity_is_floor(sample_rate: u32, channel_count: u32, target_latency_millis: u64)
    ensures
        ring_buffer_capacity(sample_rate, channel_count, target_latency_millis) * 1000
            <= sample_rate * channel_count * target_latency_millis,
        sample_rate * channel_count * target_latency_millis < (ring_buffer_capacity(
            sample_rate,
            channel_count,
            target_latency_millis,
        ) + 1) * 1000,
{
    let n = sample_rate * channel_count * target_latency_millis;
    assert(0 <= sample_rate * channel_count) by (nonlinear_arith);
    assert(0 <= n) by (nonlinear_arith)
        requires
            0 <= sample_rate * channel_count,
            0 <= target_latency_millis,
            n == sample_rate * channel_count * target_latency_millis,
    ;
    vstd::arithmetic::div_mod::lemma_fundamental_div_mod(n, 1000);
    vstd::arithmetic::div_mod::lemma_mod_bound(n, 1000);
}

} // verus!
