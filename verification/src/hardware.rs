//! Capture hardware: the video format it is captured in and the names by
//! which its audio and video devices are found.

use vstd::prelude::*;

use nokhwa::utils::FrameFormat;

verus! {

/// nokhwa's pixel format of captured frames.
#[verifier::external_type_specification]
#[verifier::external_body]
pub struct ExFrameFormat(FrameFormat);

/// nokhwa's `FrameFormat::YUYV` (packed 4:2:2: Y0 U Y1 V for each pair of
/// pixels). The value is opaque to proofs, so nothing is stated of it.
#[verifier::external_body]
fn yuyv_frame_format() -> FrameFormat {
    FrameFormat::YUYV
}

/// The video capture format: resolution, frame rate and pixel format.
#[derive(Debug, Clone, Copy, PartialEq, Eq)]
pub struct VideoSpec {
    pub width: u32,
    pub height: u32,
    pub fps: u32,
    pub frame_format: FrameFormat,
}

impl VideoSpec {
    /// (width, height) as `usize`.
    pub fn resolution(&self) -> (r: (usize, usize))
        ensures
            r.0 == self.width,
            r.1 == self.height,
    {
        (self.width as usize, self.height as usize)
    }
}

/// One capture device: the keywords its audio and video devices are found
/// by (case-insensitive substrings of the device names) and the format its
/// video is captured in.
#[derive(Debug, Clone, Copy)]
pub struct HardwareProfile {
    pub name: &'static str,
    pub audio_device_keyword: &'static str,
    pub video_device_keyword: &'static str,
    pub video: VideoSpec,
}

impl HardwareProfile {
    /// AVerMedia Live Gamer MINI (GC311): audio device "gc311", video
    /// device "avermedia", 1280x720 at 60 fps in YUYV.
    pub fn avermedia_live_gamer_mini_gc311() -> (p: Self)
        ensures
            p.name@ == "AVerMedia Live Gamer MINI (GC311)"@,
            p.audio_device_keyword@ == "gc311"@,
            p.video_device_keyword@ == "avermedia"@,
            p.video.width == 1280,
            p.video.height == 720,
            p.video.fps == 60,
    {
        HardwareProfile {
            name: "AVerMedia Live Gamer MINI (GC311)",
            audio_device_keyword: "gc311",
            video_device_keyword: "avermedia",
            video: VideoSpec { width: 1280, height: 720, fps: 60, frame_format: yuyv_frame_format() },
        }
    }
}

/// An audio pipeline that runs until it is stopped. Another way of
/// passing audio through is added by implementing this for a new type.
pub trait AudioPipeline: Send + Sized + 'static {
    fn start(self) -> Result<(), anyhow::Error>;
}

} // verus!
