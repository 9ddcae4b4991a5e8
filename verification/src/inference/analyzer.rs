//! The interface of a frame analyser, as the analysis loop drives it.

use vstd::prelude::*;

use crate::inference::phase_detector::PhaseChange;
use crate::video::crop::RelativeCropArea;
use crate::video::pipeline::FrameBuffer;

verus! {

/// What the analysis loop asks of an analyser: a detection pass on a frame,
/// the current status text, a manual advance, recognition of the
/// user-adjusted crop area, and whether party recognition is due.
pub trait FrameAnalyzer {
    /// One detection pass on `frame`; the change of phase, if any.
    fn tick(&mut self, frame: &FrameBuffer) -> Result<Option<PhaseChange>, anyhow::Error>;

    /// The status text of the current phase.
    fn phase_text(&self) -> String;

    /// Advances the phase by hand; the status text of the new phase.
    fn advance_manually(&mut self) -> String;

    /// The text recognised in `crop` of `frame`, if any.
    fn recognize_party_name(&self, frame: &FrameBuffer, crop: &RelativeCropArea) -> Result<
        Option<String>,
        anyhow::Error,
    >;

    /// Whether the current phase is Selecting, when phase-specific work
    /// such as party recognition runs; an analyser that does not say is
    /// never selecting.
    fn is_selecting(&self) -> (selecting: bool)
        default_ensures
            !selecting,
    {
        false
    }
}

} // verus!
