//! The decisions of the frame analysis loop: publishing the status text,
//! running party recognition once per stay in the selection phase, and
//! naming the recognised icons.

use vstd::prelude::*;
use vstd::string::StringExecFns;

use crate::inference::pokemon_names::{resolved_name, PokemonNameLookup};

verus! {

/// Makes the shared status text `text`, writing it only when it differs.
pub fn set_phase_text(phase_status: &mut String, text: &str)
    ensures
        final(phase_status)@ == text@,
{
    let new_text = String::from_str(text);
    if *phase_status != new_text {
        *phase_status = new_text;
    }
}

/// Makes the shared list of party names `names`.
pub fn set_party_names(party_match_status: &mut Vec<String>, names: Vec<String>)
    ensures
        final(party_match_status)@ == names@,
{
    *party_match_status = names;
}

/// The display names of the twelve icon matches (ally 1 to 6, then
/// opponent 1 to 6): a matched icon file name is looked up in `names`; no
/// match gives an empty string.
pub fn resolve_party_names(matches: &[Option<String>], names: &PokemonNameLookup) -> (r: Vec<String>)
    ensures
        r@.len() == matches@.len(),
        forall|i: int|
            0 <= i < matches@.len() ==> #[trigger] r@[i]@ == match matches@[i] {
                Some(file_name) => resolved_name(names@, file_name@),
                None => Seq::<char>::empty(),
            },
{
    let mut r: Vec<String> = Vec::new();
    let mut i: usize = 0;
    while i < matches.len()
        invariant
            i <= matches@.len(),
            r@.len() == i,
            forall|j: int|
                0 <= j < i ==> #[trigger] r@[j]@ == match matches@[j] {
                    Some(file_name) => resolved_name(names@, file_name@),
                    None => Seq::<char>::empty(),
                },
        decreases matches@.len() - i,
    {
        let name = match &matches[i] {
            Some(file_name) => names.resolve(file_name.as_str()),
            None => String::new(),
        };
        r.push(name);
        i += 1;
    }
    r
}

/// Party recognition runs once per stay in the selection phase; a change of
/// phase (automatic or by hand) makes it due again.
pub struct PartyMatchGate {
    party_matched_this_phase: bool,
}

/// After a manual advance into a phase: (matched this phase afterwards,
/// run party recognition now). The advance is a change of phase, so
/// recognition runs when the new phase is Selecting.
pub open spec fn manual_advance_step(selecting: bool) -> (bool, bool) {
    (selecting, selecting)
}

/// After a detection pass: (matched this phase afterwards, run party
/// recognition now). A change of phase clears the record; recognition runs
/// in Selecting when it has not run since the last change.
pub open spec fn detection_step(matched: bool, changed: bool, selecting: bool) -> (bool, bool) {
    let cleared = if changed {
        false
    } else {
        matched
    };
    if selecting && !cleared {
        (true, true)
    } else {
        (cleared, false)
    }
}

/// Once recognition has run, further passes without a change of phase do
/// not run it again.
pub proof fn lemma_once_per_phase(matched: bool, changed: bool, selecting: bool, selecting2: bool)
    ensures
        detection_step(matched, changed, selecting).1 ==> !detection_step(
            detection_step(matched, changed, selecting).0,
            false,
            selecting2,
        ).1,
        manual_advance_step(selecting).1 ==> !detection_step(
            manual_advance_step(selecting).0,
            false,
            selecting2,
        ).1,
{
}

impl PartyMatchGate {
    /// Whether recognition has run since the last change of phase.
    pub closed spec fn matched(&self) -> bool {
        self.party_matched_this_phase
    }

    /// Nothing recognised yet.
    pub fn new() -> (g: Self)
        ensures
            !g.matched(),
    {
        PartyMatchGate { party_matched_this_phase: false }
    }

    /// Records a manual advance into a phase (Selecting or not); says
    /// whether to run recognition now.
    pub fn after_manual_advance(&mut self, selecting: bool) -> (run: bool)
        ensures
            (final(self).matched(), run) == manual_advance_step(selecting),
    {
        self.party_matched_this_phase = false;
        if selecting && !self.party_matched_this_phase {
            self.party_matched_this_phase = true;
            return true;
        }
        false
    }

    /// Records a detection pass (whether the phase changed, whether it is
    /// now Selecting); says whether to run recognition now.
    pub fn after_detection(&mut self, changed: bool, selecting: bool) -> (run: bool)
        ensures
            (final(self).matched(), run) == detection_step(old(self).matched(), changed, selecting),
    {
        if changed {
            self.party_matched_this_phase = false;
        }
        if selecting && !self.party_matched_this_phase {
            self.party_matched_this_phase = true;
            return true;
        }
        false
    }
}

/// What the analysis loop does with the next sampled frame.
#[derive(Debug, Clone, Copy, PartialEq, Eq, Structural)]
pub enum AnalysisStep {
    /// Shutting down: leave the loop.
    Stop,
    /// A manual advance was asked for: advance the phase (and run party
    /// recognition if due), no detection on this frame.
    ManualAdvance,
    /// Too soon after the last detection pass: skip the frame.
    Skip,
    /// Run a detection pass (and party recognition if due).
    Detect,
}

/// The step for the next frame: shutting down comes first, then a pending
/// manual advance; detection runs at most once per `interval_millis`
/// (always on the first frame, when there was no pass yet).
pub open spec fn analysis_step_spec(
    shutdown: bool,
    manual_requested: bool,
    millis_since_last: Option<u128>,
    interval_millis: u128,
) -> AnalysisStep {
    if shutdown {
        AnalysisStep::Stop
    } else if manual_requested {
        AnalysisStep::ManualAdvance
    } else if millis_since_last matches Some(m) && m < interval_millis {
        AnalysisStep::Skip
    } else {
        AnalysisStep::Detect
    }
}

/// Decides what the analysis loop does with the next sampled frame, given
/// whether it is shutting down, whether a manual advance was asked for, the
/// milliseconds since the last detection pass (`None` before the first),
/// and the least interval between passes.
pub fn analysis_step(
    shutdown: bool,
    manual_requested: bool,
    millis_since_last: Option<u128>,
    interval_millis: u128,
) -> (s: AnalysisStep)
    ensures
        s == analysis_step_spec(shutdown, manual_requested, millis_since_last, interval_millis),
{
    if shutdown {
        return AnalysisStep::Stop;
    }
    if manual_requested {
        return AnalysisStep::ManualAdvance;
    }
    match millis_since_last {
        Some(m) => if m < interval_millis {
            AnalysisStep::Skip
        } else {
            AnalysisStep::Detect
        },
        None => AnalysisStep::Detect,
    }
}

/// A manual advance is never held back by the detection interval, and a
/// detection pass never runs twice within it.
pub proof fn lemma_manual_advance_takes_precedence(
    millis_since_last: Option<u128>,
    interval_millis: u128,
)
    ensures
        analysis_step_spec(false, true, millis_since_last, interval_millis)
            == AnalysisStep::ManualAdvance,
        millis_since_last matches Some(m) && m < interval_millis ==> analysis_step_spec(
            false,
            false,
            millis_since_last,
            interval_millis,
        ) == AnalysisStep::Skip,
{
}

/// Party recognition runs exactly when it is due: only in Selecting, and
/// there on entering it (by detection or by hand) or while it has not run
/// since the last change of phase; it never runs outside Selecting.
pub proof fn lemma_recognition_runs_when_due(matched: bool, changed: bool, selecting: bool)
    ensures
        detection_step(matched, changed, selecting).1 <==> (selecting && (changed || !matched)),
        manual_advance_step(selecting).1 <==> selecting,
        detection_step(matched, changed, selecting).0 <==> (selecting || (matched && !changed)),
{
}

/// Before the first detection pass, and once the interval has passed, a
/// frame is analysed unless the loop stops or a manual advance is pending.
pub proof fn lemma_detection_runs_when_due(millis_since_last: Option<u128>, interval_millis: u128)
    ensures
        analysis_step_spec(false, false, None, interval_millis) == AnalysisStep::Detect,
        millis_since_last matches Some(m) && m >= interval_millis ==> analysis_step_spec(
            false,
            false,
            millis_since_last,
            interval_millis,
        ) == AnalysisStep::Detect,
        forall|manual: bool|
            analysis_step_spec(true, manual, millis_since_last, interval_millis) == AnalysisStep::Stop,
{
}

} // verus!
