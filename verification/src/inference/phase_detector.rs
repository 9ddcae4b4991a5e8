//! The game's phases and the detector that moves between them on what is
//! read on screen.
//!
//! Reading text from the screen is done by the caller; the detector says
//! which target to read next and decides the phase from how many of the
//! target's characters were recognised.

use vstd::prelude::*;

use crate::inference::{ModelInputResolution, PhaseRules, PhaseTarget, string_views};
use crate::text_match::{contains_seq, lemma_contains_extend, str_contains};
use crate::video::crop::{PixelCropArea, scale_to_pixels};

verus! {

/// The phase of a match, as shown to the user. "Waiting" and "Ended" are
/// watched for in the same way, but shown differently and treated
/// differently when the user advances the phase by hand.
#[derive(Debug, Clone, Copy, PartialEq, Eq, Structural)]
pub enum Phase {
    Waiting,
    Selecting,
    Battling,
    Ended,
}

/// The phase after a manual advance: Selecting, Battling, Ended, Selecting,
/// and so on; Waiting (the phase at start-up) leads into the cycle but is
/// not part of it.
pub open spec fn next_phase(p: Phase) -> Phase {
    match p {
        Phase::Waiting => Phase::Selecting,
        Phase::Selecting => Phase::Battling,
        Phase::Battling => Phase::Ended,
        Phase::Ended => Phase::Selecting,
    }
}

impl Phase {
    /// The phase a manual advance leads to.
    pub fn next(self) -> (r: Self)
        ensures
            r == next_phase(self),
    {
        match self {
            Phase::Waiting => Phase::Selecting,
            Phase::Selecting => Phase::Battling,
            Phase::Battling => Phase::Ended,
            Phase::Ended => Phase::Selecting,
        }
    }
}

/// A manual advance never leads to Waiting.
pub proof fn lemma_next_never_waiting(p: Phase)
    ensures
        next_phase(p) != Phase::Waiting,
{
}

/// Three manual advances from any phase but Waiting come back to it:
/// Selecting, Battling and Ended form a cycle.
pub proof fn lemma_next_cycles(p: Phase)
    requires
        p != Phase::Waiting,
    ensures
        next_phase(next_phase(next_phase(p))) == p,
{
}

/// A change of phase: the phase entered and the status text to show.
pub struct PhaseChange {
    pub phase: Phase,
    pub display_text: String,
}

/// One of the two targets of the rules.
#[derive(Debug, Clone, Copy, PartialEq, Eq, Structural)]
pub enum TargetKind {
    /// The "Rank Battle" ribbon shown while parties are selected.
    Ribbon,
    /// The menu shown at the end of a battle.
    Ended,
}

/// The target of `rules` that `kind` names.
pub open spec fn target_of(rules: PhaseRules, kind: TargetKind) -> PhaseTarget {
    match kind {
        TargetKind::Ribbon => rules.ribbon,
        TargetKind::Ended => rules.ended,
    }
}

/// The status text shown for phase `p`.
pub open spec fn text_of(rules: PhaseRules, p: Phase) -> String {
    match p {
        Phase::Waiting => rules.waiting_text,
        Phase::Selecting => rules.ribbon.enter_text,
        Phase::Battling => rules.battling_text,
        Phase::Ended => rules.ended.enter_text,
    }
}

/// How many of `targets` occur in `text` (a target listed twice counts
/// twice).
pub open spec fn matched_count(targets: Seq<Seq<char>>, text: Seq<char>) -> nat
    decreases targets.len(),
{
    if targets.len() == 0 {
        0
    } else {
        matched_count(targets.drop_last(), text) + if contains_seq(text, targets.last()) {
            1nat
        } else {
            0nat
        }
    }
}

/// Counts the entries of `target_chars` that occur in `text`.
pub fn count_matched_chars(target_chars: &[String], text: &str) -> (count: usize)
    ensures
        count == matched_count(string_views(target_chars@), text@),
{
    let mut count: usize = 0;
    let mut i: usize = 0;
    while i < target_chars.len()
        invariant
            i <= target_chars@.len(),
            count <= i,
            count == matched_count(string_views(target_chars@.take(i as int)), text@),
        decreases target_chars@.len() - i,
    {
        proof {
            let next = string_views(target_chars@.take(i + 1));
            assert(next.drop_last() =~= string_views(target_chars@.take(i as int)));
            assert(next.last() == target_chars@[i as int]@);
        }
        if str_contains(text, target_chars[i].as_str()) {
            count += 1;
        }
        i += 1;
    }
    assert(target_chars@.take(target_chars@.len() as int) =~= target_chars@);
    count
}

/// No more targets match than there are targets.
pub proof fn lemma_matched_count_bounded(targets: Seq<Seq<char>>, text: Seq<char>)
    ensures
        matched_count(targets, text) <= targets.len(),
    decreases targets.len(),
{
    if targets.len() > 0 {
        lemma_matched_count_bounded(targets.drop_last(), text);
    }
}

/// Reading more text never lowers the count: every target found in `text`
/// is still found once more characters follow it.
pub proof fn lemma_matched_count_grows_with_text(
    targets: Seq<Seq<char>>,
    text: Seq<char>,
    more: Seq<char>,
)
    ensures
        matched_count(targets, text) <= matched_count(targets, text + more),
    decreases targets.len(),
{
    if targets.len() > 0 {
        lemma_matched_count_grows_with_text(targets.drop_last(), text, more);
        if contains_seq(text, targets.last()) {
            lemma_contains_extend(text, more, targets.last());
        }
    }
}

/// The target a detection pass reads first in phase `p`: the ribbon while
/// selecting, the end-of-battle menu otherwise.
pub open spec fn first_target(p: Phase) -> TargetKind {
    match p {
        Phase::Selecting => TargetKind::Ribbon,
        _ => TargetKind::Ended,
    }
}

/// Whether a detection pass in phase `p` reads target `kind` at all.
pub open spec fn reads_target(p: Phase, kind: TargetKind) -> bool {
    match p {
        Phase::Waiting | Phase::Ended => true,
        Phase::Selecting => kind == TargetKind::Ribbon,
        Phase::Battling => kind == TargetKind::Ended,
    }
}

/// What a detection pass does after reading one target.
#[derive(Debug, Clone, Copy, PartialEq, Eq, Structural)]
pub enum Detection {
    /// The pass is over and this is the phase.
    Decided(Phase),
    /// This target has to be read too.
    ReadNext(TargetKind),
}

/// The decision in phase `p` once target `kind` showed `matched` of its
/// characters:
/// - Waiting or Ended: the end-of-battle menu (at least its threshold)
///   means Ended; otherwise the ribbon decides: at least its threshold
///   means Selecting, fewer leaves the phase as it is.
/// - Selecting: the ribbon gone (below its threshold) means Battling.
/// - Battling: the end-of-battle menu (at least its threshold) means Ended.
pub open spec fn detect_step(
    p: Phase,
    ended_threshold: usize,
    ribbon_threshold: usize,
    kind: TargetKind,
    matched: usize,
) -> Detection {
    match p {
        Phase::Waiting | Phase::Ended => match kind {
            TargetKind::Ended => if matched >= ended_threshold {
                Detection::Decided(Phase::Ended)
            } else {
                Detection::ReadNext(TargetKind::Ribbon)
            },
            TargetKind::Ribbon => if matched >= ribbon_threshold {
                Detection::Decided(Phase::Selecting)
            } else {
                Detection::Decided(p)
            },
        },
        Phase::Selecting => if matched < ribbon_threshold {
            Detection::Decided(Phase::Battling)
        } else {
            Detection::Decided(Phase::Selecting)
        },
        Phase::Battling => if matched >= ended_threshold {
            Detection::Decided(Phase::Ended)
        } else {
            Detection::Decided(Phase::Battling)
        },
    }
}

/// The phase one detection pass leads to from `p`, given how many
/// characters each target shows: the transition table of the phases.
pub open spec fn detected_phase(
    p: Phase,
    ended_threshold: usize,
    ribbon_threshold: usize,
    ended_matched: usize,
    ribbon_matched: usize,
) -> Phase {
    match p {
        Phase::Waiting | Phase::Ended => if ended_matched >= ended_threshold {
            Phase::Ended
        } else if ribbon_matched >= ribbon_threshold {
            Phase::Selecting
        } else {
            p
        },
        Phase::Selecting => if ribbon_matched < ribbon_threshold {
            Phase::Battling
        } else {
            Phase::Selecting
        },
        Phase::Battling => if ended_matched >= ended_threshold {
            Phase::Ended
        } else {
            Phase::Battling
        },
    }
}

/// The count a target shows, picked from the counts of both.
pub open spec fn count_for(kind: TargetKind, ended_matched: usize, ribbon_matched: usize) -> usize {
    match kind {
        TargetKind::Ended => ended_matched,
        TargetKind::Ribbon => ribbon_matched,
    }
}

/// Reading targets one at a time, starting with `first_target` and going on
/// while `detect_step` asks for another, ends after at most two reads in
/// the phase of the transition table.
pub proof fn lemma_detection_pass_follows_table(
    p: Phase,
    ended_threshold: usize,
    ribbon_threshold: usize,
    ended_matched: usize,
    ribbon_matched: usize,
)
    ensures
        reads_target(p, first_target(p)),
        ({
            let k1 = first_target(p);
            let d1 = detect_step(
                p,
                ended_threshold,
                ribbon_threshold,
                k1,
                count_for(k1, ended_matched, ribbon_matched),
            );
            match d1 {
                Detection::Decided(q) => q == detected_phase(
                    p,
                    ended_threshold,
                    ribbon_threshold,
                    ended_matched,
                    ribbon_matched,
                ),
                Detection::ReadNext(k2) => reads_target(p, k2) && detect_step(
                    p,
                    ended_threshold,
                    ribbon_threshold,
                    k2,
                    count_for(k2, ended_matched, ribbon_matched),
                ) == Detection::Decided(
                    detected_phase(p, ended_threshold, ribbon_threshold, ended_matched, ribbon_matched),
                ),
            }
        }),
{
}

/// Detection never leads back to Waiting: Waiting is only ever the phase
/// at start-up.
pub proof fn lemma_detection_never_enters_waiting(
    p: Phase,
    ended_threshold: usize,
    ribbon_threshold: usize,
    ended_matched: usize,
    ribbon_matched: usize,
)
    ensures
        detected_phase(p, ended_threshold, ribbon_threshold, ended_matched, ribbon_matched)
            == Phase::Waiting ==> p == Phase::Waiting,
{
}

/// Each change of phase needs its evidence on screen: Selecting is entered
/// only when the ribbon shows at least its threshold of characters, Ended
/// only when the end-of-battle menu does, and Battling only from Selecting
/// once the ribbon is gone. With neither target on screen the phase stays
/// as it is. The same holds read by read: a read of the ribbon ends a pass
/// in Selecting from another phase only with at least its threshold of
/// characters, and a read of the end-of-battle menu ends it in Ended only
/// with at least its threshold.
pub proof fn lemma_phase_changes_need_evidence(
    p: Phase,
    ended_threshold: usize,
    ribbon_threshold: usize,
    ended_matched: usize,
    ribbon_matched: usize,
)
    ensures
        ({
            let q = detected_phase(p, ended_threshold, ribbon_threshold, ended_matched, ribbon_matched);
            &&& q == Phase::Selecting && p != Phase::Selecting ==> ribbon_matched >= ribbon_threshold
            &&& q == Phase::Ended && p != Phase::Ended ==> ended_matched >= ended_threshold
            &&& q == Phase::Battling && p != Phase::Battling ==> p == Phase::Selecting
                && ribbon_matched < ribbon_threshold
            &&& ended_matched < ended_threshold && ribbon_matched >= ribbon_threshold && p
                != Phase::Battling ==> q == Phase::Selecting
            &&& p == Phase::Battling && ended_matched < ended_threshold ==> q == Phase::Battling
            &&& p == Phase::Selecting && ribbon_matched >= ribbon_threshold ==> q == Phase::Selecting
            &&& ended_matched < ended_threshold && ribbon_matched < ribbon_threshold && p
                != Phase::Selecting ==> q == p
        }),
        forall|kind: TargetKind, matched: usize|
            #![trigger detect_step(p, ended_threshold, ribbon_threshold, kind, matched)]
            reads_target(p, kind) ==> {
                let d = detect_step(p, ended_threshold, ribbon_threshold, kind, matched);
                &&& d == Detection::Decided(Phase::Selecting) && p != Phase::Selecting ==> kind
                    == TargetKind::Ribbon && matched >= ribbon_threshold
                &&& d == Detection::Decided(Phase::Ended) && p != Phase::Ended ==> kind
                    == TargetKind::Ended && matched >= ended_threshold
                &&& d == Detection::Decided(Phase::Battling) && p != Phase::Battling ==> kind
                    == TargetKind::Ribbon && matched < ribbon_threshold
                &&& kind == TargetKind::Ribbon && matched < ribbon_threshold && p != Phase::Selecting
                    ==> d == Detection::Decided(p)
            },
{
}

/// What a caller of `PhaseDetector::on_target_read` does next.
pub enum TickStep {
    /// Read this target and report how many of its characters were found.
    Read(TargetKind),
    /// The pass is over; a change of phase if there was one.
    Finished(Option<PhaseChange>),
}

/// Phase detection from recognised text, starting in Waiting.
pub struct PhaseDetector {
    current_phase: Phase,
    phase_rules: PhaseRules,
    resolution: ModelInputResolution,
}

impl PhaseDetector {
    /// The current phase.
    pub closed spec fn phase(&self) -> Phase {
        self.current_phase
    }

    /// The rules the detector goes by.
    pub closed spec fn rules(&self) -> PhaseRules {
        self.phase_rules
    }

    /// The resolution of the frames it reads.
    pub closed spec fn frame_resolution(&self) -> ModelInputResolution {
        self.resolution
    }

    /// A detector in Waiting.
    pub fn new(phase_rules: PhaseRules, resolution: ModelInputResolution) -> (d: Self)
        ensures
            d.phase() == Phase::Waiting,
            d.rules() == phase_rules,
            d.frame_resolution() == resolution,
    {
        PhaseDetector { current_phase: Phase::Waiting, phase_rules, resolution }
    }

    /// The current phase.
    pub fn current_phase(&self) -> (p: Phase)
        ensures
            p == self.phase(),
    {
        self.current_phase
    }

    /// The status text of `phase`.
    fn text_for(&self, phase: Phase) -> (text: String)
        ensures
            text == text_of(self.rules(), phase),
    {
        match phase {
            Phase::Waiting => self.phase_rules.waiting_text.clone(),
            Phase::Selecting => self.phase_rules.ribbon.enter_text.clone(),
            Phase::Battling => self.phase_rules.battling_text.clone(),
            Phase::Ended => self.phase_rules.ended.enter_text.clone(),
        }
    }

    /// The status text of the current phase.
    pub fn phase_text(&self) -> (text: String)
        ensures
            text == text_of(self.rules(), self.phase()),
    {
        self.text_for(self.current_phase)
    }

    /// Advances the phase by hand (see `Phase::next`) and returns the status
    /// text of the new phase.
    pub fn advance_manually(&mut self) -> (text: String)
        ensures
            final(self).phase() == next_phase(old(self).phase()),
            final(self).rules() == old(self).rules(),
            final(self).frame_resolution() == old(self).frame_resolution(),
            text == text_of(final(self).rules(), final(self).phase()),
    {
        self.current_phase = self.current_phase.next();
        self.text_for(self.current_phase)
    }

    /// Whether the current phase is Selecting (when party recognition runs).
    pub fn is_selecting(&self) -> (selecting: bool)
        ensures
            selecting == (self.phase() == Phase::Selecting),
    {
        match self.current_phase {
            Phase::Selecting => true,
            _ => false,
        }
    }

    /// The target to read first in a detection pass.
    pub fn first_target(&self) -> (kind: TargetKind)
        ensures
            kind == first_target(self.phase()),
    {
        match self.current_phase {
            Phase::Selecting => TargetKind::Ribbon,
            _ => TargetKind::Ended,
        }
    }

    /// Where target `kind` is, in pixels of the analysed frames.
    pub fn target_crop(&self, kind: TargetKind) -> (crop: PixelCropArea)
        ensures
            ({
                let t = target_of(self.rules(), kind).crop;
                let (w, h) = (self.frame_resolution().width as usize, self.frame_resolution().height as usize);
                &&& crop.x == scale_to_pixels(t.x, w)
                &&& crop.y == scale_to_pixels(t.y, h)
                &&& crop.width == scale_to_pixels(t.width, w)
                &&& crop.height == scale_to_pixels(t.height, h)
            }),
    {
        let (w, h) = self.resolution.as_usize();
        match kind {
            TargetKind::Ribbon => self.phase_rules.ribbon.crop.to_pixels(w, h),
            TargetKind::Ended => self.phase_rules.ended.crop.to_pixels(w, h),
        }
    }

    /// How many characters of target `kind` the recognised `text` holds;
    /// nothing recognised counts as none.
    pub fn target_match_count(&self, kind: TargetKind, text: Option<&str>) -> (count: usize)
        ensures
            count == match text {
                Some(t) => matched_count(string_views(target_of(self.rules(), kind).target_chars@), t@),
                None => 0,
            },
    {
        match text {
            Some(t) => match kind {
                TargetKind::Ribbon => count_matched_chars(
                    self.phase_rules.ribbon.target_chars.as_slice(),
                    t,
                ),
                TargetKind::Ended => count_matched_chars(
                    self.phase_rules.ended.target_chars.as_slice(),
                    t,
                ),
            },
            None => 0,
        }
    }

    /// Takes in that target `kind` showed `matched` of its characters and
    /// says what comes next: another target to read, or the end of the
    /// pass, with the change of phase if the phase changed.
    pub fn on_target_read(&mut self, kind: TargetKind, matched: usize) -> (step: TickStep)
        requires
            reads_target(old(self).phase(), kind),
        ensures
            final(self).rules() == old(self).rules(),
            final(self).frame_resolution() == old(self).frame_resolution(),
            match detect_step(
                old(self).phase(),
                old(self).rules().ended.threshold,
                old(self).rules().ribbon.threshold,
                kind,
                matched,
            ) {
                Detection::ReadNext(next) => step == TickStep::Read(next) && final(self).phase()
                    == old(self).phase(),
                Detection::Decided(q) => final(self).phase() == q && match step {
                    TickStep::Finished(None) => q == old(self).phase(),
                    TickStep::Finished(Some(change)) => q != old(self).phase() && change.phase == q
                        && change.display_text == text_of(old(self).rules(), q),
                    TickStep::Read(_) => false,
                },
            },
            step matches TickStep::Finished(None) ==> final(self).phase() == old(self).phase(),
            step matches TickStep::Finished(Some(change)) ==> {
                &&& change.phase == final(self).phase()
                &&& change.phase != old(self).phase()
                &&& change.phase != Phase::Waiting
                &&& change.display_text == text_of(final(self).rules(), final(self).phase())
            },
    {
        let ended_threshold = self.phase_rules.ended.threshold;
        let ribbon_threshold = self.phase_rules.ribbon.threshold;
        let decided = match self.current_phase {
            Phase::Waiting | Phase::Ended => match kind {
                TargetKind::Ended => {
                    if matched >= ended_threshold {
                        Phase::Ended
                    } else {
                        return TickStep::Read(TargetKind::Ribbon);
                    }
                },
                TargetKind::Ribbon => {
                    if matched >= ribbon_threshold {
                        Phase::Selecting
                    } else {
                        self.current_phase
                    }
                },
            },
            Phase::Selecting => {
                if matched < ribbon_threshold {
                    Phase::Battling
                } else {
                    Phase::Selecting
                }
            },
            Phase::Battling => {
                if matched >= ended_threshold {
                    Phase::Ended
                } else {
                    Phase::Battling
                }
            },
        };
        if decided == self.current_phase {
            return TickStep::Finished(None);
        }
        self.current_phase = decided;
        TickStep::Finished(Some(PhaseChange { phase: decided, display_text: self.text_for(decided) }))
    }
}

/// The count is the number of targets found: none when no target occurs
/// in the text, all of them when every one does, and adding a target
/// raises the count by one exactly when that target occurs.
pub proof fn lemma_matched_count_counts_found_targets(
    targets: Seq<Seq<char>>,
    text: Seq<char>,
    more: Seq<char>,
)
    ensures
        (forall|k: int| 0 <= k < targets.len() ==> !contains_seq(text, #[trigger] targets[k]))
            ==> matched_count(targets, text) == 0,
        (forall|k: int| 0 <= k < targets.len() ==> contains_seq(text, #[trigger] targets[k]))
            ==> matched_count(targets, text) == targets.len(),
        matched_count(targets.push(more), text) == matched_count(targets, text) + if contains_seq(
            text,
            more,
        ) {
            1nat
        } else {
            0nat
        },
    decreases targets.len(),
{
    assert(targets.push(more).drop_last() =~= targets);
    if targets.len() > 0 {
        lemma_matched_count_counts_found_targets(targets.drop_last(), text, more);
        let rest = targets.drop_last();
        if forall|k: int| 0 <= k < targets.len() ==> !contains_seq(text, #[trigger] targets[k]) {
            assert forall|k: int| 0 <= k < rest.len() implies !contains_seq(text, #[trigger] rest[k]) by {
                assert(rest[k] == targets[k]);
            }
            assert(!contains_seq(text, targets[targets.len() - 1]));
        }
        if forall|k: int| 0 <= k < targets.len() ==> contains_seq(text, #[trigger] targets[k]) {
            assert forall|k: int| 0 <= k < rest.len() implies contains_seq(text, #[trigger] rest[k]) by {
                assert(rest[k] == targets[k]);
            }
            assert(contains_seq(text, targets[targets.len() - 1]));
        }
    }
}

/// The status text shown on entering a phase by detection is the entering
/// text of the target that was seen: the ribbon's for Selecting, the end
/// menu's for Ended; Battling and Waiting show the rules' own texts.
pub proof fn lemma_entered_phase_shows_its_target_text(
    rules: PhaseRules,
    p: Phase,
    kind: TargetKind,
    matched: usize,
)
    ensures
        detect_step(p, rules.ended.threshold, rules.ribbon.threshold, kind, matched)
            == Detection::Decided(Phase::Selecting) && p != Phase::Selecting ==> text_of(
            rules,
            Phase::Selecting,
        ) == target_of(rules, kind).enter_text,
        detect_step(p, rules.ended.threshold, rules.ribbon.threshold, kind, matched)
            == Detection::Decided(Phase::Ended) && p != Phase::Ended && reads_target(p, kind)
            ==> text_of(rules, Phase::Ended) == target_of(rules, kind).enter_text,
        text_of(rules, Phase::Battling) == rules.battling_text,
        text_of(rules, Phase::Waiting) == rules.waiting_text,
{
}

} // verus!
