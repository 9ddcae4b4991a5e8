use switch_capture::inference::analysis::{
    analysis_step, set_phase_text, AnalysisStep, PartyMatchGate,
};
use switch_capture::inference::phase_detector::{
    count_matched_chars, Phase, PhaseDetector, TargetKind, TickStep,
};
use switch_capture::inference::{ModelInputResolution, PhaseRules};

#[test]
fn manual_advance_cycles_selecting_battling_ended() {
    assert_eq!(Phase::Selecting.next(), Phase::Battling);
    assert_eq!(Phase::Battling.next(), Phase::Ended);
    assert_eq!(Phase::Ended.next(), Phase::Selecting);
}

#[test]
fn waiting_advances_to_selecting_but_is_not_part_of_the_cycle() {
    assert_eq!(Phase::Waiting.next(), Phase::Selecting);
    assert_ne!(Phase::Selecting.next(), Phase::Waiting);
}

#[test]
fn three_manual_advances_return_to_the_same_phase() {
    for p in [Phase::Selecting, Phase::Battling, Phase::Ended] {
        assert_eq!(p.next().next().next(), p);
    }
    for p in [Phase::Waiting, Phase::Selecting, Phase::Battling, Phase::Ended] {
        assert_ne!(p.next(), Phase::Waiting);
    }
}

fn detector() -> PhaseDetector {
    PhaseDetector::new(PhaseRules::default(), ModelInputResolution::standard_1280x720())
}

/// Runs one detection pass, answering each read with the given counts.
fn pass(d: &mut PhaseDetector, ended: usize, ribbon: usize) -> (Option<(Phase, String)>, Vec<TargetKind>) {
    let mut reads = Vec::new();
    let mut kind = d.first_target();
    loop {
        reads.push(kind);
        let matched = match kind {
            TargetKind::Ended => ended,
            TargetKind::Ribbon => ribbon,
        };
        match d.on_target_read(kind, matched) {
            TickStep::Read(next) => kind = next,
            TickStep::Finished(change) => {
                return (change.map(|c| (c.phase, c.display_text)), reads);
            }
        }
    }
}

#[test]
fn default_rules_hold_the_documented_targets() {
    let rules = PhaseRules::default();
    assert_eq!(rules.ribbon.threshold, 3);
    assert_eq!(rules.ended.threshold, 5);
    assert_eq!(rules.ribbon.target_chars.len(), 8);
    assert_eq!(rules.ended.target_chars.len(), 14);
    assert_eq!(rules.ribbon.target_chars[0], "ラ");
    assert_eq!(rules.ended.target_chars[13], "け");
    assert_eq!(rules.ribbon.enter_text, "フェーズ：選出");
    assert_eq!(rules.ended.enter_text, "フェーズ：対戦終了");
    assert_eq!(rules.waiting_text, "フェーズ：待機");
    assert_eq!(rules.battling_text, "フェーズ：バトル");
    assert_eq!(rules.ribbon.crop.x, 3838);
    assert_eq!(rules.ended.crop.height, 508);
}

#[test]
fn starts_waiting_with_waiting_text() {
    let d = detector();
    assert_eq!(d.current_phase(), Phase::Waiting);
    assert_eq!(d.phase_text(), "フェーズ：待機");
    assert!(!d.is_selecting());
}

#[test]
fn waiting_to_ended_when_the_end_menu_shows() {
    let mut d = detector();
    let (change, reads) = pass(&mut d, 5, 8);
    assert_eq!(change, Some((Phase::Ended, "フェーズ：対戦終了".to_string())));
    assert_eq!(reads, vec![TargetKind::Ended]);
}

#[test]
fn waiting_to_selecting_when_the_ribbon_shows() {
    let mut d = detector();
    let (change, reads) = pass(&mut d, 4, 3);
    assert_eq!(change, Some((Phase::Selecting, "フェーズ：選出".to_string())));
    assert_eq!(reads, vec![TargetKind::Ended, TargetKind::Ribbon]);
    assert!(d.is_selecting());
}

#[test]
fn waiting_stays_when_nothing_shows() {
    let mut d = detector();
    let (change, _) = pass(&mut d, 4, 2);
    assert_eq!(change, None);
    assert_eq!(d.current_phase(), Phase::Waiting);
}

#[test]
fn full_match_cycle_by_detection() {
    let mut d = detector();
    assert_eq!(pass(&mut d, 0, 8).0.map(|c| c.0), Some(Phase::Selecting));
    // The ribbon still shows: stay selecting; only the ribbon is read.
    let (change, reads) = pass(&mut d, 14, 3);
    assert_eq!(change, None);
    assert_eq!(reads, vec![TargetKind::Ribbon]);
    // The ribbon is gone: battle.
    assert_eq!(pass(&mut d, 0, 2).0, Some((Phase::Battling, "フェーズ：バトル".to_string())));
    // During the battle the ribbon is not read.
    let (change, reads) = pass(&mut d, 4, 8);
    assert_eq!(change, None);
    assert_eq!(reads, vec![TargetKind::Ended]);
    assert_eq!(pass(&mut d, 5, 0).0.map(|c| c.0), Some(Phase::Ended));
    // Ended stays while the menu shows, then the ribbon leads to selecting.
    assert_eq!(pass(&mut d, 6, 8).0, None);
    assert_eq!(pass(&mut d, 0, 3).0.map(|c| c.0), Some(Phase::Selecting));
}

#[test]
fn manual_advance_returns_the_new_text() {
    let mut d = detector();
    assert_eq!(d.advance_manually(), "フェーズ：選出");
    assert_eq!(d.advance_manually(), "フェーズ：バトル");
    assert_eq!(d.advance_manually(), "フェーズ：対戦終了");
    assert_eq!(d.advance_manually(), "フェーズ：選出");
    assert_eq!(d.phase_text(), "フェーズ：選出");
}

#[test]
fn counts_distinct_targets_found_in_text() {
    let rules = PhaseRules::default();
    assert_eq!(count_matched_chars(&rules.ribbon.target_chars, "ランクバトル"), 6);
    assert_eq!(count_matched_chars(&rules.ribbon.target_chars, "ランランラン"), 2);
    assert_eq!(count_matched_chars(&rules.ended.target_chars, "対戦をやめる"), 6);
    assert_eq!(count_matched_chars(&rules.ended.target_chars, ""), 0);
    let targets = vec!["ab".to_string(), "".to_string(), "x".to_string()];
    assert_eq!(count_matched_chars(&targets, "zabz"), 2);
}

#[test]
fn target_crops_scale_to_the_model_resolution() {
    let d = detector();
    let ribbon = d.target_crop(TargetKind::Ribbon);
    assert_eq!((ribbon.x, ribbon.y, ribbon.width, ribbon.height), (491, 12, 297, 31));
    let ended = d.target_crop(TargetKind::Ended);
    assert_eq!((ended.x, ended.y, ended.width, ended.height), (187, 642, 902, 36));
}

#[test]
fn match_count_of_nothing_recognised_is_zero() {
    let d = detector();
    assert_eq!(d.target_match_count(TargetKind::Ribbon, None), 0);
    assert_eq!(d.target_match_count(TargetKind::Ribbon, Some("ランクバトル")), 6);
    assert_eq!(d.target_match_count(TargetKind::Ended, Some("チーム編成")), 5);
}

#[test]
fn phase_text_is_written_to_the_shared_status() {
    let mut status = String::from("old");
    set_phase_text(&mut status, "フェーズ：選出");
    assert_eq!(status, "フェーズ：選出");
    set_phase_text(&mut status, "フェーズ：選出");
    assert_eq!(status, "フェーズ：選出");
    set_phase_text(&mut status, "");
    assert_eq!(status, "");
}

#[test]
fn party_recognition_runs_once_per_selection_stay() {
    let mut gate = PartyMatchGate::new();
    assert!(!gate.after_detection(false, false));
    assert!(gate.after_detection(true, true));
    assert!(!gate.after_detection(false, true));
    assert!(!gate.after_detection(false, true));
    assert!(!gate.after_detection(true, false));
    assert!(gate.after_manual_advance(true));
    assert!(!gate.after_detection(false, true));
    assert!(!gate.after_manual_advance(false));
    assert!(gate.after_detection(false, true));
}

#[test]
fn analysis_steps_follow_shutdown_manual_then_interval() {
    assert_eq!(analysis_step(true, true, None, 3000), AnalysisStep::Stop);
    assert_eq!(analysis_step(false, true, Some(10), 3000), AnalysisStep::ManualAdvance);
    assert_eq!(analysis_step(false, false, None, 3000), AnalysisStep::Detect);
    assert_eq!(analysis_step(false, false, Some(2999), 3000), AnalysisStep::Skip);
    assert_eq!(analysis_step(false, false, Some(3000), 3000), AnalysisStep::Detect);
}
