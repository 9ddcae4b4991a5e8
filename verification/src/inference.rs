//! Phase detection and party recognition on captured frames: the rules that
//! say where to look and what to look for, and the decisions made on what
//! was recognised.

pub mod analysis;
pub mod analyzer;
pub mod party_matcher;
pub mod phase_detector;
pub mod pokemon_names;
pub mod preprocess;

use vstd::prelude::*;
use vstd::string::StringExecFns;

use crate::video::crop::RelativeCropArea;

verus! {

/// The resolution of the frames that analysis runs on.
#[derive(Debug, Clone, Copy, PartialEq, Eq)]
pub struct ModelInputResolution {
    pub width: u32,
    pub height: u32,
}

impl ModelInputResolution {
    /// 1280 x 720.
    pub fn standard_1280x720() -> (r: Self)
        ensures
            r == (ModelInputResolution { width: 1280, height: 720 }),
    {
        ModelInputResolution { width: 1280, height: 720 }
    }

    /// (width, height) as `usize`.
    pub fn as_usize(&self) -> (r: (usize, usize))
        ensures
            r.0 == self.width,
            r.1 == self.height,
    {
        (self.width as usize, self.height as usize)
    }
}

/// One thing to read on screen: where, which characters to look for, how
/// many distinct ones must be found, and the status text of the phase it
/// leads to.
pub struct PhaseTarget {
    pub crop: RelativeCropArea,
    pub target_chars: Vec<String>,
    pub threshold: usize,
    pub enter_text: String,
}

/// The two targets read for phase detection (the "Rank Battle" ribbon and
/// the end-of-battle menu) and the status texts of the other two phases.
pub struct PhaseRules {
    pub ribbon: PhaseTarget,
    pub ended: PhaseTarget,
    pub waiting_text: String,
    pub battling_text: String,
}

/// The views of a sequence of strings.
pub open spec fn string_views(v: Seq<String>) -> Seq<Seq<char>> {
    v.map_values(|s: String| s@)
}

impl Default for PhaseRules {
    fn default() -> (rules: Self)
        ensures
            rules.ribbon.crop == (RelativeCropArea { x: 3838, y: 175, width: 2325, height: 433 }),
            string_views(rules.ribbon.target_chars@) == seq![
                "ラ"@,
                "ン"@,
                "ク"@,
                "バ"@,
                "ト"@,
                "ル"@,
                "シ"@,
                "グ"@,
            ],
            rules.ribbon.threshold == 3,
            rules.ribbon.enter_text@ == "フェーズ：選出"@,
            rules.ended.crop == (RelativeCropArea { x: 1463, y: 8925, width: 7050, height: 508 }),
            string_views(rules.ended.target_chars@) == seq![
                "対"@,
                "戦"@,
                "を"@,
                "や"@,
                "め"@,
                "る"@,
                "チ"@,
                "ー"@,
                "ム"@,
                "編"@,
                "成"@,
                "す"@,
                "続"@,
                "け"@,
            ],
            rules.ended.threshold == 5,
            rules.ended.enter_text@ == "フェーズ：対戦終了"@,
            rules.waiting_text@ == "フェーズ：待機"@,
            rules.battling_text@ == "フェーズ：バトル"@,
    {
        let ribbon_chars = vec![
            String::from_str("ラ"),
            String::from_str("ン"),
            String::from_str("ク"),
            String::from_str("バ"),
            String::from_str("ト"),
            String::from_str("ル"),
            String::from_str("シ"),
            String::from_str("グ"),
        ];
        let ended_chars = vec![
            String::from_str("対"),
            String::from_str("戦"),
            String::from_str("を"),
            String::from_str("や"),
            String::from_str("め"),
            String::from_str("る"),
            String::from_str("チ"),
            String::from_str("ー"),
            String::from_str("ム"),
            String::from_str("編"),
            String::from_str("成"),
            String::from_str("す"),
            String::from_str("続"),
            String::from_str("け"),
        ];
        assert(string_views(ribbon_chars@) =~= seq![
            "ラ"@,
            "ン"@,
            "ク"@,
            "バ"@,
            "ト"@,
            "ル"@,
            "シ"@,
            "グ"@,
        ]);
        assert(string_views(ended_chars@) =~= seq![
            "対"@,
            "戦"@,
            "を"@,
            "や"@,
            "め"@,
            "る"@,
            "チ"@,
            "ー"@,
            "ム"@,
            "編"@,
            "成"@,
            "す"@,
            "続"@,
            "け"@,
        ]);
        PhaseRules {
            ribbon: PhaseTarget {
                crop: RelativeCropArea { x: 3838, y: 175, width: 2325, height: 433 },
                target_chars: ribbon_chars,
                threshold: 3,
                enter_text: String::from_str("フェーズ：選出"),
            },
            ended: PhaseTarget {
                crop: RelativeCropArea { x: 1463, y: 8925, width: 7050, height: 508 },
                target_chars: ended_chars,
                threshold: 5,
                enter_text: String::from_str("フェーズ：対戦終了"),
            },
            waiting_text: String::from_str("フェーズ：待機"),
            battling_text: String::from_str("フェーズ：バトル"),
        }
    }
}

} // verus!
