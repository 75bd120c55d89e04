//! The closed enumerations that log lines name by a fixed token.
//!
//! Each token table is case-sensitive and one-to-one with its variants.
use vstd::prelude::*;

use crate::text::{chars_of, same_text};

verus! {

/// Why a player was awarded points.
#[derive(Clone, Copy, PartialEq, Eq, Structural, Debug)]
pub enum ScoreReason {
    /// FIRST_DAMAGE: first blood.
    FirstDamage,
    /// PART_DETACH: parts destroyed.
    PartDetach,
    /// KILL: an entity killed, players and bots but also drones and mines.
    Kill,
    /// INTERCEPT: incoming missiles destroyed.
    Intercept,
    /// POINT_CAPTURE: a point captured.
    PointCapture,
    /// SHIELD: damage absorbed with a shield.
    Shield,
}

/// How a round came to an end.
#[derive(Clone, Copy, PartialEq, Eq, Structural, Debug)]
pub enum FinishReason {
    /// no_cars: all vehicles of a team are eliminated.
    NoCars,
    /// base_captured: bases captured before the timer ran out.
    BaseCaptured,
    /// timer: the timer ran out.
    Timer,
}

/// Why the winning team won.
#[derive(Clone, Copy, PartialEq, Eq, Structural, Debug)]
pub enum WinReason {
    /// NONE: the game was quit.
    NoReason,
    /// MORE_CARS_LEFT: all enemies eliminated.
    MoreCarsLeft,
    /// MORE_BASE_CAPTURED: the majority of the bases captured before the timer ran out.
    MoreBaseCaptured,
    /// MORE_BASE_CAPTURED_TIMER: more bases captured than the enemy when the timer ran out.
    MoreBaseCapturedTimer,
    /// DOMINATION: the central base captured.
    Domination,
    /// DEATMATCH_TIMER: the timer ran out with enemies left.
    DeathMatchTimer,
    /// BEST_OF_THREE: the clan-wars battle is decided.
    BestOfThree,
}

/// The game mode of a level or a gameplay session.
#[derive(Clone, Copy, PartialEq, Eq, Structural, Debug)]
pub enum GameMode {
    /// Written `Unknown`, or left empty.
    Unknown,
    Conquer,
    ConquerBestOf3,
    Assault,
    AssaultBestOf3,
    Domination,
    /// Written `Brawl_BDCrossout`.
    BrawlBDCrossout,
}

impl ScoreReason {
    pub open spec fn spec_name(self) -> Seq<char> {
        match self {
            ScoreReason::FirstDamage => "FIRST_DAMAGE"@,
            ScoreReason::PartDetach => "PART_DETACH"@,
            ScoreReason::Kill => "KILL"@,
            ScoreReason::Intercept => "INTERCEPT"@,
            ScoreReason::PointCapture => "POINT_CAPTURE"@,
            ScoreReason::Shield => "SHIELD"@,
        }
    }

    /// The token that names this reason in a log line.
    pub fn name(&self) -> (r: &'static str)
        ensures
            r@ == self.spec_name(),
    {
        match self {
            ScoreReason::FirstDamage => "FIRST_DAMAGE",
            ScoreReason::PartDetach => "PART_DETACH",
            ScoreReason::Kill => "KILL",
            ScoreReason::Intercept => "INTERCEPT",
            ScoreReason::PointCapture => "POINT_CAPTURE",
            ScoreReason::Shield => "SHIELD",
        }
    }

    /// The reason that `t` names.
    pub fn from_name(t: &str) -> (r: Option<ScoreReason>)
        ensures
            r == score_reason_named(t@),
    {
        let s = chars_of(t);
        assert(s@.subrange(0, s@.len() as int) =~= t@);
        score_reason_at(&s, 0, s.len())
    }
}

/// The score reason whose token is exactly `t`.
pub open spec fn score_reason_named(t: Seq<char>) -> Option<ScoreReason> {
    if t == "FIRST_DAMAGE"@ {
        Some(ScoreReason::FirstDamage)
    } else if t == "PART_DETACH"@ {
        Some(ScoreReason::PartDetach)
    } else if t == "KILL"@ {
        Some(ScoreReason::Kill)
    } else if t == "INTERCEPT"@ {
        Some(ScoreReason::Intercept)
    } else if t == "POINT_CAPTURE"@ {
        Some(ScoreReason::PointCapture)
    } else if t == "SHIELD"@ {
        Some(ScoreReason::Shield)
    } else {
        None
    }
}

/// The score reason named by the characters `i..j` of `s`.
pub fn score_reason_at(s: &Vec<char>, i: usize, j: usize) -> (r: Option<ScoreReason>)
    requires
        i <= j <= s@.len(),
    ensures
        r == score_reason_named(s@.subrange(i as int, j as int)),
{
    if same_text(s, i, j, "FIRST_DAMAGE") {
        Some(ScoreReason::FirstDamage)
    } else if same_text(s, i, j, "PART_DETACH") {
        Some(ScoreReason::PartDetach)
    } else if same_text(s, i, j, "KILL") {
        Some(ScoreReason::Kill)
    } else if same_text(s, i, j, "INTERCEPT") {
        Some(ScoreReason::Intercept)
    } else if same_text(s, i, j, "POINT_CAPTURE") {
        Some(ScoreReason::PointCapture)
    } else if same_text(s, i, j, "SHIELD") {
        Some(ScoreReason::Shield)
    } else {
        None
    }
}

impl FinishReason {
    pub open spec fn spec_name(self) -> Seq<char> {
        match self {
            FinishReason::NoCars => "no_cars"@,
            FinishReason::BaseCaptured => "base_captured"@,
            FinishReason::Timer => "timer"@,
        }
    }

    /// The token that names this reason in a log line.
    pub fn name(&self) -> (r: &'static str)
        ensures
            r@ == self.spec_name(),
    {
        match self {
            FinishReason::NoCars => "no_cars",
            FinishReason::BaseCaptured => "base_captured",
            FinishReason::Timer => "timer",
        }
    }

    /// The reason that `t` names.
    pub fn from_name(t: &str) -> (r: Option<FinishReason>)
        ensures
            r == finish_reason_named(t@),
    {
        let s = chars_of(t);
        assert(s@.subrange(0, s@.len() as int) =~= t@);
        finish_reason_at(&s, 0, s.len())
    }
}

/// The finish reason whose token is exactly `t`.
pub open spec fn finish_reason_named(t: Seq<char>) -> Option<FinishReason> {
    if t == "no_cars"@ {
        Some(FinishReason::NoCars)
    } else if t == "base_captured"@ {
        Some(FinishReason::BaseCaptured)
    } else if t == "timer"@ {
        Some(FinishReason::Timer)
    } else {
        None
    }
}

/// The finish reason named by the characters `i..j` of `s`.
pub fn finish_reason_at(s: &Vec<char>, i: usize, j: usize) -> (r: Option<FinishReason>)
    requires
        i <= j <= s@.len(),
    ensures
        r == finish_reason_named(s@.subrange(i as int, j as int)),
{
    if same_text(s, i, j, "no_cars") {
        Some(FinishReason::NoCars)
    } else if same_text(s, i, j, "base_captured") {
        Some(FinishReason::BaseCaptured)
    } else if same_text(s, i, j, "timer") {
        Some(FinishReason::Timer)
    } else {
        None
    }
}

impl WinReason {
    pub open spec fn spec_name(self) -> Seq<char> {
        match self {
            WinReason::NoReason => "NONE"@,
            WinReason::MoreCarsLeft => "MORE_CARS_LEFT"@,
            WinReason::MoreBaseCaptured => "MORE_BASE_CAPTURED"@,
            WinReason::MoreBaseCapturedTimer => "MORE_BASE_CAPTURED_TIMER"@,
            WinReason::Domination => "DOMINATION"@,
            WinReason::DeathMatchTimer => "DEATMATCH_TIMER"@,
            WinReason::BestOfThree => "BEST_OF_THREE"@,
        }
    }

    /// The token that names this reason in a log line.
    pub fn name(&self) -> (r: &'static str)
        ensures
            r@ == self.spec_name(),
    {
        match self {
            WinReason::NoReason => "NONE",
            WinReason::MoreCarsLeft => "MORE_CARS_LEFT",
            WinReason::MoreBaseCaptured => "MORE_BASE_CAPTURED",
            WinReason::MoreBaseCapturedTimer => "MORE_BASE_CAPTURED_TIMER",
            WinReason::Domination => "DOMINATION",
            WinReason::DeathMatchTimer => "DEATMATCH_TIMER",
            WinReason::BestOfThree => "BEST_OF_THREE",
        }
    }

    /// The reason that `t` names.
    pub fn from_name(t: &str) -> (r: Option<WinReason>)
        ensures
            r == win_reason_named(t@),
    {
        let s = chars_of(t);
        assert(s@.subrange(0, s@.len() as int) =~= t@);
        win_reason_at(&s, 0, s.len())
    }
}

/// The win reason whose token is exactly `t`.
pub open spec fn win_reason_named(t: Seq<char>) -> Option<WinReason> {
    if t == "NONE"@ {
        Some(WinReason::NoReason)
    } else if t == "MORE_CARS_LEFT"@ {
        Some(WinReason::MoreCarsLeft)
    } else if t == "MORE_BASE_CAPTURED"@ {
        Some(WinReason::MoreBaseCaptured)
    } else if t == "MORE_BASE_CAPTURED_TIMER"@ {
        Some(WinReason::MoreBaseCapturedTimer)
    } else if t == "DOMINATION"@ {
        Some(WinReason::Domination)
    } else if t == "DEATMATCH_TIMER"@ {
        Some(WinReason::DeathMatchTimer)
    } else if t == "BEST_OF_THREE"@ {
        Some(WinReason::BestOfThree)
    } else {
        None
    }
}

/// The win reason named by the characters `i..j` of `s`.
pub fn win_reason_at(s: &Vec<char>, i: usize, j: usize) -> (r: Option<WinReason>)
    requires
        i <= j <= s@.len(),
    ensures
        r == win_reason_named(s@.subrange(i as int, j as int)),
{
    if same_text(s, i, j, "NONE") {
        Some(WinReason::NoReason)
    } else if same_text(s, i, j, "MORE_CARS_LEFT") {
        Some(WinReason::MoreCarsLeft)
    } else if same_text(s, i, j, "MORE_BASE_CAPTURED") {
        Some(WinReason::MoreBaseCaptured)
    } else if same_text(s, i, j, "MORE_BASE_CAPTURED_TIMER") {
        Some(WinReason::MoreBaseCapturedTimer)
    } else if same_text(s, i, j, "DOMINATION") {
        Some(WinReason::Domination)
    } else if same_text(s, i, j, "DEATMATCH_TIMER") {
        Some(WinReason::DeathMatchTimer)
    } else if same_text(s, i, j, "BEST_OF_THREE") {
        Some(WinReason::BestOfThree)
    } else {
        None
    }
}

impl GameMode {
    pub open spec fn spec_name(self) -> Seq<char> {
        match self {
            GameMode::Unknown => "Unknown"@,
            GameMode::Conquer => "Conquer"@,
            GameMode::ConquerBestOf3 => "ConquerBestOf3"@,
            GameMode::Assault => "Assault"@,
            GameMode::AssaultBestOf3 => "AssaultBestOf3"@,
            GameMode::Domination => "Domination"@,
            GameMode::BrawlBDCrossout => "Brawl_BDCrossout"@,
        }
    }

    /// The token that names this mode in a log line.
    pub fn name(&self) -> (r: &'static str)
        ensures
            r@ == self.spec_name(),
    {
        match self {
            GameMode::Unknown => "Unknown",
            GameMode::Conquer => "Conquer",
            GameMode::ConquerBestOf3 => "ConquerBestOf3",
            GameMode::Assault => "Assault",
            GameMode::AssaultBestOf3 => "AssaultBestOf3",
            GameMode::Domination => "Domination",
            GameMode::BrawlBDCrossout => "Brawl_BDCrossout",
        }
    }

    /// The mode that `t` names; an empty token stands for `GameMode::Unknown`.
    pub fn from_name(t: &str) -> (r: Option<GameMode>)
        ensures
            r == game_mode_named(t@),
    {
        let s = chars_of(t);
        assert(s@.subrange(0, s@.len() as int) =~= t@);
        game_mode_at(&s, 0, s.len())
    }
}

/// The game mode whose token is exactly `t`; the empty token is accepted as
/// `GameMode::Unknown`.
pub open spec fn game_mode_named(t: Seq<char>) -> Option<GameMode> {
    if t.len() == 0 || t == "Unknown"@ {
        Some(GameMode::Unknown)
    } else if t == "Conquer"@ {
        Some(GameMode::Conquer)
    } else if t == "ConquerBestOf3"@ {
        Some(GameMode::ConquerBestOf3)
    } else if t == "Assault"@ {
        Some(GameMode::Assault)
    } else if t == "AssaultBestOf3"@ {
        Some(GameMode::AssaultBestOf3)
    } else if t == "Domination"@ {
        Some(GameMode::Domination)
    } else if t == "Brawl_BDCrossout"@ {
        Some(GameMode::BrawlBDCrossout)
    } else {
        None
    }
}

/// The game mode named by the characters `i..j` of `s`.
pub fn game_mode_at(s: &Vec<char>, i: usize, j: usize) -> (r: Option<GameMode>)
    requires
        i <= j <= s@.len(),
    ensures
        r == game_mode_named(s@.subrange(i as int, j as int)),
{
    if i == j || same_text(s, i, j, "Unknown") {
        Some(GameMode::Unknown)
    } else if same_text(s, i, j, "Conquer") {
        Some(GameMode::Conquer)
    } else if same_text(s, i, j, "ConquerBestOf3") {
        Some(GameMode::ConquerBestOf3)
    } else if same_text(s, i, j, "Assault") {
        Some(GameMode::Assault)
    } else if same_text(s, i, j, "AssaultBestOf3") {
        Some(GameMode::AssaultBestOf3)
    } else if same_text(s, i, j, "Domination") {
        Some(GameMode::Domination)
    } else if same_text(s, i, j, "Brawl_BDCrossout") {
        Some(GameMode::BrawlBDCrossout)
    } else {
        None
    }
}

} // verus!
