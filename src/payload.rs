//! The typed records that log lines parse into.
use vstd::prelude::*;

use crate::flags::{DamageFlag, DamageFlags};
use crate::kinds::{FinishReason, GameMode, ScoreReason, WinReason};
use crate::text::{chars_of, is_decimal_text, lemma_run_end_bounds, scan_run, take_decimal, Class};
use crate::time::Timestamp;

verus! {

/// A decimal number as the log writes it: digits with at most one `.`
/// (`305.1`, `5.`, `.5`). The text is kept as written.
#[derive(Clone, PartialEq, Debug)]
pub struct Decimal {
    text: String,
}

impl View for Decimal {
    type V = Seq<char>;

    closed spec fn view(&self) -> Seq<char> {
        self.text@
    }
}

impl Decimal {
    /// The number written `text`, where it is a decimal number.
    pub fn new(text: &str) -> (r: Option<Decimal>)
        ensures
            r is Some <==> is_decimal_text(text@),
            r matches Some(d) ==> d@ == text@,
    {
        let s = chars_of(text);
        let end = take_decimal(&s, 0);
        let j = scan_run(&s, 0, Class::DecimalChar);
        proof {
            lemma_run_end_bounds(s@, 0, Class::DecimalChar);
            assert(s@.subrange(0, s@.len() as int) =~= s@);
        }
        match end {
            Some(e) => {
                if e == s.len() {
                    Some(Decimal { text: String::from_str(text) })
                } else {
                    proof {
                        assert(!crate::text::in_class(Class::DecimalChar, s@[e as int]));
                    }
                    None
                }
            },
            None => {
                proof {
                    if is_decimal_text(text@) {
                        assert forall|m: int| 0 <= m < s@.len() implies crate::text::in_class(
                            Class::DecimalChar,
                            #[trigger] s@[m],
                        ) by {
                            assert(text@[m] == s@[m]);
                        }
                        crate::text::lemma_run_end_stops(s@, 0, s@.len() as int, Class::DecimalChar);
                    }
                }
                None
            },
        }
    }

    pub(crate) fn from_valid(text: String) -> (r: Decimal)
        requires
            is_decimal_text(text@),
        ensures
            r@ == text@,
    {
        Decimal { text }
    }

    /// The number as written.
    pub fn as_str(&self) -> (r: &str)
        ensures
            r@ == self@,
    {
        self.text.as_str()
    }
}

/// What one log line reports.
#[derive(Clone, PartialEq, Debug)]
pub enum Payload {
    /// `====== starting level N: 'name' MODE ======`
    LevelStart { level_no: usize, level_name: String, game_mode: GameMode },
    /// `====== TestDrive started ======`
    TestStart,
    /// `====== TestDrive finish ======`
    TestFinish,
    SpawnPlayer {
        player_no: u8,
        nick_name: String,
        team: u8,
        spawn_counter: usize,
        design_hash: usize,
    },
    GameStart { game_mode: GameMode, map: String },
    /// The end of a round; `round` is 0 where the line names no round.
    GameFinish {
        round: u8,
        finish_reason: FinishReason,
        winning_team: u8,
        win_reason: WinReason,
        duration_sec: Decimal,
    },
    /// `Active battle started.`
    BattleStart,
    PlayerInfo {
        player_no: u8,
        user_id: usize,
        party_id: usize,
        nick_name: String,
        team: u8,
        bot: u8,
        session: usize,
        design_hash: usize,
    },
    Score { player_no: u8, nick_name: String, points: Decimal, reason: ScoreReason },
    Damage {
        victim: String,
        attacker: String,
        weapon: String,
        damage: Decimal,
        flags: DamageFlags,
    },
    Stripe { name: String, value: usize, player_no: u8, nick_name: String },
    Kill { victim: String, killer: String },
    Assist {
        assistant: String,
        weapon: String,
        elapsed_sec: Decimal,
        damage_dealt: Decimal,
        flags: DamageFlags,
    },
}

/// A `Payload` with its text as character sequences and its flags as sets.
pub enum PayloadView {
    LevelStart { level_no: usize, level_name: Seq<char>, game_mode: GameMode },
    TestStart,
    TestFinish,
    SpawnPlayer {
        player_no: u8,
        nick_name: Seq<char>,
        team: u8,
        spawn_counter: usize,
        design_hash: usize,
    },
    GameStart { game_mode: GameMode, map: Seq<char> },
    GameFinish {
        round: u8,
        finish_reason: FinishReason,
        winning_team: u8,
        win_reason: WinReason,
        duration_sec: Seq<char>,
    },
    BattleStart,
    PlayerInfo {
        player_no: u8,
        user_id: usize,
        party_id: usize,
        nick_name: Seq<char>,
        team: u8,
        bot: u8,
        session: usize,
        design_hash: usize,
    },
    Score { player_no: u8, nick_name: Seq<char>, points: Seq<char>, reason: ScoreReason },
    Damage {
        victim: Seq<char>,
        attacker: Seq<char>,
        weapon: Seq<char>,
        damage: Seq<char>,
        flags: Set<DamageFlag>,
    },
    Stripe { name: Seq<char>, value: usize, player_no: u8, nick_name: Seq<char> },
    Kill { victim: Seq<char>, killer: Seq<char> },
    Assist {
        assistant: Seq<char>,
        weapon: Seq<char>,
        elapsed_sec: Seq<char>,
        damage_dealt: Seq<char>,
        flags: Set<DamageFlag>,
    },
}

impl View for Payload {
    type V = PayloadView;

    open spec fn view(&self) -> PayloadView {
        match self {
            Payload::LevelStart { level_no, level_name, game_mode } => PayloadView::LevelStart {
                level_no: *level_no,
                level_name: level_name@,
                game_mode: *game_mode,
            },
            Payload::TestStart => PayloadView::TestStart,
            Payload::TestFinish => PayloadView::TestFinish,
            Payload::SpawnPlayer { player_no, nick_name, team, spawn_counter, design_hash } =>
                PayloadView::SpawnPlayer {
                player_no: *player_no,
                nick_name: nick_name@,
                team: *team,
                spawn_counter: *spawn_counter,
                design_hash: *design_hash,
            },
            Payload::GameStart { game_mode, map } => PayloadView::GameStart {
                game_mode: *game_mode,
                map: map@,
            },
            Payload::GameFinish { round, finish_reason, winning_team, win_reason, duration_sec } =>
                PayloadView::GameFinish {
                round: *round,
                finish_reason: *finish_reason,
                winning_team: *winning_team,
                win_reason: *win_reason,
                duration_sec: duration_sec@,
            },
            Payload::BattleStart => PayloadView::BattleStart,
            Payload::PlayerInfo {
                player_no,
                user_id,
                party_id,
                nick_name,
                team,
                bot,
                session,
                design_hash,
            } => PayloadView::PlayerInfo {
                player_no: *player_no,
                user_id: *user_id,
                party_id: *party_id,
                nick_name: nick_name@,
                team: *team,
                bot: *bot,
                session: *session,
                design_hash: *design_hash,
            },
            Payload::Score { player_no, nick_name, points, reason } => PayloadView::Score {
                player_no: *player_no,
                nick_name: nick_name@,
                points: points@,
                reason: *reason,
            },
            Payload::Damage { victim, attacker, weapon, damage, flags } => PayloadView::Damage {
                victim: victim@,
                attacker: attacker@,
                weapon: weapon@,
                damage: damage@,
                flags: flags@,
            },
            Payload::Stripe { name, value, player_no, nick_name } => PayloadView::Stripe {
                name: name@,
                value: *value,
                player_no: *player_no,
                nick_name: nick_name@,
            },
            Payload::Kill { victim, killer } => PayloadView::Kill {
                victim: victim@,
                killer: killer@,
            },
            Payload::Assist { assistant, weapon, elapsed_sec, damage_dealt, flags } =>
                PayloadView::Assist {
                assistant: assistant@,
                weapon: weapon@,
                elapsed_sec: elapsed_sec@,
                damage_dealt: damage_dealt@,
                flags: flags@,
            },
        }
    }
}

/// One parsed log line: when it was written and what it reports.
#[derive(Clone, PartialEq, Debug)]
pub struct Entry {
    pub time_stamp: Timestamp,
    pub message: Payload,
}

pub struct EntryView {
    pub time_stamp: Timestamp,
    pub message: PayloadView,
}

impl View for Entry {
    type V = EntryView;

    open spec fn view(&self) -> EntryView {
        EntryView { time_stamp: self.time_stamp, message: self.message@ }
    }
}

} // verus!
