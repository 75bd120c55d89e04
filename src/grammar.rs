//! The message grammar: one recognizer per message shape, tried in a fixed
//! order. Each recognizer reads from a start position to wherever its shape
//! ends; what follows on the line is not looked at.
//!
//! The shape of each message is stated as a chain of scans over positions
//! (see `text`): a chain whose last position is not `-1` is a match.
use vstd::prelude::*;

use crate::flags::{flags_in, parse_flags_at};
use crate::kinds::{
    finish_reason_at, finish_reason_named, game_mode_at, game_mode_named, score_reason_at,
    score_reason_named, win_reason_at, win_reason_named,
};
use crate::payload::{Decimal, Payload, PayloadView};
use crate::text::{
    chars_of, decimal_end, hex, hex_end, lit, num, scan, scan_run, take_decimal, take_hex,
    take_lit, take_uint, text_between, uint_end, Class,
};

verus! {

/// The view of a recognizer's result.
pub open spec fn opt_view(r: Option<Payload>) -> Option<PayloadView> {
    match r {
        Some(p) => Some(p@),
        None => None,
    }
}

/// `a` where it is a match, else `b`.
pub open spec fn either(a: Option<PayloadView>, b: Option<PayloadView>) -> Option<PayloadView> {
    if a is Some {
        a
    } else {
        b
    }
}

/// `====== starting level N: 'name' MODE ======`
pub open spec fn level_start_at(s: Seq<char>, i: int) -> Option<PayloadView> {
    let p1 = lit(s, i, "====== starting level "@);
    let p2 = uint_end(s, p1, usize::MAX as nat);
    let p3 = lit(s, p2, ": '"@);
    let p4 = scan(s, p3, Class::Except('\''));
    let p5 = lit(s, p4, "' "@);
    let p6 = scan(s, p5, Class::NotSpace);
    let p7 = lit(s, p6, " ======"@);
    if p7 >= 0 && game_mode_named(s.subrange(p5, p6)) is Some {
        Some(
            PayloadView::LevelStart {
                level_no: num(s, p1, p2) as usize,
                level_name: s.subrange(p3, p4),
                game_mode: game_mode_named(s.subrange(p5, p6)).unwrap(),
            },
        )
    } else {
        None
    }
}

pub fn parse_level_start(text: &str, s: &Vec<char>, i: usize) -> (r: Option<Payload>)
    requires
        s@ == text@,
        i <= s@.len(),
    ensures
        opt_view(r) == level_start_at(s@, i as int),
{
    let p1 = take_lit(s, i, "====== starting level ")?;
    let (level_no, p2) = take_uint(s, p1, usize::MAX)?;
    let p3 = take_lit(s, p2, ": '")?;
    let p4 = scan_run(s, p3, Class::Except('\''));
    let p5 = take_lit(s, p4, "' ")?;
    let p6 = scan_run(s, p5, Class::NotSpace);
    let _p7 = take_lit(s, p6, " ======")?;
    let game_mode = game_mode_at(s, p5, p6)?;
    Some(Payload::LevelStart { level_no, level_name: text_between(text, p3, p4), game_mode })
}

/// `====== TestDrive started ======`
pub open spec fn test_start_at(s: Seq<char>, i: int) -> Option<PayloadView> {
    if lit(s, i, "====== TestDrive started ======"@) >= 0 {
        Some(PayloadView::TestStart)
    } else {
        None
    }
}

pub fn parse_test_start(s: &Vec<char>, i: usize) -> (r: Option<Payload>)
    requires
        i <= s@.len(),
    ensures
        opt_view(r) == test_start_at(s@, i as int),
{
    let _p1 = take_lit(s, i, "====== TestDrive started ======")?;
    Some(Payload::TestStart)
}

/// `====== TestDrive finish ======`
pub open spec fn test_finish_at(s: Seq<char>, i: int) -> Option<PayloadView> {
    if lit(s, i, "====== TestDrive finish ======"@) >= 0 {
        Some(PayloadView::TestFinish)
    } else {
        None
    }
}

pub fn parse_test_finish(s: &Vec<char>, i: usize) -> (r: Option<Payload>)
    requires
        i <= s@.len(),
    ensures
        opt_view(r) == test_finish_at(s@, i as int),
{
    let _p1 = take_lit(s, i, "====== TestDrive finish ======")?;
    Some(Payload::TestFinish)
}

/// `Spawn player N [nick], team T, spawnCounter C , designHash: HEX.`
pub open spec fn spawn_player_at(s: Seq<char>, i: int) -> Option<PayloadView> {
    let p1 = lit(s, i, "Spawn player "@);
    let p2 = uint_end(s, p1, 255);
    let p3 = lit(s, p2, " ["@);
    let p4 = scan(s, p3, Class::Except(']'));
    let p5 = lit(s, p4, "], team "@);
    let p6 = uint_end(s, p5, 255);
    let p7 = lit(s, p6, ", spawnCounter "@);
    let p8 = uint_end(s, p7, usize::MAX as nat);
    let p9 = lit(s, p8, " , designHash: "@);
    let p10 = hex_end(s, p9);
    let p11 = lit(s, p10, "."@);
    if p11 >= 0 {
        Some(
            PayloadView::SpawnPlayer {
                player_no: num(s, p1, p2) as u8,
                nick_name: s.subrange(p3, p4),
                team: num(s, p5, p6) as u8,
                spawn_counter: num(s, p7, p8) as usize,
                design_hash: hex(s, p9, p10) as usize,
            },
        )
    } else {
        None
    }
}

pub fn parse_spawn_player(text: &str, s: &Vec<char>, i: usize) -> (r: Option<Payload>)
    requires
        s@ == text@,
        i <= s@.len(),
    ensures
        opt_view(r) == spawn_player_at(s@, i as int),
{
    let p1 = take_lit(s, i, "Spawn player ")?;
    let (player_no, p2) = take_uint(s, p1, 255)?;
    let p3 = take_lit(s, p2, " [")?;
    let p4 = scan_run(s, p3, Class::Except(']'));
    let p5 = take_lit(s, p4, "], team ")?;
    let (team, p6) = take_uint(s, p5, 255)?;
    let p7 = take_lit(s, p6, ", spawnCounter ")?;
    let (spawn_counter, p8) = take_uint(s, p7, usize::MAX)?;
    let p9 = take_lit(s, p8, " , designHash: ")?;
    let (design_hash, p10) = take_hex(s, p9)?;
    let _p11 = take_lit(s, p10, ".")?;
    Some(
        Payload::SpawnPlayer {
            player_no: player_no as u8,
            nick_name: text_between(text, p3, p4),
            team: team as u8,
            spawn_counter,
            design_hash,
        },
    )
}

/// `===== Gameplay 'MODE' started, map 'MAP' ======`
pub open spec fn game_start_at(s: Seq<char>, i: int) -> Option<PayloadView> {
    let p1 = lit(s, i, "===== Gameplay '"@);
    let p2 = scan(s, p1, Class::Except('\''));
    let p3 = lit(s, p2, "' started, map '"@);
    let p4 = scan(s, p3, Class::Except('\''));
    let p5 = lit(s, p4, "' ======"@);
    if p5 >= 0 && game_mode_named(s.subrange(p1, p2)) is Some {
        Some(
            PayloadView::GameStart {
                game_mode: game_mode_named(s.subrange(p1, p2)).unwrap(),
                map: s.subrange(p3, p4),
            },
        )
    } else {
        None
    }
}

pub fn parse_game_start(text: &str, s: &Vec<char>, i: usize) -> (r: Option<Payload>)
    requires
        s@ == text@,
        i <= s@.len(),
    ensures
        opt_view(r) == game_start_at(s@, i as int),
{
    let p1 = take_lit(s, i, "===== Gameplay '")?;
    let p2 = scan_run(s, p1, Class::Except('\''));
    let game_mode = game_mode_at(s, p1, p2)?;
    let p3 = take_lit(s, p2, "' started, map '")?;
    let p4 = scan_run(s, p3, Class::Except('\''));
    let _p5 = take_lit(s, p4, "' ======")?;
    Some(Payload::GameStart { game_mode, map: text_between(text, p3, p4) })
}

/// `===== Best Of N round R finish, reason: F, winner team T, win reason: W,
/// battle time: D sec =====`
pub open spec fn round_finish_at(s: Seq<char>, i: int) -> Option<PayloadView> {
    let p1 = lit(s, i, "===== Best Of N round "@);
    let p2 = uint_end(s, p1, 255);
    let p3 = lit(s, p2, " finish, reason: "@);
    let p4 = scan(s, p3, Class::Except(','));
    let p5 = lit(s, p4, ", winner team "@);
    let p6 = uint_end(s, p5, 255);
    let p7 = lit(s, p6, ", win reason: "@);
    let p8 = scan(s, p7, Class::Except(','));
    let p9 = lit(s, p8, ", battle time: "@);
    let p10 = decimal_end(s, p9);
    let p11 = lit(s, p10, " sec ====="@);
    if p11 >= 0 && finish_reason_named(s.subrange(p3, p4)) is Some && win_reason_named(
        s.subrange(p7, p8),
    ) is Some {
        Some(
            PayloadView::GameFinish {
                round: num(s, p1, p2) as u8,
                finish_reason: finish_reason_named(s.subrange(p3, p4)).unwrap(),
                winning_team: num(s, p5, p6) as u8,
                win_reason: win_reason_named(s.subrange(p7, p8)).unwrap(),
                duration_sec: s.subrange(p9, p10),
            },
        )
    } else {
        None
    }
}

pub fn parse_round_finish(text: &str, s: &Vec<char>, i: usize) -> (r: Option<Payload>)
    requires
        s@ == text@,
        i <= s@.len(),
    ensures
        opt_view(r) == round_finish_at(s@, i as int),
{
    let p1 = take_lit(s, i, "===== Best Of N round ")?;
    let (round, p2) = take_uint(s, p1, 255)?;
    let p3 = take_lit(s, p2, " finish, reason: ")?;
    let p4 = scan_run(s, p3, Class::Except(','));
    let finish_reason = finish_reason_at(s, p3, p4)?;
    let p5 = take_lit(s, p4, ", winner team ")?;
    let (winning_team, p6) = take_uint(s, p5, 255)?;
    let p7 = take_lit(s, p6, ", win reason: ")?;
    let p8 = scan_run(s, p7, Class::Except(','));
    let win_reason = win_reason_at(s, p7, p8)?;
    let p9 = take_lit(s, p8, ", battle time: ")?;
    let p10 = take_decimal(s, p9)?;
    let _p11 = take_lit(s, p10, " sec =====")?;
    Some(
        Payload::GameFinish {
            round: round as u8,
            finish_reason,
            winning_team: winning_team as u8,
            win_reason,
            duration_sec: decimal_between(text, s, p9, p10),
        },
    )
}

/// `===== Gameplay finish, reason: F, winner team T, win reason: W, battle
/// time: D sec =====`, the round-less form of a round's end: the round is 0.
pub open spec fn game_finish_at(s: Seq<char>, i: int) -> Option<PayloadView> {
    let p1 = lit(s, i, "===== Gameplay finish, reason: "@);
    let p2 = scan(s, p1, Class::NotSpaceOrComma);
    let p3 = lit(s, p2, ", winner team "@);
    let p4 = uint_end(s, p3, 255);
    let p5 = lit(s, p4, ", win reason: "@);
    let p6 = scan(s, p5, Class::NotSpaceOrComma);
    let p7 = lit(s, p6, ", battle time: "@);
    let p8 = decimal_end(s, p7);
    let p9 = lit(s, p8, " sec ====="@);
    if p9 >= 0 && finish_reason_named(s.subrange(p1, p2)) is Some && win_reason_named(
        s.subrange(p5, p6),
    ) is Some {
        Some(
            PayloadView::GameFinish {
                round: 0,
                finish_reason: finish_reason_named(s.subrange(p1, p2)).unwrap(),
                winning_team: num(s, p3, p4) as u8,
                win_reason: win_reason_named(s.subrange(p5, p6)).unwrap(),
                duration_sec: s.subrange(p7, p8),
            },
        )
    } else {
        None
    }
}

pub fn parse_game_finish(text: &str, s: &Vec<char>, i: usize) -> (r: Option<Payload>)
    requires
        s@ == text@,
        i <= s@.len(),
    ensures
        opt_view(r) == game_finish_at(s@, i as int),
        r matches Some(p) ==> p matches Payload::GameFinish { round, .. } && round == 0,
{
    let p1 = take_lit(s, i, "===== Gameplay finish, reason: ")?;
    let p2 = scan_run(s, p1, Class::NotSpaceOrComma);
    let finish_reason = finish_reason_at(s, p1, p2)?;
    let p3 = take_lit(s, p2, ", winner team ")?;
    let (winning_team, p4) = take_uint(s, p3, 255)?;
    let p5 = take_lit(s, p4, ", win reason: ")?;
    let p6 = scan_run(s, p5, Class::NotSpaceOrComma);
    let win_reason = win_reason_at(s, p5, p6)?;
    let p7 = take_lit(s, p6, ", battle time: ")?;
    let p8 = take_decimal(s, p7)?;
    let _p9 = take_lit(s, p8, " sec =====")?;
    Some(
        Payload::GameFinish {
            round: 0,
            finish_reason,
            winning_team: winning_team as u8,
            win_reason,
            duration_sec: decimal_between(text, s, p7, p8),
        },
    )
}

/// The decimal number written by the characters `from..to` of `text`.
fn decimal_between(text: &str, s: &Vec<char>, from: usize, to: usize) -> (r: Decimal)
    requires
        s@ == text@,
        from <= s@.len(),
        decimal_end(s@, from as int) == to,
    ensures
        r@ == s@.subrange(from as int, to as int),
{
    proof {
        crate::text::lemma_run_end_bounds(s@, from as int, Class::DecimalChar);
    }
    Decimal::from_valid(text_between(text, from, to))
}

/// `Active battle started.`
pub open spec fn battle_start_at(s: Seq<char>, i: int) -> Option<PayloadView> {
    if lit(s, i, "Active battle started."@) >= 0 {
        Some(PayloadView::BattleStart)
    } else {
        None
    }
}

pub fn parse_battle_start(s: &Vec<char>, i: usize) -> (r: Option<Payload>)
    requires
        i <= s@.len(),
    ensures
        opt_view(r) == battle_start_at(s@, i as int),
{
    let _p1 = take_lit(s, i, "Active battle started.")?;
    Some(Payload::BattleStart)
}

/// `player N, uid U, party P, nickname: NICK, team: T, bot: B, ur: S, mmHash: HEX`,
/// with whitespace allowed around `player` and after the nickname.
pub open spec fn player_info_at(s: Seq<char>, i: int) -> Option<PayloadView> {
    let p1 = scan(s, i, Class::Space);
    let p2 = lit(s, p1, "player"@);
    let p3 = scan(s, p2, Class::Space);
    let p4 = uint_end(s, p3, 255);
    let p5 = lit(s, p4, ", uid "@);
    let p6 = uint_end(s, p5, usize::MAX as nat);
    let p7 = lit(s, p6, ", party "@);
    let p8 = uint_end(s, p7, usize::MAX as nat);
    let p9 = lit(s, p8, ", nickname: "@);
    let p10 = scan(s, p9, Class::NotSpaceOrComma);
    let p11 = scan(s, p10, Class::Space);
    let p12 = lit(s, p11, ", team: "@);
    let p13 = uint_end(s, p12, 255);
    let p14 = lit(s, p13, ", bot: "@);
    let p15 = uint_end(s, p14, 255);
    let p16 = lit(s, p15, ", ur: "@);
    let p17 = uint_end(s, p16, usize::MAX as nat);
    let p18 = lit(s, p17, ", mmHash: "@);
    let p19 = hex_end(s, p18);
    if p19 >= 0 {
        Some(
            PayloadView::PlayerInfo {
                player_no: num(s, p3, p4) as u8,
                user_id: num(s, p5, p6) as usize,
                party_id: num(s, p7, p8) as usize,
                nick_name: s.subrange(p9, p10),
                team: num(s, p12, p13) as u8,
                bot: num(s, p14, p15) as u8,
                session: num(s, p16, p17) as usize,
                design_hash: hex(s, p18, p19) as usize,
            },
        )
    } else {
        None
    }
}

pub fn parse_player_info(text: &str, s: &Vec<char>, i: usize) -> (r: Option<Payload>)
    requires
        s@ == text@,
        i <= s@.len(),
    ensures
        opt_view(r) == player_info_at(s@, i as int),
{
    let p1 = scan_run(s, i, Class::Space);
    let p2 = take_lit(s, p1, "player")?;
    let p3 = scan_run(s, p2, Class::Space);
    let (player_no, p4) = take_uint(s, p3, 255)?;
    let p5 = take_lit(s, p4, ", uid ")?;
    let (user_id, p6) = take_uint(s, p5, usize::MAX)?;
    let p7 = take_lit(s, p6, ", party ")?;
    let (party_id, p8) = take_uint(s, p7, usize::MAX)?;
    let p9 = take_lit(s, p8, ", nickname: ")?;
    let p10 = scan_run(s, p9, Class::NotSpaceOrComma);
    let p11 = scan_run(s, p10, Class::Space);
    let p12 = take_lit(s, p11, ", team: ")?;
    let (team, p13) = take_uint(s, p12, 255)?;
    let p14 = take_lit(s, p13, ", bot: ")?;
    let (bot, p15) = take_uint(s, p14, 255)?;
    let p16 = take_lit(s, p15, ", ur: ")?;
    let (session, p17) = take_uint(s, p16, usize::MAX)?;
    let p18 = take_lit(s, p17, ", mmHash: ")?;
    let (design_hash, _p19) = take_hex(s, p18)?;
    Some(
        Payload::PlayerInfo {
            player_no: player_no as u8,
            user_id,
            party_id,
            nick_name: text_between(text, p9, p10),
            team: team as u8,
            bot: bot as u8,
            session,
            design_hash,
        },
    )
}

/// `Score: player: N, nick: NICK, Got: P, reason: R`, with whitespace allowed
/// after each colon and comma; the points are a decimal number (`25`, `2.5`)
/// and the reason runs to the end of the line.
pub open spec fn score_at(s: Seq<char>, i: int) -> Option<PayloadView> {
    let p1 = lit(s, i, "Score:"@);
    let p2 = scan(s, p1, Class::Space);
    let p3 = lit(s, p2, "player:"@);
    let p4 = scan(s, p3, Class::Space);
    let p5 = uint_end(s, p4, 255);
    let p6 = lit(s, p5, ","@);
    let p7 = scan(s, p6, Class::Space);
    let p8 = lit(s, p7, "nick:"@);
    let p9 = scan(s, p8, Class::Space);
    let p10 = scan(s, p9, Class::Except(','));
    let p11 = lit(s, p10, ","@);
    let p12 = scan(s, p11, Class::Space);
    let p13 = lit(s, p12, "Got:"@);
    let p14 = scan(s, p13, Class::Space);
    let p15 = decimal_end(s, p14);
    let p16 = lit(s, p15, ","@);
    let p17 = scan(s, p16, Class::Space);
    let p18 = lit(s, p17, "reason:"@);
    let p19 = scan(s, p18, Class::Space);
    if p19 >= 0 && score_reason_named(s.subrange(p19, s.len() as int)) is Some {
        Some(
            PayloadView::Score {
                player_no: num(s, p4, p5) as u8,
                nick_name: s.subrange(p9, p10),
                points: s.subrange(p14, p15),
                reason: score_reason_named(s.subrange(p19, s.len() as int)).unwrap(),
            },
        )
    } else {
        None
    }
}

pub fn parse_score(text: &str, s: &Vec<char>, i: usize) -> (r: Option<Payload>)
    requires
        s@ == text@,
        i <= s@.len(),
    ensures
        opt_view(r) == score_at(s@, i as int),
{
    let p1 = take_lit(s, i, "Score:")?;
    let p2 = scan_run(s, p1, Class::Space);
    let p3 = take_lit(s, p2, "player:")?;
    let p4 = scan_run(s, p3, Class::Space);
    let (player_no, p5) = take_uint(s, p4, 255)?;
    let p6 = take_lit(s, p5, ",")?;
    let p7 = scan_run(s, p6, Class::Space);
    let p8 = take_lit(s, p7, "nick:")?;
    let p9 = scan_run(s, p8, Class::Space);
    let p10 = scan_run(s, p9, Class::Except(','));
    let p11 = take_lit(s, p10, ",")?;
    let p12 = scan_run(s, p11, Class::Space);
    let p13 = take_lit(s, p12, "Got:")?;
    let p14 = scan_run(s, p13, Class::Space);
    let p15 = take_decimal(s, p14)?;
    let p16 = take_lit(s, p15, ",")?;
    let p17 = scan_run(s, p16, Class::Space);
    let p18 = take_lit(s, p17, "reason:")?;
    let p19 = scan_run(s, p18, Class::Space);
    let reason = score_reason_at(s, p19, s.len())?;
    Some(
        Payload::Score {
            player_no: player_no as u8,
            nick_name: text_between(text, p9, p10),
            points: decimal_between(text, s, p14, p15),
            reason,
        },
    )
}

/// `Damage. Victim: V, attacker: A, weapon 'W', damage: D FLAGS`, with
/// whitespace allowed before each comma; the flags run to the end of the line.
pub open spec fn damage_at(s: Seq<char>, i: int) -> Option<PayloadView> {
    let p1 = lit(s, i, "Damage. Victim: "@);
    let p2 = scan(s, p1, Class::NotSpaceOrComma);
    let p3 = scan(s, p2, Class::Space);
    let p4 = lit(s, p3, ", attacker: "@);
    let p5 = scan(s, p4, Class::NotSpaceOrComma);
    let p6 = scan(s, p5, Class::Space);
    let p7 = lit(s, p6, ", weapon '"@);
    let p8 = scan(s, p7, Class::Except('\''));
    let p9 = lit(s, p8, "', damage: "@);
    let p10 = decimal_end(s, p9);
    let p11 = scan(s, p10, Class::Space);
    if p11 >= 0 && flags_in(s.subrange(p11, s.len() as int)) is Some {
        Some(
            PayloadView::Damage {
                victim: s.subrange(p1, p2),
                attacker: s.subrange(p4, p5),
                weapon: s.subrange(p7, p8),
                damage: s.subrange(p9, p10),
                flags: flags_in(s.subrange(p11, s.len() as int)).unwrap(),
            },
        )
    } else {
        None
    }
}

pub fn parse_damage(text: &str, s: &Vec<char>, i: usize) -> (r: Option<Payload>)
    requires
        s@ == text@,
        i <= s@.len(),
    ensures
        opt_view(r) == damage_at(s@, i as int),
{
    let p1 = take_lit(s, i, "Damage. Victim: ")?;
    let p2 = scan_run(s, p1, Class::NotSpaceOrComma);
    let p3 = scan_run(s, p2, Class::Space);
    let p4 = take_lit(s, p3, ", attacker: ")?;
    let p5 = scan_run(s, p4, Class::NotSpaceOrComma);
    let p6 = scan_run(s, p5, Class::Space);
    let p7 = take_lit(s, p6, ", weapon '")?;
    let p8 = scan_run(s, p7, Class::Except('\''));
    let p9 = take_lit(s, p8, "', damage: ")?;
    let p10 = take_decimal(s, p9)?;
    let p11 = scan_run(s, p10, Class::Space);
    let flags = parse_flags_at(s, p11)?;
    Some(
        Payload::Damage {
            victim: text_between(text, p1, p2),
            attacker: text_between(text, p4, p5),
            weapon: text_between(text, p7, p8),
            damage: decimal_between(text, s, p9, p10),
            flags,
        },
    )
}

/// `Stripe 'NAME' value increased by V for player N [NICK].`
pub open spec fn stripe_at(s: Seq<char>, i: int) -> Option<PayloadView> {
    let p1 = lit(s, i, "Stripe '"@);
    let p2 = scan(s, p1, Class::Except('\''));
    let p3 = lit(s, p2, "' value increased by "@);
    let p4 = uint_end(s, p3, usize::MAX as nat);
    let p5 = lit(s, p4, " for player "@);
    let p6 = uint_end(s, p5, 255);
    let p7 = lit(s, p6, " ["@);
    let p8 = scan(s, p7, Class::Except(']'));
    let p9 = lit(s, p8, "]."@);
    if p9 >= 0 {
        Some(
            PayloadView::Stripe {
                name: s.subrange(p1, p2),
                value: num(s, p3, p4) as usize,
                player_no: num(s, p5, p6) as u8,
                nick_name: s.subrange(p7, p8),
            },
        )
    } else {
        None
    }
}

pub fn parse_stripe(text: &str, s: &Vec<char>, i: usize) -> (r: Option<Payload>)
    requires
        s@ == text@,
        i <= s@.len(),
    ensures
        opt_view(r) == stripe_at(s@, i as int),
{
    let p1 = take_lit(s, i, "Stripe '")?;
    let p2 = scan_run(s, p1, Class::Except('\''));
    let p3 = take_lit(s, p2, "' value increased by ")?;
    let (value, p4) = take_uint(s, p3, usize::MAX)?;
    let p5 = take_lit(s, p4, " for player ")?;
    let (player_no, p6) = take_uint(s, p5, 255)?;
    let p7 = take_lit(s, p6, " [")?;
    let p8 = scan_run(s, p7, Class::Except(']'));
    let _p9 = take_lit(s, p8, "].")?;
    Some(
        Payload::Stripe {
            name: text_between(text, p1, p2),
            value,
            player_no: player_no as u8,
            nick_name: text_between(text, p7, p8),
        },
    )
}

/// `Kill. Victim: V killer: K`
pub open spec fn kill_at(s: Seq<char>, i: int) -> Option<PayloadView> {
    let p1 = lit(s, i, "Kill. Victim: "@);
    let p2 = scan(s, p1, Class::NotSpace);
    let p3 = scan(s, p2, Class::Space);
    let p4 = lit(s, p3, "killer: "@);
    let p5 = scan(s, p4, Class::NotSpace);
    if p5 >= 0 {
        Some(PayloadView::Kill { victim: s.subrange(p1, p2), killer: s.subrange(p4, p5) })
    } else {
        None
    }
}

pub fn parse_kill(text: &str, s: &Vec<char>, i: usize) -> (r: Option<Payload>)
    requires
        s@ == text@,
        i <= s@.len(),
    ensures
        opt_view(r) == kill_at(s@, i as int),
{
    let p1 = take_lit(s, i, "Kill. Victim: ")?;
    let p2 = scan_run(s, p1, Class::NotSpace);
    let p3 = scan_run(s, p2, Class::Space);
    let p4 = take_lit(s, p3, "killer: ")?;
    let p5 = scan_run(s, p4, Class::NotSpace);
    Some(Payload::Kill { victim: text_between(text, p1, p2), killer: text_between(text, p4, p5) })
}

/// `assist by A weapon: 'W', E sec ago, damage: D FLAGS`, with whitespace
/// allowed first and before `weapon`; the flags run to the end of the line.
pub open spec fn assist_at(s: Seq<char>, i: int) -> Option<PayloadView> {
    let p1 = scan(s, i, Class::Space);
    let p2 = lit(s, p1, "assist by "@);
    let p3 = scan(s, p2, Class::NotSpace);
    let p4 = scan(s, p3, Class::Space);
    let p5 = lit(s, p4, "weapon: '"@);
    let p6 = scan(s, p5, Class::Except('\''));
    let p7 = lit(s, p6, "', "@);
    let p8 = decimal_end(s, p7);
    let p9 = lit(s, p8, " sec ago, damage: "@);
    let p10 = decimal_end(s, p9);
    let p11 = lit(s, p10, " "@);
    if p11 >= 0 && flags_in(s.subrange(p11, s.len() as int)) is Some {
        Some(
            PayloadView::Assist {
                assistant: s.subrange(p2, p3),
                weapon: s.subrange(p5, p6),
                elapsed_sec: s.subrange(p7, p8),
                damage_dealt: s.subrange(p9, p10),
                flags: flags_in(s.subrange(p11, s.len() as int)).unwrap(),
            },
        )
    } else {
        None
    }
}

pub fn parse_assist(text: &str, s: &Vec<char>, i: usize) -> (r: Option<Payload>)
    requires
        s@ == text@,
        i <= s@.len(),
    ensures
        opt_view(r) == assist_at(s@, i as int),
{
    let p1 = scan_run(s, i, Class::Space);
    let p2 = take_lit(s, p1, "assist by ")?;
    let p3 = scan_run(s, p2, Class::NotSpace);
    let p4 = scan_run(s, p3, Class::Space);
    let p5 = take_lit(s, p4, "weapon: '")?;
    let p6 = scan_run(s, p5, Class::Except('\''));
    let p7 = take_lit(s, p6, "', ")?;
    let p8 = take_decimal(s, p7)?;
    let p9 = take_lit(s, p8, " sec ago, damage: ")?;
    let p10 = take_decimal(s, p9)?;
    let p11 = take_lit(s, p10, " ")?;
    let flags = parse_flags_at(s, p11)?;
    Some(
        Payload::Assist {
            assistant: text_between(text, p2, p3),
            weapon: text_between(text, p5, p6),
            elapsed_sec: decimal_between(text, s, p7, p8),
            damage_dealt: decimal_between(text, s, p9, p10),
            flags,
        },
    )
}

/// The message at `i`: the first of the shapes that matches, tried in this order.
#[verifier::opaque]
pub open spec fn message_at(s: Seq<char>, i: int) -> Option<PayloadView> {
    either(
        level_start_at(s, i),
        either(
            test_start_at(s, i),
            either(
                test_finish_at(s, i),
                either(
                    spawn_player_at(s, i),
                    either(
                        game_start_at(s, i),
                        either(
                            round_finish_at(s, i),
                            either(
                                game_finish_at(s, i),
                                either(
                                    battle_start_at(s, i),
                                    either(
                                        player_info_at(s, i),
                                        either(
                                            score_at(s, i),
                                            either(
                                                damage_at(s, i),
                                                either(
                                                    stripe_at(s, i),
                                                    either(kill_at(s, i), assist_at(s, i)),
                                                ),
                                            ),
                                        ),
                                    ),
                                ),
                            ),
                        ),
                    ),
                ),
            ),
        ),
    )
}

/// The prefix of the round-less form of a round's end.
pub open spec fn roundless_finish_prefix() -> Seq<char> {
    "===== Gameplay finish, reason: "@
}

proof fn lemma_lit_differs(s: Seq<char>, i: int, t: Seq<char>, m: int)
    requires
        0 <= m < t.len(),
        0 <= i,
        i + m < s.len(),
        s[i + m] != t[m],
    ensures
        lit(s, i, t) == -1,
{
    if lit(s, i, t) >= 0 {
        assert(s.subrange(i, i + t.len())[m] == s[i + m]);
    }
}

/// Both forms of a round's end are read as the same kind of message, and a
/// line in the round-less form that is read at all is read as the end of
/// round 0.
pub proof fn lemma_roundless_finish_is_round_zero(s: Seq<char>, i: int)
    requires
        lit(s, i, roundless_finish_prefix()) >= 0,
        message_at(s, i) is Some,
    ensures
        message_at(s, i) == game_finish_at(s, i),
        message_at(s, i) matches Some(PayloadView::GameFinish { round, .. }) && round == 0,
{
    reveal(message_at);
    reveal_strlit("===== Gameplay finish, reason: ");
    reveal_strlit("====== starting level ");
    reveal_strlit("====== TestDrive started ======");
    reveal_strlit("====== TestDrive finish ======");
    reveal_strlit("Spawn player ");
    reveal_strlit("===== Gameplay '");
    reveal_strlit("===== Best Of N round ");
    reveal_strlit("Active battle started.");
    reveal_strlit("player");
    reveal_strlit("Score:");
    reveal_strlit("Damage. Victim: ");
    reveal_strlit("Stripe '");
    reveal_strlit("Kill. Victim: ");
    reveal_strlit("assist by ");
    let p = roundless_finish_prefix();
    assert(s.subrange(i, i + p.len()) == p);
    assert(s[i] == s.subrange(i, i + p.len())[0]);
    assert(s[i + 5] == s.subrange(i, i + p.len())[5]);
    assert(s[i + 6] == s.subrange(i, i + p.len())[6]);
    assert(s[i + 15] == s.subrange(i, i + p.len())[15]);
    lemma_lit_differs(s, i, "====== starting level "@, 5);
    lemma_lit_differs(s, i, "====== TestDrive started ======"@, 5);
    lemma_lit_differs(s, i, "====== TestDrive finish ======"@, 5);
    lemma_lit_differs(s, i, "Spawn player "@, 0);
    lemma_lit_differs(s, i, "===== Gameplay '"@, 15);
    lemma_lit_differs(s, i, "===== Best Of N round "@, 6);
    lemma_lit_differs(s, i, "Active battle started."@, 0);
    crate::text::lemma_run_end_bounds(s, i, Class::Space);
    assert(scan(s, i, Class::Space) == i);
    lemma_lit_differs(s, i, "player"@, 0);
    lemma_lit_differs(s, i, "Score:"@, 0);
    lemma_lit_differs(s, i, "Damage. Victim: "@, 0);
    lemma_lit_differs(s, i, "Stripe '"@, 0);
    lemma_lit_differs(s, i, "Kill. Victim: "@, 0);
    lemma_lit_differs(s, i, "assist by "@, 0);
}

/// The round-less form of a round's end is always read as the end of round 0.
pub proof fn lemma_roundless_form_has_round_zero(s: Seq<char>, i: int)
    ensures
        game_finish_at(s, i) matches Some(p) ==> p matches PayloadView::GameFinish { round, .. }
            && round == 0,
{
}

/// Tries each message shape at `i`, in order, and returns the first match.
pub fn parse_message_at(text: &str, s: &Vec<char>, i: usize) -> (r: Option<Payload>)
    requires
        s@ == text@,
        i <= s@.len(),
    ensures
        opt_view(r) == message_at(s@, i as int),
{
    reveal(message_at);
    if let Some(p) = parse_level_start(text, s, i) {
        return Some(p);
    }
    if let Some(p) = parse_test_start(s, i) {
        return Some(p);
    }
    if let Some(p) = parse_test_finish(s, i) {
        return Some(p);
    }
    if let Some(p) = parse_spawn_player(text, s, i) {
        return Some(p);
    }
    if let Some(p) = parse_game_start(text, s, i) {
        return Some(p);
    }
    if let Some(p) = parse_round_finish(text, s, i) {
        return Some(p);
    }
    if let Some(p) = parse_game_finish(text, s, i) {
        return Some(p);
    }
    if let Some(p) = parse_battle_start(s, i) {
        return Some(p);
    }
    if let Some(p) = parse_player_info(text, s, i) {
        return Some(p);
    }
    if let Some(p) = parse_score(text, s, i) {
        return Some(p);
    }
    if let Some(p) = parse_damage(text, s, i) {
        return Some(p);
    }
    if let Some(p) = parse_stripe(text, s, i) {
        return Some(p);
    }
    if let Some(p) = parse_kill(text, s, i) {
        return Some(p);
    }
    parse_assist(text, s, i)
}

/// Reads the message that a line holds once its timestamp is taken off.
pub fn parse_message(text: &str) -> (r: Option<Payload>)
    ensures
        opt_view(r) == message_at(text@, 0),
{
    let s = chars_of(text);
    parse_message_at(text, &s, 0)
}

} // verus!
