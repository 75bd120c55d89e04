use crossout_log::flags::{DamageFlag, DamageFlags};
use crossout_log::grammar::{parse_game_finish, parse_message};
use crossout_log::kinds::{FinishReason, GameMode, ScoreReason, WinReason};
use crossout_log::payload::{Decimal, Payload};

fn dec(t: &str) -> Decimal {
    Decimal::new(t).unwrap()
}

fn flags(list: &[DamageFlag]) -> DamageFlags {
    let mut acc = DamageFlags::empty();
    for f in list {
        acc = acc.union(&DamageFlags::single(*f));
    }
    acc
}

#[test]
fn level_start_line() {
    let p = parse_message("====== starting level 12: 'levels/maps/bridge' Domination ======");
    assert_eq!(
        p,
        Some(Payload::LevelStart {
            level_no: 12,
            level_name: "levels/maps/bridge".to_string(),
            game_mode: GameMode::Domination,
        })
    );
}

#[test]
fn level_start_empty_mode_is_unknown() {
    let p = parse_message("====== starting level 3: 'hangar' Unknown ======");
    assert_eq!(
        p,
        Some(Payload::LevelStart {
            level_no: 3,
            level_name: "hangar".to_string(),
            game_mode: GameMode::Unknown,
        })
    );
    assert_eq!(parse_message("====== starting level 3: 'hangar' Skirmish ======"), None);
}

#[test]
fn test_drive_markers() {
    assert_eq!(parse_message("====== TestDrive started ======"), Some(Payload::TestStart));
    assert_eq!(parse_message("====== TestDrive finish ======"), Some(Payload::TestFinish));
    assert_eq!(parse_message("====== TestDrive started ====="), None);
}

#[test]
fn spawn_player_line() {
    let p = parse_message("Spawn player 3 [Nick_1], team 2, spawnCounter 1 , designHash: 1a2B3c.");
    assert_eq!(
        p,
        Some(Payload::SpawnPlayer {
            player_no: 3,
            nick_name: "Nick_1".to_string(),
            team: 2,
            spawn_counter: 1,
            design_hash: 0x1a2b3c,
        })
    );
}

#[test]
fn spawn_player_without_final_dot_is_no_match() {
    let p = parse_message("Spawn player 3 [Nick_1], team 2, spawnCounter 1 , designHash: 1a2B3c");
    assert_eq!(p, None);
}

#[test]
fn spawn_player_number_out_of_range_is_no_match() {
    let p = parse_message("Spawn player 300 [Nick_1], team 2, spawnCounter 1 , designHash: 1a.");
    assert_eq!(p, None);
}

#[test]
fn game_start_line() {
    let p = parse_message("===== Gameplay 'Conquer' started, map 'rockcity' ======");
    assert_eq!(
        p,
        Some(Payload::GameStart { game_mode: GameMode::Conquer, map: "rockcity".to_string() })
    );
    let p = parse_message("===== Gameplay 'Brawl_BDCrossout' started, map 'arena' ======");
    assert_eq!(
        p,
        Some(Payload::GameStart { game_mode: GameMode::BrawlBDCrossout, map: "arena".to_string() })
    );
}

#[test]
fn game_finish_with_round() {
    let p = parse_message(
        "===== Best Of N round 2 finish, reason: timer, winner team 1, win reason: DOMINATION, battle time: 305.1 sec =====",
    );
    assert_eq!(
        p,
        Some(Payload::GameFinish {
            round: 2,
            finish_reason: FinishReason::Timer,
            winning_team: 1,
            win_reason: WinReason::Domination,
            duration_sec: dec("305.1"),
        })
    );
}

#[test]
fn game_finish_without_round() {
    let p = parse_message(
        "===== Gameplay finish, reason: no_cars, winner team 0, win reason: NONE, battle time: 120.0 sec =====",
    );
    assert_eq!(
        p,
        Some(Payload::GameFinish {
            round: 0,
            finish_reason: FinishReason::NoCars,
            winning_team: 0,
            win_reason: WinReason::NoReason,
            duration_sec: dec("120.0"),
        })
    );
    match p {
        Some(Payload::GameFinish { duration_sec, .. }) => {
            let v: f32 = duration_sec.as_str().parse().unwrap();
            assert_eq!(v, 120.0);
        }
        _ => panic!("expected a game finish"),
    }
}

#[test]
fn game_finish_unknown_reason_is_no_match() {
    let p = parse_message(
        "===== Gameplay finish, reason: quit, winner team 0, win reason: NONE, battle time: 120.0 sec =====",
    );
    assert_eq!(p, None);
    let p = parse_message(
        "===== Best Of N round 2 finish, reason: timer, winner team 1, win reason: WHATEVER, battle time: 305.1 sec =====",
    );
    assert_eq!(p, None);
}

#[test]
fn game_finish_bad_duration_is_no_match() {
    let p = parse_message(
        "===== Gameplay finish, reason: timer, winner team 0, win reason: NONE, battle time: 1.2.3 sec =====",
    );
    assert_eq!(p, None);
    let p = parse_message(
        "===== Gameplay finish, reason: timer, winner team 0, win reason: NONE, battle time: . sec =====",
    );
    assert_eq!(p, None);
}

#[test]
fn battle_start_line() {
    assert_eq!(parse_message("Active battle started."), Some(Payload::BattleStart));
    assert_eq!(parse_message("Active battle started"), None);
}

#[test]
fn player_info_line() {
    let p = parse_message(
        "player  1, uid 123456, party 0, nickname: Tester          , team: 1, bot: 0, ur: 4321, mmHash: ffee01",
    );
    assert_eq!(
        p,
        Some(Payload::PlayerInfo {
            player_no: 1,
            user_id: 123456,
            party_id: 0,
            nick_name: "Tester".to_string(),
            team: 1,
            bot: 0,
            session: 4321,
            design_hash: 0xffee01,
        })
    );
}

#[test]
fn score_line() {
    let p = parse_message("Score:\tplayer: 3, nick: Tester, Got: 25, reason: KILL");
    assert_eq!(
        p,
        Some(Payload::Score {
            player_no: 3,
            nick_name: "Tester".to_string(),
            points: dec("25"),
            reason: ScoreReason::Kill,
        })
    );
    assert_eq!(parse_message("Score:\tplayer: 3, nick: Tester, Got: 25, reason: KILL "), None);
}

#[test]
fn score_line_with_decimal_points() {
    let p = parse_message("Score: player: 1, nick: Bob, Got: 2.5, reason: SHIELD");
    assert_eq!(
        p,
        Some(Payload::Score {
            player_no: 1,
            nick_name: "Bob".to_string(),
            points: dec("2.5"),
            reason: ScoreReason::Shield,
        })
    );
    assert_eq!(parse_message("Score: player: 1, nick: Bob, Got: 2.5.1, reason: SHIELD"), None);
}

#[test]
fn damage_line() {
    let p = parse_message(
        "Damage. Victim: Alice, attacker: Bob, weapon 'CarPart_Gun_Cannon', damage: 73.5 DMG_DIRECT|CONTACT|",
    );
    assert_eq!(
        p,
        Some(Payload::Damage {
            victim: "Alice".to_string(),
            attacker: "Bob".to_string(),
            weapon: "CarPart_Gun_Cannon".to_string(),
            damage: dec("73.5"),
            flags: flags(&[DamageFlag::Direct, DamageFlag::Contact]),
        })
    );
}

#[test]
fn damage_unknown_flag_is_no_match() {
    let p = parse_message(
        "Damage. Victim: Alice, attacker: Bob, weapon 'CarPart_Gun_Cannon', damage: 73.5 DMG_DIRECT|DMG_LASER",
    );
    assert_eq!(p, None);
}

#[test]
fn stripe_line() {
    let p = parse_message("Stripe 'PvpDamage' value increased by 120 for player 4 [Bob].");
    assert_eq!(
        p,
        Some(Payload::Stripe {
            name: "PvpDamage".to_string(),
            value: 120,
            player_no: 4,
            nick_name: "Bob".to_string(),
        })
    );
}

#[test]
fn kill_line() {
    let p = parse_message("Kill. Victim: Alice killer: Bob");
    assert_eq!(
        p,
        Some(Payload::Kill { victim: "Alice".to_string(), killer: "Bob".to_string() })
    );
    assert_eq!(parse_message("Kill. victim: Alice killer: Bob"), None);
}

#[test]
fn assist_line() {
    let p = parse_message(
        "   assist by Carol weapon: 'CarPart_Gun_Machinegun', 2.5 sec ago, damage: 40.0 DMG_GENERIC",
    );
    assert_eq!(
        p,
        Some(Payload::Assist {
            assistant: "Carol".to_string(),
            weapon: "CarPart_Gun_Machinegun".to_string(),
            elapsed_sec: dec("2.5"),
            damage_dealt: dec("40.0"),
            flags: flags(&[DamageFlag::Generic]),
        })
    );
}

#[test]
fn unknown_line_is_no_match() {
    assert_eq!(parse_message("something else entirely"), None);
    assert_eq!(parse_message(""), None);
}

#[test]
fn roundless_finish_recognizer_gives_round_zero() {
    let line = "===== Gameplay finish, reason: base_captured, winner team 2, win reason: MORE_BASE_CAPTURED, battle time: 61 sec =====";
    let chars: Vec<char> = line.chars().collect();
    match parse_game_finish(line, &chars, 0) {
        Some(Payload::GameFinish { round, winning_team, .. }) => {
            assert_eq!(round, 0);
            assert_eq!(winning_team, 2);
        }
        other => panic!("unexpected {:?}", other),
    }
    let round_line = "===== Best Of N round 2 finish, reason: timer, winner team 1, win reason: DOMINATION, battle time: 305.1 sec =====";
    let chars: Vec<char> = round_line.chars().collect();
    assert_eq!(parse_game_finish(round_line, &chars, 0), None);
}
