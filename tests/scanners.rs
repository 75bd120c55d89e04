use crossout_log::error::Error;
use crossout_log::kinds::{FinishReason, GameMode, ScoreReason, WinReason};
use crossout_log::payload::Decimal;
use crossout_log::session::{pick_sessions, sessions};
use crossout_log::text::{from_hex, not_ws, not_ws_comma};
use crossout_log::time::{Date, Time, Timestamp};

#[test]
fn hex_numbers() {
    assert_eq!(from_hex("ff"), Some(255));
    assert_eq!(from_hex("1A2b"), Some(0x1a2b));
    assert_eq!(from_hex("+a"), Some(10));
    assert_eq!(from_hex(""), None);
    assert_eq!(from_hex("+"), None);
    assert_eq!(from_hex("g1"), None);
    assert_eq!(from_hex("ffffffffffffffff"), Some(usize::MAX));
    assert_eq!(from_hex("10000000000000000"), None);
}

#[test]
fn whitespace_classes() {
    assert!(!not_ws(' '));
    assert!(!not_ws('\t'));
    assert!(!not_ws('\u{3000}'));
    assert!(!not_ws('\u{a0}'));
    assert!(not_ws('x'));
    assert!(not_ws(','));
    assert!(!not_ws_comma(','));
    assert!(!not_ws_comma(' '));
    assert!(not_ws_comma('a'));
}

#[test]
fn decimals() {
    assert!(Decimal::new("5").is_some());
    assert!(Decimal::new("5.").is_some());
    assert!(Decimal::new(".5").is_some());
    assert_eq!(Decimal::new("30.25").unwrap().as_str(), "30.25");
    assert!(Decimal::new(".").is_none());
    assert!(Decimal::new("").is_none());
    assert!(Decimal::new("1.2.3").is_none());
    assert!(Decimal::new("1e5").is_none());
}

#[test]
fn enum_tokens() {
    assert_eq!(FinishReason::from_name("base_captured"), Some(FinishReason::BaseCaptured));
    assert_eq!(FinishReason::from_name("Timer"), None);
    assert_eq!(WinReason::from_name("DEATMATCH_TIMER"), Some(WinReason::DeathMatchTimer));
    assert_eq!(WinReason::NoReason.name(), "NONE");
    assert_eq!(ScoreReason::from_name("POINT_CAPTURE"), Some(ScoreReason::PointCapture));
    assert_eq!(ScoreReason::from_name(""), None);
    assert_eq!(GameMode::from_name(""), Some(GameMode::Unknown));
    assert_eq!(GameMode::from_name("Unknown"), Some(GameMode::Unknown));
    assert_eq!(GameMode::from_name("AssaultBestOf3"), Some(GameMode::AssaultBestOf3));
    assert_eq!(GameMode::from_name("assault"), None);
}

#[test]
fn io_errors_convert() {
    let e = Error::from(std::io::Error::new(std::io::ErrorKind::NotFound, "gone"));
    assert!(matches!(e, Error::File(_)));
}

#[test]
fn session_directory_names() {
    let names = vec![
        "2024.03.05 21.04.33".to_string(),
        "notes".to_string(),
        "2023.12.31 23.59.59".to_string(),
        "2023.02.30 10.00.00".to_string(),
    ];
    let found = sessions(&names);
    assert_eq!(
        found,
        vec![
            (
                0,
                Timestamp {
                    date: Date { year: 2024, month: 3, day: 5 },
                    time: Time { hour: 21, minute: 4, second: 33, milli: 0 },
                }
            ),
            (
                2,
                Timestamp {
                    date: Date { year: 2023, month: 12, day: 31 },
                    time: Time { hour: 23, minute: 59, second: 59, milli: 0 },
                }
            ),
        ]
    );
}

#[test]
fn picking_sessions_keeps_indices() {
    let t = Timestamp {
        date: Date { year: 2024, month: 3, day: 5 },
        time: Time { hour: 1, minute: 2, second: 3, milli: 0 },
    };
    let found = pick_sessions(&vec![None, Some(t), None, Some(t)]);
    assert_eq!(found, vec![(1, t), (3, t)]);
    assert!(pick_sessions(&vec![]).is_empty());
}
