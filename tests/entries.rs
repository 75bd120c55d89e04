use crossout_log::entry::{classify, parse_entry, parse_messages, Outcome};
use crossout_log::grammar::parse_message;
use crossout_log::payload::{Entry, Payload};
use crossout_log::time::{Date, Time, Timestamp};

fn day() -> Date {
    Date::new(2024, 3, 5).unwrap()
}

#[test]
fn date_and_line_time_combine() {
    let e = parse_entry(day(), "21:04:33.912| Active battle started.").unwrap();
    assert_eq!(
        e,
        Entry {
            time_stamp: Timestamp {
                date: Date { year: 2024, month: 3, day: 5 },
                time: Time { hour: 21, minute: 4, second: 33, milli: 912 },
            },
            message: Payload::BattleStart,
        }
    );
}

#[test]
fn entry_needs_separator() {
    assert!(parse_entry(day(), "21:04:33.912 Active battle started.").is_err());
    assert!(parse_entry(day(), "21:04:33.912|Active battle started.").is_err());
}

#[test]
fn entry_time_out_of_range_is_no_match() {
    assert!(parse_entry(day(), "24:00:00.000| Active battle started.").is_err());
    assert!(parse_entry(day(), "10:60:00.000| Active battle started.").is_err());
    assert!(parse_entry(day(), "10:00:00.1000| Active battle started.").is_err());
    let leap = parse_entry(day(), "23:59:59.1500| Active battle started.").unwrap();
    assert_eq!(leap.time_stamp.time, Time { hour: 23, minute: 59, second: 59, milli: 1500 });
}

#[test]
fn entry_message_matches_message_parser() {
    let line = "Kill. Victim: Alice killer: Bob";
    let e = parse_entry(day(), &format!("01:02:03.004| {}", line)).unwrap();
    assert_eq!(Some(e.message), parse_message(line));
}

#[test]
fn dates_are_checked() {
    assert!(Date::new(2024, 2, 29).is_some());
    assert!(Date::new(2023, 2, 29).is_none());
    assert!(Date::new(2000, 2, 29).is_some());
    assert!(Date::new(1900, 2, 29).is_none());
    assert!(Date::new(2024, 13, 1).is_none());
    assert!(Date::new(2024, 4, 31).is_none());
    assert!(Date::new(2024, 4, 0).is_none());
}

#[test]
fn classify_sorts_lines() {
    match classify(day(), "12:00:00.000| Active battle started.") {
        Outcome::Record(e) => assert_eq!(e.message, Payload::BattleStart),
        other => panic!("unexpected {:?}", other),
    }
    assert_eq!(classify(day(), "no time here"), Outcome::Unparsed("no time here".to_string()));
    assert_eq!(classify(day(), ""), Outcome::Blank);
}

#[test]
fn blank_lines_never_reported_unparsed() {
    let lines: Vec<String> = vec![
        "".to_string(),
        "12:00:00.000| Active battle started.".to_string(),
        "garbage line".to_string(),
        "".to_string(),
        "12:00:01.000| Kill. Victim: A killer: B".to_string(),
        " ".to_string(),
    ];
    let mut messages = Vec::new();
    let mut errors = Vec::new();
    parse_messages(&lines, day(), &mut messages, &mut errors);
    assert_eq!(messages.len(), 2);
    assert_eq!(messages[0].message, Payload::BattleStart);
    assert_eq!(
        messages[1].message,
        Payload::Kill { victim: "A".to_string(), killer: "B".to_string() }
    );
    assert_eq!(errors, vec!["garbage line".to_string(), " ".to_string()]);
}

#[test]
fn parse_messages_appends() {
    let lines: Vec<String> = vec!["x".to_string()];
    let mut messages = Vec::new();
    let mut errors = vec!["earlier".to_string()];
    parse_messages(&lines, day(), &mut messages, &mut errors);
    assert!(messages.is_empty());
    assert_eq!(errors, vec!["earlier".to_string(), "x".to_string()]);
}

#[test]
fn split_work_gives_same_records_and_errors() {
    let lines: Vec<String> = vec![
        "12:00:00.000| Active battle started.".to_string(),
        "junk one".to_string(),
        "12:00:01.000| Kill. Victim: A killer: B".to_string(),
        "".to_string(),
        "junk two".to_string(),
        "12:00:02.000| ====== TestDrive finish ======".to_string(),
    ];
    let mut whole_records = Vec::new();
    let mut whole_errors = Vec::new();
    parse_messages(&lines, day(), &mut whole_records, &mut whole_errors);
    let first: Vec<String> = vec![lines[5].clone(), lines[1].clone(), lines[3].clone()];
    let second: Vec<String> = vec![lines[4].clone(), lines[2].clone(), lines[0].clone()];
    let mut split_records = Vec::new();
    let mut split_errors = Vec::new();
    parse_messages(&first, day(), &mut split_records, &mut split_errors);
    parse_messages(&second, day(), &mut split_records, &mut split_errors);
    let key = |v: &Vec<Entry>| {
        let mut k: Vec<String> = v.iter().map(|e| format!("{:?}", e)).collect();
        k.sort();
        k
    };
    assert_eq!(key(&whole_records), key(&split_records));
    whole_errors.sort();
    split_errors.sort();
    assert_eq!(whole_errors, split_errors);
}
