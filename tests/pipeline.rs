use crossout_log::entry::{classify, Outcome};
use crossout_log::pipeline::{line_selected, worker_count, Batcher};
use crossout_log::time::Date;

fn run(threshold: usize, n: usize) -> Vec<Vec<usize>> {
    let mut b = Batcher::new(threshold);
    let mut out = Vec::new();
    for i in 0..n {
        if let Some(batch) = b.push(i) {
            out.push(batch);
        }
    }
    out.push(b.finish());
    out
}

#[test]
fn batches_keep_every_record_in_order() {
    let out = run(3, 7);
    assert_eq!(out, vec![vec![0, 1, 2], vec![3, 4, 5], vec![6]]);
    let flat: Vec<usize> = out.into_iter().flatten().collect();
    assert_eq!(flat, (0..7).collect::<Vec<_>>());
}

#[test]
fn exact_multiple_ends_with_full_final_batch() {
    assert_eq!(run(3, 6), vec![vec![0, 1, 2], vec![3, 4, 5]]);
    assert_eq!(run(3, 3), vec![vec![0, 1, 2]]);
}

#[test]
fn final_batch_empty_only_without_records() {
    assert_eq!(run(3, 0), vec![Vec::<usize>::new()]);
    assert_eq!(run(3, 1), vec![vec![0]]);
    assert_eq!(run(0, 2), vec![vec![0], vec![1]]);
}

#[test]
fn a_batch_leaves_before_the_end_when_records_exceed_threshold() {
    let out = run(4, 5);
    assert!(out.len() >= 2);
    assert_eq!(out[0].len(), 4);
}

#[test]
fn workers_leave_one_unit_for_the_uploader() {
    assert_eq!(worker_count(8), 7);
    assert_eq!(worker_count(2), 1);
    assert_eq!(worker_count(1), 1);
    assert_eq!(worker_count(0), 1);
}

#[test]
fn line_ranges() {
    assert!(line_selected(5, None));
    assert!(line_selected(2, Some((2, 4))));
    assert!(line_selected(3, Some((2, 4))));
    assert!(!line_selected(4, Some((2, 4))));
    assert!(!line_selected(1, Some((2, 4))));
}

fn synthetic_sources() -> Vec<(Vec<String>, Date)> {
    let d1 = Date::new(2024, 3, 5).unwrap();
    let d2 = Date::new(2024, 3, 6).unwrap();
    let a = vec![
        "10:00:00.000| Active battle started.".to_string(),
        "10:00:01.000| Kill. Victim: A killer: B".to_string(),
        "junk".to_string(),
    ];
    let b = vec![
        "11:00:00.000| ====== TestDrive started ======".to_string(),
        "11:00:01.000| Stripe 'S' value increased by 1 for player 2 [N].".to_string(),
        "more junk".to_string(),
        "11:00:02.000| ====== TestDrive finish ======".to_string(),
    ];
    vec![(a, d1), (b, d2)]
}

fn outcomes_in_order(order: &[(usize, usize)], sources: &[(Vec<String>, Date)]) -> Vec<String> {
    let mut out: Vec<String> = order
        .iter()
        .map(|(s, l)| format!("{:?}", classify(sources[*s].1, &sources[*s].0[*l])))
        .collect();
    out.sort();
    out
}

#[test]
fn every_line_is_classified_and_batched() {
    let sources = synthetic_sources();
    let n: usize = sources.iter().map(|(l, _)| l.len()).sum();
    let mut records = 0;
    let mut errors = 0;
    let mut b = Batcher::new(2);
    let mut flushes = 0;
    for (lines, date) in &sources {
        for line in lines {
            match classify(*date, line) {
                Outcome::Record(e) => {
                    records += 1;
                    if b.push(e).is_some() {
                        flushes += 1;
                    }
                }
                Outcome::Unparsed(_) => errors += 1,
                Outcome::Blank => {}
            }
        }
    }
    let last = b.finish();
    assert_eq!(records + errors, n);
    assert_eq!(records, 5);
    assert!(flushes >= 1);
    assert_eq!(last.len(), 1);
}

#[test]
fn outcomes_do_not_depend_on_order() {
    let sources = synthetic_sources();
    let forward: Vec<(usize, usize)> =
        vec![(0, 0), (0, 1), (0, 2), (1, 0), (1, 1), (1, 2), (1, 3)];
    let mut shuffled = forward.clone();
    shuffled.reverse();
    shuffled.swap(1, 4);
    assert_eq!(outcomes_in_order(&forward, &sources), outcomes_in_order(&shuffled, &sources));
}
