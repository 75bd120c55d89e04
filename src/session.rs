//! Log sessions: the game writes the logs of each session into a directory
//! named after the time the session started, `YYYY.MM.DD HH.MM.SS`.
use chrono::{Datelike, Timelike};
use vstd::prelude::*;

use crate::time::{Date, Time, Timestamp};

verus! {

/// The format of a session directory's name, in chrono's notation.
pub const SESSION_DIR_FORMAT: &'static str = "%Y.%m.%d %H.%M.%S";

/// The date and time that chrono reads from `text` in the format `format`.
pub uninterp spec fn parsed_date_time(text: Seq<char>, format: Seq<char>) -> Option<Timestamp>;

/// Relies on `chrono::NaiveDateTime::parse_from_str`: what it reads depends on
/// the text and the format alone, and what it returns is a valid date and
/// time of day (a leap second comes back as second 59 with 1000 or more
/// milliseconds).
#[verifier::external_body]
fn read_date_time(text: &str, format: &str) -> (r: Option<Timestamp>)
    ensures
        r == parsed_date_time(text@, format@),
        r matches Some(t) ==> t.wf(),
{
    match chrono::NaiveDateTime::parse_from_str(text, format) {
        Ok(d) => Some(
            Timestamp {
                date: Date { year: d.year(), month: d.month(), day: d.day() },
                time: Time {
                    hour: d.hour(),
                    minute: d.minute(),
                    second: d.second(),
                    milli: d.and_utc().timestamp_subsec_millis(),
                },
            },
        ),
        Err(_) => None,
    }
}

/// The sessions among directory names, given the start that each name reads
/// as, if any: the index and start of each name that has one, in order.
pub open spec fn sessions_from(starts: Seq<Option<Timestamp>>) -> Seq<(usize, Timestamp)>
    decreases starts.len(),
{
    if starts.len() == 0 {
        Seq::empty()
    } else {
        let rest = sessions_from(starts.drop_last());
        match starts.last() {
            Some(t) => rest.push(((starts.len() - 1) as usize, t)),
            None => rest,
        }
    }
}

/// The start that each of `names` reads as, if any.
pub open spec fn session_starts(names: Seq<String>) -> Seq<Option<Timestamp>> {
    names.map_values(|n: String| parsed_date_time(n@, SESSION_DIR_FORMAT@))
}

/// Keeps the directory names that read as a session's start, given what
/// each name reads as.
pub fn pick_sessions(starts: &Vec<Option<Timestamp>>) -> (r: Vec<(usize, Timestamp)>)
    ensures
        r@ == sessions_from(starts@),
{
    let mut out: Vec<(usize, Timestamp)> = Vec::new();
    let mut k: usize = 0;
    assert(starts@.subrange(0, 0) =~= Seq::<Option<Timestamp>>::empty());
    while k < starts.len()
        invariant
            k <= starts@.len(),
            out@ == sessions_from(starts@.subrange(0, k as int)),
        decreases starts@.len() - k,
    {
        let ghost after = starts@.subrange(0, k + 1);
        assert(after.drop_last() =~= starts@.subrange(0, k as int));
        if let Some(t) = starts[k] {
            out.push((k, t));
        }
        k = k + 1;
    }
    assert(starts@.subrange(0, k as int) =~= starts@);
    out
}

/// Picks the session directories out of the directory names `names`: the
/// index of each name that reads as a session's start, with that start.
pub fn sessions(names: &Vec<String>) -> (r: Vec<(usize, Timestamp)>)
    ensures
        r@ == sessions_from(session_starts(names@)),
        forall|k: int| 0 <= k < r@.len() ==> (#[trigger] r@[k]).1.wf(),
{
    let mut starts: Vec<Option<Timestamp>> = Vec::new();
    let mut k: usize = 0;
    while k < names.len()
        invariant
            k <= names@.len(),
            starts@ == session_starts(names@.subrange(0, k as int)),
            forall|m: int| 0 <= m < starts@.len() ==> valid_start(#[trigger] starts@[m]),
        decreases names@.len() - k,
    {
        let start = read_date_time(names[k].as_str(), SESSION_DIR_FORMAT);
        starts.push(start);
        assert(starts@ =~= session_starts(names@.subrange(0, k + 1)));
        k = k + 1;
    }
    assert(names@.subrange(0, k as int) =~= names@);
    let r = pick_sessions(&starts);
    proof {
        lemma_sessions_valid(starts@);
    }
    r
}

spec fn valid_start(o: Option<Timestamp>) -> bool {
    match o {
        Some(t) => t.wf(),
        None => true,
    }
}

proof fn lemma_sessions_valid(starts: Seq<Option<Timestamp>>)
    requires
        forall|m: int| 0 <= m < starts.len() ==> valid_start(#[trigger] starts[m]),
    ensures
        forall|k: int|
            0 <= k < sessions_from(starts).len() ==> (#[trigger] sessions_from(starts)[k]).1.wf(),
    decreases starts.len(),
{
    if starts.len() > 0 {
        let rest = starts.drop_last();
        assert forall|m: int| 0 <= m < rest.len() implies valid_start(#[trigger] rest[m]) by {
            assert(rest[m] == starts[m]);
        }
        lemma_sessions_valid(rest);
        assert(valid_start(starts[starts.len() - 1]));
        let before = sessions_from(rest);
        let all = sessions_from(starts);
        assert forall|k: int| 0 <= k < all.len() implies (#[trigger] all[k]).1.wf() by {
            if k < before.len() {
                assert(all[k] == before[k]);
            }
        }
    }
}

} // verus!
