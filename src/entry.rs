//! Whole log lines: the leading time of day, the `| ` separator, and the
//! message; and the sorting of many lines into records and unparsed lines.
use vstd::prelude::*;

use crate::grammar::{message_at, opt_view, parse_message_at};
use crate::payload::{Entry, EntryView};
use crate::text::{chars_of, lit, num, take_lit, take_uint, uint_end};
use crate::time::{Date, Time, Timestamp};

verus! {

/// A line that holds no message of a known shape.
#[derive(Clone, Copy, PartialEq, Eq, Structural, Debug)]
pub struct NoMatch;

/// `HH:MM:SS.mmm` at the start of `s`: the time and the position after it.
/// Each field is a run of digits; the time must be a time of day.
pub open spec fn time_at(s: Seq<char>) -> Option<(Time, int)> {
    let p1 = uint_end(s, 0, u32::MAX as nat);
    let p2 = lit(s, p1, ":"@);
    let p3 = uint_end(s, p2, u32::MAX as nat);
    let p4 = lit(s, p3, ":"@);
    let p5 = uint_end(s, p4, u32::MAX as nat);
    let p6 = lit(s, p5, "."@);
    let p7 = uint_end(s, p6, u32::MAX as nat);
    let t = Time {
        hour: num(s, 0, p1) as u32,
        minute: num(s, p2, p3) as u32,
        second: num(s, p4, p5) as u32,
        milli: num(s, p6, p7) as u32,
    };
    if p7 >= 0 && t.wf() {
        Some((t, p7))
    } else {
        None
    }
}

/// The entry that the line `s` holds, written on the day `date`.
#[verifier::opaque]
pub open spec fn entry_at(date: Date, s: Seq<char>) -> Option<EntryView> {
    match time_at(s) {
        Some((t, p)) => {
            let q = lit(s, p, "| "@);
            if q >= 0 {
                match message_at(s, q) {
                    Some(m) => Some(EntryView { time_stamp: Timestamp { date, time: t }, message: m }),
                    None => None,
                }
            } else {
                None
            }
        },
        None => None,
    }
}

fn parse_time(s: &Vec<char>) -> (r: Option<(Time, usize)>)
    ensures
        match r {
            Some((t, p)) => time_at(s@) == Some((t, p as int)) && p <= s@.len(),
            None => time_at(s@) is None,
        },
{
    let (hour, p1) = take_uint(s, 0, u32::MAX as usize)?;
    let p2 = take_lit(s, p1, ":")?;
    let (minute, p3) = take_uint(s, p2, u32::MAX as usize)?;
    let p4 = take_lit(s, p3, ":")?;
    let (second, p5) = take_uint(s, p4, u32::MAX as usize)?;
    let p6 = take_lit(s, p5, ".")?;
    let (milli, p7) = take_uint(s, p6, u32::MAX as usize)?;
    let t = Time::new(hour as u32, minute as u32, second as u32, milli as u32)?;
    Some((t, p7))
}

/// Reads a log line written on the day `date`: its time of day, `| `, and
/// its message. The entry's timestamp is that time on that day.
pub fn parse_entry(date: Date, line: &str) -> (r: Result<Entry, NoMatch>)
    ensures
        match r {
            Ok(e) => entry_at(date, line@) == Some(e@),
            Err(_) => entry_at(date, line@) is None,
        },
{
    reveal(entry_at);
    let s = chars_of(line);
    let (time, p) = match parse_time(&s) {
        Some(tp) => tp,
        None => {
            return Err(NoMatch);
        },
    };
    let q = match take_lit(&s, p, "| ") {
        Some(q) => q,
        None => {
            return Err(NoMatch);
        },
    };
    match parse_message_at(line, &s, q) {
        Some(message) => Ok(Entry { time_stamp: Timestamp::at(date, time), message }),
        None => Err(NoMatch),
    }
}

/// The timestamp of an entry is the time of day at the start of its line,
/// on the day that the line's log was written.
pub proof fn lemma_entry_time_on_log_day(date: Date, s: Seq<char>)
    requires
        entry_at(date, s) is Some,
    ensures
        time_at(s) is Some,
        entry_at(date, s).unwrap().time_stamp == (Timestamp { date, time: time_at(s).unwrap().0 }),
{
    reveal(entry_at);
}

/// What becomes of one line.
#[derive(Clone, PartialEq, Debug)]
pub enum Outcome {
    /// The line holds an entry.
    Record(Entry),
    /// The line is not empty and holds no entry; it is kept as it is.
    Unparsed(String),
    /// The line is empty.
    Blank,
}

/// The view of an `Outcome`.
pub enum OutcomeView {
    Record(EntryView),
    Unparsed(Seq<char>),
    Blank,
}

impl View for Outcome {
    type V = OutcomeView;

    open spec fn view(&self) -> OutcomeView {
        match self {
            Outcome::Record(e) => OutcomeView::Record(e@),
            Outcome::Unparsed(t) => OutcomeView::Unparsed(t@),
            Outcome::Blank => OutcomeView::Blank,
        }
    }
}

/// What becomes of the line `s` written on the day `date`.
pub open spec fn outcome_of(date: Date, s: Seq<char>) -> OutcomeView {
    match entry_at(date, s) {
        Some(e) => OutcomeView::Record(e),
        None => if s.len() == 0 {
            OutcomeView::Blank
        } else {
            OutcomeView::Unparsed(s)
        },
    }
}

/// Whether a line is reported as unparsed: it holds no entry and is not empty.
pub open spec fn is_unparsed(date: Date, s: Seq<char>) -> bool {
    s.len() > 0 && entry_at(date, s) is None
}

/// Sorts one line written on the day `date`.
pub fn classify(date: Date, line: &str) -> (r: Outcome)
    ensures
        match r {
            Outcome::Record(e) => entry_at(date, line@) == Some(e@),
            Outcome::Unparsed(t) => is_unparsed(date, line@) && t@ == line@,
            Outcome::Blank => entry_at(date, line@) is None && line@.len() == 0,
        },
        r@ == outcome_of(date, line@),
{
    match parse_entry(date, line) {
        Ok(e) => Outcome::Record(e),
        Err(_) => {
            if line.unicode_len() == 0 {
                Outcome::Blank
            } else {
                Outcome::Unparsed(String::from_str(line))
            }
        },
    }
}

/// The entries that `lines` hold, in order.
pub open spec fn records_of(date: Date, lines: Seq<Seq<char>>) -> Seq<EntryView> {
    lines.filter_map(|s: Seq<char>| entry_at(date, s))
}

/// The lines of `lines` that are reported as unparsed, in order.
pub open spec fn unparsed_of(date: Date, lines: Seq<Seq<char>>) -> Seq<Seq<char>> {
    lines.filter(|s: Seq<char>| is_unparsed(date, s))
}

/// The empty lines of `lines`.
pub open spec fn blanks_of(lines: Seq<Seq<char>>) -> Seq<Seq<char>> {
    lines.filter(|s: Seq<char>| s.len() == 0)
}

pub open spec fn entry_views(v: Seq<Entry>) -> Seq<EntryView> {
    v.map_values(|e: Entry| e@)
}

pub open spec fn string_views(v: Seq<String>) -> Seq<Seq<char>> {
    v.map_values(|t: String| t@)
}

proof fn lemma_lines_step(date: Date, lines: Seq<Seq<char>>)
    requires
        lines.len() > 0,
    ensures
        records_of(date, lines) == match entry_at(date, lines.last()) {
            Some(e) => records_of(date, lines.drop_last()).push(e),
            None => records_of(date, lines.drop_last()),
        },
        unparsed_of(date, lines) == if is_unparsed(date, lines.last()) {
            unparsed_of(date, lines.drop_last()).push(lines.last())
        } else {
            unparsed_of(date, lines.drop_last())
        },
        blanks_of(lines) == if lines.last().len() == 0 {
            blanks_of(lines.drop_last()).push(lines.last())
        } else {
            blanks_of(lines.drop_last())
        },
{
    reveal(Seq::filter);
    match entry_at(date, lines.last()) {
        Some(e) => {
            assert(records_of(date, lines) =~= records_of(date, lines.drop_last()) + seq![e]);
        },
        None => {},
    }
}

proof fn lemma_blank_holds_nothing(date: Date, s: Seq<char>)
    requires
        s.len() == 0,
    ensures
        entry_at(date, s) is None,
{
    reveal(entry_at);
}

/// Every line is sorted into exactly one of three kinds: it holds an entry,
/// it is reported as unparsed, or it is empty.
pub proof fn lemma_every_line_sorted(date: Date, lines: Seq<Seq<char>>)
    ensures
        records_of(date, lines).len() + unparsed_of(date, lines).len() + blanks_of(lines).len()
            == lines.len(),
    decreases lines.len(),
{
    if lines.len() > 0 {
        lemma_lines_step(date, lines);
        lemma_every_line_sorted(date, lines.drop_last());
        if lines.last().len() == 0 {
            lemma_blank_holds_nothing(date, lines.last());
        }
    } else {
        reveal(Seq::filter);
    }
}

/// The unparsed lines are exactly the lines that are not empty and hold no
/// entry, verbatim: an empty line is never among them.
pub proof fn lemma_unparsed_lines(date: Date, lines: Seq<Seq<char>>)
    ensures
        forall|k: int|
            0 <= k < unparsed_of(date, lines).len() ==> #[trigger] unparsed_of(date, lines)[k].len()
                > 0 && entry_at(date, unparsed_of(date, lines)[k]) is None && lines.contains(
                unparsed_of(date, lines)[k],
            ),
        forall|j: int|
            0 <= j < lines.len() && #[trigger] lines[j].len() > 0 && entry_at(date, lines[j]) is None
                ==> unparsed_of(date, lines).contains(lines[j]),
{
    broadcast use vstd::seq_lib::group_filter_ensures;

    let u = unparsed_of(date, lines);
    assert forall|k: int| 0 <= k < u.len() implies #[trigger] u[k].len() > 0 && entry_at(
        date,
        u[k],
    ) is None && lines.contains(u[k]) by {
        assert(u.contains(u[k]));
        lines.lemma_filter_contains_rev(|s: Seq<char>| is_unparsed(date, s), u[k]);
    }
}

/// Parses every line of `lines`, written on the day `date`: the entries are
/// appended to `messages` and the unparsed lines, verbatim, to `errors`, both
/// in the order of the lines. Empty lines go to neither.
pub fn parse_messages(
    lines: &Vec<String>,
    date: Date,
    messages: &mut Vec<Entry>,
    errors: &mut Vec<String>,
)
    ensures
        entry_views(final(messages)@) == entry_views(old(messages)@) + records_of(
            date,
            string_views(lines@),
        ),
        string_views(final(errors)@) == string_views(old(errors)@) + unparsed_of(
            date,
            string_views(lines@),
        ),
{
    let ghost m0 = entry_views(messages@);
    let ghost e0 = string_views(errors@);
    let ghost all = string_views(lines@);
    let mut k: usize = 0;
    assert(all.subrange(0, 0) =~= Seq::<Seq<char>>::empty());
    assert(entry_views(messages@) =~= m0 + records_of(date, all.subrange(0, 0)));
    assert(string_views(errors@) =~= e0 + unparsed_of(date, all.subrange(0, 0)));
    while k < lines.len()
        invariant
            k <= lines@.len(),
            all == string_views(lines@),
            entry_views(messages@) == m0 + records_of(date, all.subrange(0, k as int)),
            string_views(errors@) == e0 + unparsed_of(date, all.subrange(0, k as int)),
        decreases lines@.len() - k,
    {
        let ghost before = all.subrange(0, k as int);
        let ghost after = all.subrange(0, k + 1);
        let ghost ms = messages@;
        let ghost es = errors@;
        proof {
            assert(after.drop_last() =~= before);
            lemma_lines_step(date, after);
        }
        let line = lines[k].as_str();
        assert(after.last() == line@);
        match classify(date, line) {
            Outcome::Record(e) => {
                messages.push(e);
                assert(entry_views(messages@) =~= entry_views(ms).push(e@));
            },
            Outcome::Unparsed(t) => {
                errors.push(t);
                assert(string_views(errors@) =~= string_views(es).push(t@));
            },
            Outcome::Blank => {},
        }
        k = k + 1;
    }
    assert(all.subrange(0, k as int) =~= all);
}

} // verus!
