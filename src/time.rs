//! Calendar dates, times of day, and the timestamps that combine them.
use vstd::prelude::*;

verus! {

pub open spec fn is_leap_year(y: int) -> bool {
    (y % 4 == 0 && y % 100 != 0) || y % 400 == 0
}

pub open spec fn days_in_month(y: int, m: int) -> int {
    if m == 2 {
        if is_leap_year(y) {
            29
        } else {
            28
        }
    } else if m == 4 || m == 6 || m == 9 || m == 11 {
        30
    } else {
        31
    }
}

/// A day of the proleptic Gregorian calendar.
#[derive(Clone, Copy, PartialEq, Eq, Structural, Debug)]
pub struct Date {
    pub year: i32,
    pub month: u32,
    pub day: u32,
}

/// A time of day to the millisecond. A leap second is written as second 59
/// with 1000 to 1999 milliseconds.
#[derive(Clone, Copy, PartialEq, Eq, Structural, Debug)]
pub struct Time {
    pub hour: u32,
    pub minute: u32,
    pub second: u32,
    pub milli: u32,
}

/// A date and a time of day.
#[derive(Clone, Copy, PartialEq, Eq, Structural, Debug)]
pub struct Timestamp {
    pub date: Date,
    pub time: Time,
}

pub open spec fn valid_date(y: int, m: int, d: int) -> bool {
    1 <= m <= 12 && 1 <= d <= days_in_month(y, m)
}

pub open spec fn valid_time(h: int, m: int, s: int, ms: int) -> bool {
    &&& 0 <= h < 24
    &&& 0 <= m < 60
    &&& 0 <= s < 60
    &&& 0 <= ms
    &&& (ms < 1000 || (s == 59 && ms < 2000))
}

impl Date {
    pub open spec fn wf(self) -> bool {
        valid_date(self.year as int, self.month as int, self.day as int)
    }

    /// The date `year-month-day`, where that day exists.
    pub fn new(year: i32, month: u32, day: u32) -> (r: Option<Date>)
        ensures
            r is Some <==> valid_date(year as int, month as int, day as int),
            r matches Some(d) ==> d == (Date { year, month, day }),
    {
        if month < 1 || month > 12 || day < 1 {
            return None;
        }
        let leap = (year % 4 == 0 && year % 100 != 0) || year % 400 == 0;
        let days: u32 = if month == 2 {
            if leap {
                29
            } else {
                28
            }
        } else if month == 4 || month == 6 || month == 9 || month == 11 {
            30
        } else {
            31
        };
        if day > days {
            None
        } else {
            Some(Date { year, month, day })
        }
    }
}

impl Time {
    pub open spec fn wf(self) -> bool {
        valid_time(self.hour as int, self.minute as int, self.second as int, self.milli as int)
    }

    /// The time `hour:minute:second.milli`, where it is a time of day.
    pub fn new(hour: u32, minute: u32, second: u32, milli: u32) -> (r: Option<Time>)
        ensures
            r is Some <==> valid_time(hour as int, minute as int, second as int, milli as int),
            r matches Some(t) ==> t == (Time { hour, minute, second, milli }),
    {
        if hour < 24 && minute < 60 && second < 60 && (milli < 1000 || (second == 59 && milli
            < 2000)) {
            Some(Time { hour, minute, second, milli })
        } else {
            None
        }
    }
}

impl Timestamp {
    pub open spec fn wf(self) -> bool {
        self.date.wf() && self.time.wf()
    }

    /// The time `time` on the day `date`.
    pub fn at(date: Date, time: Time) -> (r: Timestamp)
        ensures
            r.date == date,
            r.time == time,
    {
        Timestamp { date, time }
    }
}

} // verus!
