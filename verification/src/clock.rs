//! Times of day and calendar dates.
//!
//! Both are read from text by `chrono`; the values themselves are held here as
//! plain numbers.

use vstd::prelude::*;
use chrono::{Datelike, NaiveDateTime, NaiveTime, Timelike};
use crate::text::{
    bare_token, fixed_digits, is_decoration, is_digit, lemma_bare_token_plain, lemma_fixed_digits,
    nat_text, push_fixed, push_nat, strip_decoration,
};

verus! {

/// A time of day: `secs` whole seconds since midnight and `nanos` nanoseconds
/// into that second. A leap second is the second 59 of a minute with a
/// thousand million nanoseconds added.
#[derive(Clone, Copy, Debug, PartialEq, Eq, Structural)]
pub struct TimeOfDay {
    pub secs: u32,
    pub nanos: u32,
}

/// A date of the calendar.
#[derive(Clone, Copy, Debug, PartialEq, Eq, Structural)]
pub struct CalendarDate {
    pub year: i32,
    pub month: u32,
    pub day: u32,
}

/// What `chrono` reads from a text as a time in the format `%H:%M:%S%.3f`:
/// seconds since midnight and nanoseconds, or nothing.
pub uninterp spec fn naive_time_of(text: Seq<char>) -> Option<(u32, u32)>;

/// What `chrono` reads from a text as the date of a date and time in the
/// format `%Y-%m-%dT%H:%M:%S`: year, month and day, or nothing.
pub uninterp spec fn naive_date_of(text: Seq<char>) -> Option<(i32, u32, u32)>;

/// A time as text: hours, minutes and seconds of two digits each, and the
/// milliseconds, of three digits, where there are any. A leap second reads 60.
pub open spec fn clock_text(t: TimeOfDay) -> Seq<char> {
    let leap: nat = if t.nanos >= 1_000_000_000 {
        1
    } else {
        0
    };
    let millis = (t.nanos as nat % 1_000_000_000) / 1_000_000;
    let hms = fixed_digits(t.secs as nat / 3600, 2) + seq![':'] + fixed_digits(
        t.secs as nat / 60 % 60,
        2,
    ) + seq![':'] + fixed_digits(t.secs as nat % 60 + leap, 2);
    if millis == 0 {
        hms
    } else {
        hms + seq!['.'] + fixed_digits(millis, 3)
    }
}

/// A date as text: year, month and day. A year of the first ten thousand is
/// written with four digits, any other with its sign and at least four.
pub open spec fn date_text(d: CalendarDate) -> Seq<char> {
    let year = if 0 <= d.year <= 9999 {
        fixed_digits(d.year as nat, 4)
    } else {
        let sign = if d.year < 0 {
            '-'
        } else {
            '+'
        };
        let size = if d.year < 0 {
            (-d.year) as nat
        } else {
            d.year as nat
        };
        if size < 10000 {
            seq![sign] + fixed_digits(size, 4)
        } else {
            seq![sign] + nat_text(size)
        }
    };
    year + seq!['-'] + fixed_digits(d.month as nat, 2) + seq!['-'] + fixed_digits(d.day as nat, 2)
}

/// The time that a field value denotes: the value without its decoration is
/// read as a time, and where nothing is left of it, midnight is read.
pub open spec fn time_of_text(text: Seq<char>) -> Option<TimeOfDay> {
    let token = bare_token(text);
    let reading = naive_time_of(
        if token.len() == 0 {
            "00:00:00"@
        } else {
            token
        },
    );
    match reading {
        Some((secs, nanos)) => Some(TimeOfDay { secs, nanos }),
        None => None,
    }
}

/// The date that a field value denotes: the date of the date and time that is
/// read from it.
pub open spec fn date_of_text(text: Seq<char>) -> Option<CalendarDate> {
    match naive_date_of(text) {
        Some((year, month, day)) => Some(CalendarDate { year, month, day }),
        None => None,
    }
}

/// `chrono::NaiveTime::parse_from_str` with the format `%H:%M:%S%.3f`, the
/// time it returns taken apart by `num_seconds_from_midnight` and
/// `nanosecond`. Believed of it: the same text always reads the same; a time
/// that it returns is within a day, counts whole milliseconds, and has a leap
/// second only in second 59; and a time written as `clock_text` writes it
/// reads as that time.
#[verifier::external_body]
fn read_naive_time(text: &str) -> (r: Option<(u32, u32)>)
    ensures
        r == naive_time_of(text@),
        r matches Some((secs, nanos)) ==> (TimeOfDay { secs, nanos }).wf(),
        forall|t: TimeOfDay| t.wf() && text@ == #[trigger] clock_text(t) ==> r == Some((t.secs, t.nanos)),
{
    match NaiveTime::parse_from_str(text, "%H:%M:%S%.3f") {
        Ok(t) => Some((t.num_seconds_from_midnight(), t.nanosecond())),
        Err(_) => None,
    }
}

/// `chrono::NaiveDateTime::parse_from_str` with the format
/// `%Y-%m-%dT%H:%M:%S`, the date of what it returns taken apart by `year`,
/// `month` and `day`. Believed of it: the same text always reads the same, and
/// the month and the day that it returns are in the range of a calendar's.
#[verifier::external_body]
fn read_naive_date(text: &str) -> (r: Option<(i32, u32, u32)>)
    ensures
        r == naive_date_of(text@),
        r matches Some((year, month, day)) ==> (CalendarDate { year, month, day }).wf(),
{
    match NaiveDateTime::parse_from_str(text, "%Y-%m-%dT%H:%M:%S") {
        Ok(t) => Some((t.date().year(), t.date().month(), t.date().day())),
        Err(_) => None,
    }
}

impl TimeOfDay {
    /// Within a day, whole milliseconds, and a leap second only where a minute ends.
    pub open spec fn wf(&self) -> bool {
        &&& self.secs < 86_400
        &&& self.nanos < 2_000_000_000
        &&& self.nanos % 1_000_000 == 0
        &&& self.nanos >= 1_000_000_000 ==> self.secs % 60 == 59
    }

    /// The start of the day.
    pub fn midnight() -> (t: TimeOfDay)
        ensures
            t == (TimeOfDay { secs: 0, nanos: 0 }),
            t.wf(),
    {
        TimeOfDay { secs: 0, nanos: 0 }
    }

    /// Reads a time from a field value, decoration and all. A time written by
    /// `to_text` reads as itself.
    pub fn parse(text: &str) -> (r: Option<TimeOfDay>)
        ensures
            r == time_of_text(text@),
            r matches Some(t) ==> t.wf(),
            forall|t: TimeOfDay| t.wf() && text@ == #[trigger] clock_text(t) ==> r == Some(t),
    {
        let token = strip_decoration(text);
        let reading = if token.as_str().is_empty() {
            read_naive_time("00:00:00")
        } else {
            read_naive_time(token.as_str())
        };
        proof {
            assert forall|t: TimeOfDay| t.wf() && text@ == #[trigger] clock_text(t) implies reading
                == Some((t.secs, t.nanos)) by {
                lemma_clock_text_plain(t);
                lemma_bare_token_plain(text@);
            }
        }
        match reading {
            Some((secs, nanos)) => Some(TimeOfDay { secs, nanos }),
            None => None,
        }
    }

    /// Writes the time as text.
    pub fn to_text(&self) -> (s: String)
        ensures
            s@ == clock_text(*self),
    {
        let leap: u32 = if self.nanos >= 1_000_000_000 {
            1
        } else {
            0
        };
        let millis = (self.nanos % 1_000_000_000) / 1_000_000;
        let mut s = String::new();
        push_fixed(&mut s, (self.secs / 3600) as u64, 2);
        s.push(':');
        push_fixed(&mut s, (self.secs / 60 % 60) as u64, 2);
        s.push(':');
        push_fixed(&mut s, (self.secs % 60 + leap) as u64, 2);
        let ghost hms = fixed_digits(self.secs as nat / 3600, 2) + seq![':'] + fixed_digits(
            self.secs as nat / 60 % 60,
            2,
        ) + seq![':'] + fixed_digits(self.secs as nat % 60 + leap as nat, 2);
        assert(s@ =~= hms);
        if millis != 0 {
            s.push('.');
            push_fixed(&mut s, millis as u64, 3);
            assert(s@ =~= hms + seq!['.'] + fixed_digits(millis as nat, 3));
        }
        s
    }
}

/// A time as text holds digits, colons and a point, and no decoration.
pub proof fn lemma_clock_text_plain(t: TimeOfDay)
    ensures
        clock_text(t).len() >= 8,
        forall|i: int| 0 <= i < clock_text(t).len() ==> !is_decoration(#[trigger] clock_text(t)[i]),
{
    let leap: nat = if t.nanos >= 1_000_000_000 {
        1
    } else {
        0
    };
    let millis = (t.nanos as nat % 1_000_000_000) / 1_000_000;
    lemma_fixed_plain(t.secs as nat / 3600, 2);
    lemma_fixed_plain(t.secs as nat / 60 % 60, 2);
    lemma_fixed_plain(t.secs as nat % 60 + leap, 2);
    lemma_fixed_plain(millis, 3);
}

proof fn lemma_fixed_plain(n: nat, width: nat)
    ensures
        fixed_digits(n, width).len() == width,
        forall|i: int| 0 <= i < width ==> !is_decoration(#[trigger] fixed_digits(n, width)[i]),
{
    lemma_fixed_digits(n, width);
    assert forall|i: int| 0 <= i < width implies !is_decoration(
        #[trigger] fixed_digits(n, width)[i],
    ) by {
        assert(is_digit(fixed_digits(n, width)[i]));
    }
}

impl CalendarDate {
    /// The month and the day are in the range of a calendar's.
    pub open spec fn wf(&self) -> bool {
        1 <= self.month <= 12 && 1 <= self.day <= 31
    }

    /// The first day of 1970.
    pub fn epoch() -> (d: CalendarDate)
        ensures
            d == (CalendarDate { year: 1970, month: 1, day: 1 }),
            d.wf(),
    {
        CalendarDate { year: 1970, month: 1, day: 1 }
    }

    /// Reads the date of a date and time.
    pub fn parse(text: &str) -> (r: Option<CalendarDate>)
        ensures
            r == date_of_text(text@),
            r matches Some(d) ==> d.wf(),
    {
        match read_naive_date(text) {
            Some((year, month, day)) => Some(CalendarDate { year, month, day }),
            None => None,
        }
    }

    /// Writes the date as text.
    pub fn to_text(&self) -> (s: String)
        ensures
            s@ == date_text(*self),
    {
        let mut s = String::new();
        if 0 <= self.year && self.year <= 9999 {
            push_fixed(&mut s, self.year as u64, 4);
        } else {
            let size: u64 = if self.year < 0 {
                s.push('-');
                (0 - self.year as i64) as u64
            } else {
                s.push('+');
                self.year as u64
            };
            if size < 10000 {
                push_fixed(&mut s, size, 4);
            } else {
                push_nat(&mut s, size);
            }
        }
        let ghost year = s@;
        s.push('-');
        push_fixed(&mut s, self.month as u64, 2);
        s.push('-');
        push_fixed(&mut s, self.day as u64, 2);
        assert(s@ =~= year + seq!['-'] + fixed_digits(self.month as nat, 2) + seq!['-']
            + fixed_digits(self.day as nat, 2));
        s
    }
}

} // verus!
