//! Calendar timestamps and their display form `dd/mm/YYYY HH:MM:SS`.
use chrono::{Datelike, Timelike};
use vstd::prelude::*;

use crate::text::{
    decimal_digits, push_four_digits, push_two_digits, zero_padded,
};

verus! {

/// A UTC date and time of day, to the second.
#[derive(Clone, Copy, Debug, PartialEq, Eq, Structural)]
pub struct Timestamp {
    pub year: i32,
    pub month: u32,
    pub day: u32,
    pub hour: u32,
    pub minute: u32,
    pub second: u32,
}

impl Timestamp {
    /// Fields within their calendar ranges.
    pub open spec fn is_valid(&self) -> bool {
        &&& 1 <= self.month <= 12
        &&& 1 <= self.day <= 31
        &&& self.hour < 24
        &&& self.minute < 60
        &&& self.second < 60
    }

    /// The fields as plain integers, year first.
    pub open spec fn fields(&self) -> (int, int, int, int, int, int) {
        (
            self.year as int,
            self.month as int,
            self.day as int,
            self.hour as int,
            self.minute as int,
            self.second as int,
        )
    }
}

/// What an RFC 3339 date-time text denotes once brought to UTC, as
/// `(year, month, day, hour, minute, second)`; `None` where the text is not
/// RFC 3339.
pub uninterp spec fn rfc3339_in_utc(s: Seq<char>) -> Option<(int, int, int, int, int, int)>;

/// Relies on chrono's `DateTime::parse_from_rfc3339`, read back in UTC with
/// `with_timezone(&Utc)` and the `Datelike`/`Timelike` accessors: the outcome
/// depends on the text alone, and those accessors document a month in 1..=12,
/// a day in 1..=31, an hour in 0..=23 and a minute and second in 0..=59.
#[verifier::external_body]
fn parse_rfc3339_utc(s: &str) -> (r: Option<Timestamp>)
    ensures
        r matches Some(t) ==> t.is_valid(),
        rfc3339_in_utc(s@) == match r {
            Some(t) => Some(t.fields()),
            None => None,
        },
{
    let u = chrono::DateTime::parse_from_rfc3339(s).ok()?.with_timezone(&chrono::Utc);
    let (year, month, day) = (u.year(), u.month(), u.day());
    let (hour, minute, second) = (u.hour(), u.minute(), u.second());
    Some(Timestamp { year, month, day, hour, minute, second })
}

/// The year as at least four zero-padded digits; outside 0..=9999 with a
/// leading sign.
pub open spec fn year_text(y: int) -> Seq<char> {
    if 0 <= y <= 9999 {
        zero_padded(decimal_digits(y as nat), 4)
    } else if y < 0 {
        seq!['-'] + zero_padded(decimal_digits((-y) as nat), 4)
    } else {
        seq!['+'] + zero_padded(decimal_digits(y as nat), 4)
    }
}

pub open spec fn two_digits(n: int) -> Seq<char> {
    zero_padded(decimal_digits(n as nat), 2)
}

/// The display form `dd/mm/YYYY HH:MM:SS`.
pub open spec fn display_text(t: Timestamp) -> Seq<char> {
    two_digits(t.day as int) + seq!['/'] + two_digits(t.month as int) + seq!['/'] + year_text(
        t.year as int,
    ) + seq![' '] + two_digits(t.hour as int) + seq![':'] + two_digits(t.minute as int) + seq![
        ':',
    ] + two_digits(t.second as int)
}

fn push_year(s: &mut String, y: i32)
    ensures
        final(s)@ == old(s)@ + year_text(y as int),
{
    proof {
        reveal_strlit("-");
        reveal_strlit("+");
    }
    if 0 <= y && y <= 9999 {
        push_four_digits(s, y as u64);
    } else if y < 0 {
        s.append("-");
        push_four_digits(s, (0i64 - y as i64) as u64);
        assert(s@ =~= old(s)@ + year_text(y as int));
    } else {
        s.append("+");
        push_four_digits(s, y as u64);
        assert(s@ =~= old(s)@ + year_text(y as int));
    }
}

/// Formats a timestamp as `dd/mm/YYYY HH:MM:SS`.
pub fn get_formatted_date(t: &Timestamp) -> (r: String)
    ensures
        r@ == display_text(*t),
{
    proof {
        reveal_strlit("/");
        reveal_strlit(" ");
        reveal_strlit(":");
    }
    let mut s = String::new();
    push_two_digits(&mut s, t.day as u64);
    s.append("/");
    push_two_digits(&mut s, t.month as u64);
    s.append("/");
    push_year(&mut s, t.year);
    s.append(" ");
    push_two_digits(&mut s, t.hour as u64);
    s.append(":");
    push_two_digits(&mut s, t.minute as u64);
    s.append(":");
    push_two_digits(&mut s, t.second as u64);
    assert(s@ =~= display_text(*t));
    s
}

/// The display text of a parsed timestamp, or of `now` where there was none.
pub fn display_timestamp(parsed: &Option<Timestamp>, now: &Timestamp) -> (r: String)
    ensures
        r@ == match *parsed {
            Some(t) => display_text(t),
            None => display_text(*now),
        },
{
    match parsed {
        Some(t) => get_formatted_date(t),
        None => get_formatted_date(now),
    }
}

/// The display text of an RFC 3339 timestamp in UTC, or of `now` where `s`
/// is not RFC 3339.
pub fn format_rfc3339(s: &str, now: &Timestamp) -> (r: String)
    ensures
        match rfc3339_in_utc(s@) {
            Some(f) => exists|t: Timestamp| t.fields() == f && r@ == display_text(t),
            None => r@ == display_text(*now),
        },
{
    let parsed = parse_rfc3339_utc(s);
    display_timestamp(&parsed, now)
}

} // verus!
