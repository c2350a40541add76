//! Splitting a timestamped log line into its timestamp and its text.
use vstd::prelude::*;

use crate::text::{find_char, index_of};
use crate::timestamp::{display_text, format_rfc3339, rfc3339_in_utc, Timestamp};

verus! {

/// The parts before and after the first space, where there is one.
pub open spec fn split_at_space(s: Seq<char>) -> Option<(Seq<char>, Seq<char>)> {
    let k = index_of(s, ' ') as int;
    if k < s.len() {
        Some((s.take(k), s.skip(k + 1)))
    } else {
        None
    }
}

/// Splits `line` at its first space. `None` where it holds no space.
pub fn split_log_line(line: &str) -> (r: Option<(String, String)>)
    ensures
        match (r, split_at_space(line@)) {
            (Some((a, b)), Some((x, y))) => a@ == x && b@ == y,
            (None, None) => true,
            _ => false,
        },
{
    let n = line.unicode_len();
    let i = find_char(line, ' ');
    if i < n {
        let head = String::from_str(line.substring_char(0, i));
        let tail = String::from_str(line.substring_char(i + 1, n));
        Some((head, tail))
    } else {
        None
    }
}

/// A log line taken apart: display timestamp and text.
pub struct LogLine {
    pub timestamp: String,
    pub text: String,
}

/// The display timestamp of a line: empty without a space; otherwise that
/// of the leading token read as RFC 3339, or of `now` where it is not.
pub open spec fn line_timestamp_is(line: Seq<char>, now: Timestamp, ts: Seq<char>) -> bool {
    match split_at_space(line) {
        None => ts == Seq::<char>::empty(),
        Some((head, _)) => match rfc3339_in_utc(head) {
            Some(f) => exists|t: Timestamp| t.fields() == f && ts == display_text(t),
            None => ts == display_text(now),
        },
    }
}

/// The text of a line: all of it without a space, else what follows the
/// first space.
pub open spec fn line_text(line: Seq<char>) -> Seq<char> {
    match split_at_space(line) {
        None => line,
        Some((_, tail)) => tail,
    }
}

/// Takes a timestamped log line apart.
pub fn parse_log_line(line: &str, now: &Timestamp) -> (r: LogLine)
    ensures
        r.text@ == line_text(line@),
        line_timestamp_is(line@, *now, r.timestamp@),
{
    match split_log_line(line) {
        None => LogLine { timestamp: String::new(), text: String::from_str(line) },
        Some((head, tail)) => {
            let ts = format_rfc3339(head.as_str(), now);
            LogLine { timestamp: ts, text: tail }
        },
    }
}

} // verus!
