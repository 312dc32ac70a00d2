//! Points in time, and the calendar work that the `chrono` crate does.
use crate::text::{opt_view, Text};
use chrono::{NaiveDate, NaiveDateTime, NaiveTime};
use vstd::prelude::*;

verus! {

/// A point in time: whole seconds since 1970-01-01 00:00:00 UTC, and the
/// nanoseconds into that second.
#[derive(Clone, Copy, Debug, PartialEq, Eq, Structural)]
pub struct Timestamp {
    pub secs: i64,
    pub nanos: u32,
}

/// The number of seconds between the start of a day and its last second.
pub const LAST_SECOND_OF_DAY: i64 = 86_399;

impl Timestamp {
    /// Whether `self` lies strictly before `other`.
    pub open spec fn before(self, other: Timestamp) -> bool {
        self.secs < other.secs || (self.secs == other.secs && self.nanos < other.nanos)
    }

    /// Whether `self` lies strictly before `other`.
    pub fn is_before(&self, other: &Timestamp) -> (r: bool)
        ensures
            r == self.before(*other),
    {
        self.secs < other.secs || (self.secs == other.secs && self.nanos < other.nanos)
    }

    /// The start of the second `secs`.
    pub fn at(secs: i64) -> (t: Timestamp)
        ensures
            t == (Timestamp { secs, nanos: 0 }),
    {
        Timestamp { secs, nanos: 0 }
    }
}

/// What `NaiveDate::parse_from_str` reads from `value` under `format`: the
/// second at which that day starts, or `None` where it rejects the text.
pub uninterp spec fn day_read(value: Seq<char>, format: Seq<char>) -> Option<int>;

/// What `NaiveDateTime::parse_from_str` reads from `value` under `format`: the
/// second and the nanoseconds into it, or `None` where it rejects the text.
pub uninterp spec fn moment_read(value: Seq<char>, format: Seq<char>) -> Option<(int, int)>;

/// What `NaiveDateTime::format` writes for a point in time under `format`, or
/// `None` where the point lies outside the calendar or the format is refused.
pub uninterp spec fn moment_written(secs: int, nanos: int, format: Seq<char>) -> Option<Seq<char>>;

/// What the `Display` of `NaiveDateTime` writes for a point in time, or `None`
/// where the point lies outside the calendar.
pub uninterp spec fn moment_shown(secs: int, nanos: int) -> Option<Seq<char>>;

/// Calls `NaiveDate::parse_from_str`. The contract names its result: the start
/// of the day that was read, counted in seconds since the epoch.
#[verifier::external_body]
pub(crate) fn read_day(value: &str, format: &str) -> (r: Option<i64>)
    ensures
        match r {
            Some(s) => day_read(value@, format@) == Some(s as int),
            None => day_read(value@, format@) is None,
        },
{
    let day = NaiveDate::parse_from_str(value, format).ok()?;
    Some(day.and_time(NaiveTime::MIN).and_utc().timestamp())
}

/// Calls `NaiveDateTime::parse_from_str`. The contract names its result: the
/// point in time that was read.
#[verifier::external_body]
pub(crate) fn read_moment(value: &str, format: &str) -> (r: Option<Timestamp>)
    ensures
        match r {
            Some(t) => moment_read(value@, format@) == Some((t.secs as int, t.nanos as int)),
            None => moment_read(value@, format@) is None,
        },
{
    let moment = NaiveDateTime::parse_from_str(value, format).ok()?.and_utc();
    Some(Timestamp { secs: moment.timestamp(), nanos: moment.timestamp_subsec_nanos() })
}

/// Calls `NaiveDateTime::format` and writes the result out. The contract
/// names what was written.
#[verifier::external_body]
pub(crate) fn write_moment(t: &Timestamp, format: &str) -> (r: Option<String>)
    ensures
        opt_view(r) == moment_written(t.secs as int, t.nanos as int, format@),
{
    let moment = chrono::DateTime::from_timestamp(t.secs, t.nanos)?.naive_utc();
    let mut out = String::new();
    moment.format(format).write_to(&mut out).ok()?;
    Some(out)
}

/// Calls the `Display` of `NaiveDateTime`. The contract names what it shows.
#[verifier::external_body]
pub(crate) fn show_moment(t: &Timestamp) -> (r: Option<String>)
    ensures
        opt_view(r) == moment_shown(t.secs as int, t.nanos as int),
{
    let moment = chrono::DateTime::from_timestamp(t.secs, t.nanos)?.naive_utc();
    Some(moment.to_string())
}

/// The start of the day that `value` names as `YYYYMMDD`.
pub open spec fn day_start(value: Text) -> Option<Timestamp> {
    match day_read(value, "%Y%m%d"@) {
        Some(s) => if i64::MIN <= s <= i64::MAX {
            Some(Timestamp { secs: s as i64, nanos: 0 })
        } else {
            None
        },
        None => None,
    }
}

/// The last second of the day that `value` names as `YYYYMMDD`.
pub open spec fn day_end(value: Text) -> Option<Timestamp> {
    match day_read(value, "%Y%m%d"@) {
        Some(s) => if i64::MIN <= s && s + LAST_SECOND_OF_DAY <= i64::MAX {
            Some(Timestamp { secs: (s + LAST_SECOND_OF_DAY) as i64, nanos: 0 })
        } else {
            None
        },
        None => None,
    }
}

/// The point in time that `value` names as `YYYYMMDDHHMMSS`.
pub open spec fn second_named(value: Text) -> Option<Timestamp> {
    match moment_read(value, "%Y%m%d%H%M%S"@) {
        Some((s, n)) => if i64::MIN <= s <= i64::MAX && 0 <= n <= u32::MAX {
            Some(Timestamp { secs: s as i64, nanos: n as u32 })
        } else {
            None
        },
        None => None,
    }
}

/// The start of the day that `value` names as `YYYYMMDD`, if it names one.
pub fn parse_day_start(value: &str) -> (r: Option<Timestamp>)
    ensures
        r == day_start(value@),
{
    match read_day(value, "%Y%m%d") {
        Some(s) => Some(Timestamp { secs: s, nanos: 0 }),
        None => None,
    }
}

/// The last second of the day that `value` names as `YYYYMMDD`, if it names
/// one.
pub fn parse_day_end(value: &str) -> (r: Option<Timestamp>)
    ensures
        r == day_end(value@),
{
    match read_day(value, "%Y%m%d") {
        Some(s) => match s.checked_add(LAST_SECOND_OF_DAY) {
            Some(e) => Some(Timestamp { secs: e, nanos: 0 }),
            None => None,
        },
        None => None,
    }
}

/// The point in time that `value` names as `YYYYMMDDHHMMSS`, if it names one.
pub fn parse_second(value: &str) -> (r: Option<Timestamp>)
    ensures
        r == second_named(value@),
{
    read_moment(value, "%Y%m%d%H%M%S")
}

} // verus!
