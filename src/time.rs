use vstd::prelude::*;

use chrono::{Datelike, Local, TimeZone};

verus! {

/// Earliest instant a `Timestamp` may hold, in seconds since the Unix epoch
/// (about 95 000 years before it, well inside chrono's range).
pub const MIN_SECS: i64 = -3_000_000_000_000;

/// Latest instant a `Timestamp` may hold, in seconds since the Unix epoch.
pub const MAX_SECS: i64 = 3_000_000_000_000;

/// Offsets from UTC lie strictly between minus and plus one day.
pub const OFFSET_LIMIT: i32 = 86_400;

/// An instant, in whole seconds since the Unix epoch, with the fixed UTC offset
/// (in seconds east of UTC) it is displayed in.
#[derive(Clone, Copy, Debug, PartialEq, Eq, Structural)]
pub struct Timestamp {
    pub secs: i64,
    pub offset: i32,
}

pub open spec fn secs_in_range(secs: int) -> bool {
    MIN_SECS <= secs <= MAX_SECS
}

pub open spec fn offset_in_range(offset: int) -> bool {
    -OFFSET_LIMIT < offset < OFFSET_LIMIT
}

impl Timestamp {
    pub open spec fn wf(self) -> bool {
        secs_in_range(self.secs as int) && offset_in_range(self.offset as int)
    }

    /// The timestamp for `secs` shown at `offset`, if both are in range.
    pub fn new(secs: i64, offset: i32) -> (r: Option<Timestamp>)
        ensures
            r is Some <==> secs_in_range(secs as int) && offset_in_range(offset as int),
            r matches Some(t) ==> t.secs == secs && t.offset == offset && t.wf(),
    {
        if MIN_SECS <= secs && secs <= MAX_SECS && -OFFSET_LIMIT < offset && offset < OFFSET_LIMIT {
            Some(Timestamp { secs, offset })
        } else {
            None
        }
    }

    /// Seconds since the Unix epoch.
    pub fn timestamp(&self) -> (r: i64)
        ensures
            r == self.secs,
    {
        self.secs
    }
}

/// A calendar day as written by the user; whether it exists is for the
/// calendar to say.
#[derive(Clone, Copy, Debug, PartialEq, Eq, Structural)]
pub struct CalDate {
    pub year: i32,
    pub month: u32,
    pub day: u32,
}

/// The local clock read once: the instant and the local calendar day it falls on.
#[derive(Clone, Copy, Debug, PartialEq, Eq, Structural)]
pub struct LocalNow {
    pub stamp: Timestamp,
    pub date: CalDate,
}

/// The instant that stands for "the beginning of time": 1970-01-01T00:00:00Z.
pub fn get_start_date() -> (r: Timestamp)
    ensures
        r.secs == 0,
        r.offset == 0,
        r.wf(),
{
    Timestamp { secs: 0, offset: 0 }
}

/// Length of the interval from `start` to `end` in whole seconds.
pub fn get_length_secs(start: &Timestamp, end: &Timestamp) -> (r: i64)
    requires
        start.wf(),
        end.wf(),
    ensures
        r == end.secs - start.secs,
{
    end.secs - start.secs
}

/// What chrono's `DateTime::to_rfc3339` writes for `secs` shown at `offset`.
pub uninterp spec fn rfc3339_text(secs: int, offset: int) -> Seq<char>;

/// What chrono's `DateTime::parse_from_rfc3339` reads from a text: seconds and offset.
pub uninterp spec fn rfc3339_value(s: Seq<char>) -> Option<(i64, i32)>;

/// What chrono's `format("%Y-%m-%d %H:%M:%S")` writes for `secs` shown at `offset`.
pub uninterp spec fn readable_text(secs: int, offset: int) -> Seq<char>;

/// Relies on chrono's `FixedOffset::east_opt`, `TimeZone::timestamp_opt` and
/// `DateTime::to_rfc3339`: both conversions succeed on in-range values, and
/// the text depends on the seconds and the offset alone.
#[verifier::external_body]
fn write_rfc3339(secs: i64, offset: i32) -> (r: String)
    requires
        secs_in_range(secs as int),
        offset_in_range(offset as int),
    ensures
        r@ == rfc3339_text(secs as int, offset as int),
{
    let off = chrono::FixedOffset::east_opt(offset).unwrap();
    off.timestamp_opt(secs, 0).unwrap().to_rfc3339()
}

/// Relies on chrono's `DateTime::parse_from_rfc3339`: the result depends on the
/// text alone, and a parsed offset is a valid `FixedOffset` (under a day).
#[verifier::external_body]
fn read_rfc3339(s: &str) -> (r: Option<(i64, i32)>)
    ensures
        r == rfc3339_value(s@),
        r matches Some(v) ==> offset_in_range(v.1 as int),
{
    match chrono::DateTime::parse_from_rfc3339(s) {
        Ok(t) => Some((t.timestamp(), t.offset().local_minus_utc())),
        Err(_) => None,
    }
}

/// Relies on chrono's `FixedOffset::east_opt`, `TimeZone::timestamp_opt` and
/// `DateTime::format`: the text depends on the seconds and the offset alone.
#[verifier::external_body]
fn write_readable(secs: i64, offset: i32) -> (r: String)
    requires
        secs_in_range(secs as int),
        offset_in_range(offset as int),
    ensures
        r@ == readable_text(secs as int, offset as int),
{
    let off = chrono::FixedOffset::east_opt(offset).unwrap();
    off.timestamp_opt(secs, 0).unwrap().format("%Y-%m-%d %H:%M:%S").to_string()
}

/// Relies on chrono's `Local::now`: the instant, its offset and its local
/// calendar day; a chrono offset is always under a day.
#[verifier::external_body]
fn read_local_clock() -> (r: (i64, i32, i32, u32, u32))
    ensures
        offset_in_range(r.1 as int),
{
    let now = Local::now();
    (now.timestamp(), now.offset().local_minus_utc(), now.year(), now.month(), now.day())
}

/// Relies on chrono's `TimeZone::with_ymd_and_hms` on `Local` and
/// `MappedLocalTime::earliest`: local midnight of a day, if that day exists and
/// its midnight occurs in the local time zone. Nothing is promised of which
/// instant that is: it depends on the machine's time zone.
#[verifier::external_body]
fn read_local_midnight(year: i32, month: u32, day: u32) -> (r: Option<(i64, i32)>)
    ensures
        r matches Some(v) ==> offset_in_range(v.1 as int),
{
    match Local.with_ymd_and_hms(year, month, day, 0, 0, 0).earliest() {
        Some(t) => Some((t.timestamp(), t.offset().local_minus_utc())),
        None => None,
    }
}

/// RFC 3339 text of a timestamp, such as `2021-12-01T09:30:00+01:00`.
pub fn format_datetime(time: &Timestamp) -> (r: String)
    requires
        time.wf(),
    ensures
        r@ == rfc3339_text(time.secs as int, time.offset as int),
{
    write_rfc3339(time.secs, time.offset)
}

/// The timestamp an RFC 3339 text denotes, or `None` where the text is not
/// RFC 3339 or the instant lies out of range.
pub fn datetime_from_str(time: &str) -> (r: Option<Timestamp>)
    ensures
        r is Some <==> (rfc3339_value(time@) matches Some(v) && secs_in_range(v.0 as int)),
        r matches Some(t) ==> rfc3339_value(time@) == Some((t.secs, t.offset)) && t.wf(),
{
    match read_rfc3339(time) {
        Some(v) => Timestamp::new(v.0, v.1),
        None => None,
    }
}

/// `YYYY-MM-DD HH:MM:SS` text of a timestamp, in its own offset.
pub fn datetime_to_readable_str(date: &Timestamp) -> (r: String)
    requires
        date.wf(),
    ensures
        r@ == readable_text(date.secs as int, date.offset as int),
{
    write_readable(date.secs, date.offset)
}

/// The local clock, or `None` where it reads an instant out of range.
pub fn local_now() -> (r: Option<LocalNow>)
    ensures
        r matches Some(n) ==> n.stamp.wf(),
{
    let (secs, offset, year, month, day) = read_local_clock();
    match Timestamp::new(secs, offset) {
        Some(stamp) => Some(LocalNow { stamp, date: CalDate { year, month, day } }),
        None => None,
    }
}

/// Local midnight at the start of `date`, or `None` where that day has none
/// (no such day, a time-zone gap, or out of range).
pub fn local_midnight(date: &CalDate) -> (r: Option<Timestamp>)
    ensures
        r matches Some(t) ==> t.wf(),
{
    match read_local_midnight(date.year, date.month, date.day) {
        Some(v) => Timestamp::new(v.0, v.1),
        None => None,
    }
}

} // verus!
