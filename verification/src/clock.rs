//! Calendar dates, times of day and instants, with the calls into chrono
//! and chrono-tz that convert between them.
use chrono::{Datelike, NaiveDate, NaiveDateTime, NaiveTime, TimeZone, Timelike, Utc};
use chrono_tz::Europe::Berlin;
use vstd::prelude::*;

verus! {

/// A calendar date in the proleptic Gregorian calendar.
#[derive(Clone, Copy, Debug, PartialEq, Eq)]
pub struct CivilDate {
    pub year: i32,
    pub month: u32,
    pub day: u32,
}

/// A wall-clock time of day.
#[derive(Clone, Copy, Debug, PartialEq, Eq)]
pub struct TimeOfDay {
    pub hour: u32,
    pub minute: u32,
    pub second: u32,
}

pub open spec fn is_leap_year(y: int) -> bool {
    (y % 4 == 0 && y % 100 != 0) || y % 400 == 0
}

pub open spec fn days_in_month(y: int, m: int) -> int {
    if m == 2 {
        if is_leap_year(y) {
            29
        } else {
            28
        }
    } else if m == 4 || m == 6 || m == 9 || m == 11 {
        30
    } else {
        31
    }
}

/// The dates that chrono's `NaiveDate` can hold: years -262143 to 262142,
/// months 1 to 12, and days that exist in that month.
pub open spec fn valid_date(y: int, m: int, d: int) -> bool {
    &&& -262143 <= y <= 262142
    &&& 1 <= m <= 12
    &&& 1 <= d <= days_in_month(y, m)
}

pub open spec fn valid_time(h: int, mi: int, s: int) -> bool {
    0 <= h < 24 && 0 <= mi < 60 && 0 <= s < 60
}

impl CivilDate {
    pub open spec fn wf(&self) -> bool {
        valid_date(self.year as int, self.month as int, self.day as int)
    }

    pub fn year(&self) -> (r: i32)
        ensures
            r == self.year,
    {
        self.year
    }

    pub fn month(&self) -> (r: u32)
        ensures
            r == self.month,
    {
        self.month
    }

    pub fn day(&self) -> (r: u32)
        ensures
            r == self.day,
    {
        self.day
    }
}

impl TimeOfDay {
    pub open spec fn wf(&self) -> bool {
        valid_time(self.hour as int, self.minute as int, self.second as int)
    }

    pub fn hour(&self) -> (r: u32)
        ensures
            r == self.hour,
    {
        self.hour
    }

    pub fn minute(&self) -> (r: u32)
        ensures
            r == self.minute,
    {
        self.minute
    }
}

/// Orders dates chronologically.
pub open spec fn date_before(a: CivilDate, b: CivilDate) -> bool {
    a.year < b.year || (a.year == b.year && (a.month < b.month || (a.month == b.month && a.day
        < b.day)))
}

pub fn is_date_before(a: CivilDate, b: CivilDate) -> (r: bool)
    ensures
        r == date_before(a, b),
{
    a.year < b.year || (a.year == b.year && (a.month < b.month || (a.month == b.month && a.day
        < b.day)))
}

/// `NaiveDate::from_ymd_opt`: the date when it exists and lies in
/// chrono's range.
#[verifier::external_body]
pub(crate) fn checked_date(year: i32, month: u32, day: u32) -> (r: Option<CivilDate>)
    ensures
        r == (if valid_date(year as int, month as int, day as int) {
            Some(CivilDate { year, month, day })
        } else {
            None
        }),
{
    NaiveDate::from_ymd_opt(year, month, day).map(|d| CivilDate { year: d.year(), month: d.month(), day: d.day() })
}

/// Hour, minute and second of a time of day that may be absent.
pub open spec fn time_parts(t: Option<TimeOfDay>) -> Option<(u32, u32, u32)> {
    match t {
        Some(t) => Some((t.hour, t.minute, t.second)),
        None => None,
    }
}

/// What `NaiveTime::parse_from_str` yields for a text and a format, as
/// hour, minute and second.
pub uninterp spec fn parsed_time(text: Seq<char>, format: Seq<char>) -> Option<(u32, u32, u32)>;

/// `NaiveTime::parse_from_str`.  Besides naming its result, states that a
/// parsed time is a valid time of day.
#[verifier::external_body]
pub(crate) fn parse_time_with(text: &str, format: &str) -> (r: Option<TimeOfDay>)
    ensures
        r matches Some(t) ==> t.wf(),
        parsed_time(text@, format@) == (match r {
            Some(t) => Some((t.hour, t.minute, t.second)),
            None => None,
        }),
{
    NaiveTime::parse_from_str(text, format).ok().map(|t| TimeOfDay { hour: t.hour(), minute: t.minute(), second: t.second() })
}

/// What `NaiveDateTime::parse_from_str` yields for a text and a format,
/// as year, month, day, hour, minute and second.
pub uninterp spec fn parsed_datetime(text: Seq<char>, format: Seq<char>) -> Option<(i32, u32, u32, u32, u32, u32)>;

/// `NaiveDateTime::parse_from_str`.  Besides naming its result, states that
/// a parsed date and time are valid.
#[verifier::external_body]
pub(crate) fn parse_datetime_with(text: &str, format: &str) -> (r: Option<(CivilDate, TimeOfDay)>)
    ensures
        r matches Some((d, t)) ==> d.wf() && t.wf(),
        parsed_datetime(text@, format@) == (match r {
            Some((d, t)) => Some((d.year, d.month, d.day, t.hour, t.minute, t.second)),
            None => None,
        }),
{
    NaiveDateTime::parse_from_str(text, format).ok().map(|n| (CivilDate { year: n.year(), month: n.month(), day: n.day() }, TimeOfDay { hour: n.hour(), minute: n.minute(), second: n.second() }))
}

/// What `DateTime::parse_from_rfc3339` followed by `naive_local` yields:
/// the wall-clock date and time written in the text, ignoring its offset;
/// or, for a text that does not parse, the parse error's message.
pub uninterp spec fn rfc3339_wall_clock(text: Seq<char>) -> Result<(i32, u32, u32, u32, u32, u32), Seq<char>>;

/// `DateTime::parse_from_rfc3339(..).naive_local()`, the error by its
/// `Display` text.
#[verifier::external_body]
pub(crate) fn parse_rfc3339_wall_clock(text: &str) -> (r: Result<(CivilDate, TimeOfDay), String>)
    ensures
        r matches Ok((d, t)) ==> d.wf() && t.wf(),
        rfc3339_wall_clock(text@) == (match r {
            Ok((d, t)) => Ok((d.year, d.month, d.day, t.hour, t.minute, t.second)),
            Err(e) => Err(e@),
        }),
{
    chrono::DateTime::parse_from_rfc3339(text).map_err(|e| e.to_string()).map(|dt| dt.naive_local()).map(|n| (CivilDate { year: n.year(), month: n.month(), day: n.day() }, TimeOfDay { hour: n.hour(), minute: n.minute(), second: n.second() }))
}

/// The Unix time (seconds) of a Berlin wall-clock time, when that wall-clock
/// time occurs exactly once (`Berlin.from_local_datetime(..).single()`).
pub uninterp spec fn berlin_instant(y: i32, mo: u32, d: u32, h: u32, mi: u32, s: u32) -> Option<i64>;

/// Converts a Berlin wall-clock time to Unix seconds; `None` when the local
/// time is skipped or repeated by a daylight-saving change.
#[verifier::external_body]
pub(crate) fn berlin_to_utc(date: CivilDate, time: TimeOfDay) -> (r: Option<i64>)
    requires
        date.wf(),
        time.wf(),
    ensures
        r == berlin_instant(date.year, date.month, date.day, time.hour, time.minute, time.second),
{
    let naive = NaiveDate::from_ymd_opt(date.year, date.month, date.day).unwrap().and_hms_opt(time.hour, time.minute, time.second).unwrap();
    Berlin.from_local_datetime(&naive).single().map(|dt| dt.with_timezone(&Utc).timestamp())
}

/// What `DateTime::<Utc>::to_rfc3339` writes for a Unix time.
pub uninterp spec fn rfc3339_text(ts: i64) -> Option<Seq<char>>;

/// Formats Unix seconds as RFC 3339 in UTC; `None` outside chrono's range.
#[verifier::external_body]
pub(crate) fn utc_rfc3339(ts: i64) -> (r: Option<String>)
    ensures
        rfc3339_text(ts) == (match r {
            Some(s) => Some(s@),
            None => None,
        }),
{
    chrono::DateTime::<Utc>::from_timestamp(ts, 0).map(|u| u.to_rfc3339())
}

/// The number of the day `y-m-d` of the proleptic Gregorian calendar,
/// counted from 1970-01-01.
pub open spec fn day_number(y: int, m: int, d: int) -> int {
    let y1 = if m <= 2 {
        y - 1
    } else {
        y
    };
    let era = y1 / 400;
    let yoe = y1 - era * 400;
    let mp = if m > 2 {
        m - 3
    } else {
        m + 9
    };
    let doy = (153 * mp + 2) / 5 + d - 1;
    let doe = yoe * 365 + yoe / 4 - yoe / 100 + doy;
    era * 146097 + doe - 719468
}

/// The date (year, month, day) of the day numbered `z` from 1970-01-01.
pub open spec fn date_of_number(z: int) -> (int, int, int) {
    let z1 = z + 719468;
    let era = z1 / 146097;
    let doe = z1 - era * 146097;
    let yoe = (doe - doe / 1460 + doe / 36524 - doe / 146096) / 365;
    let y = yoe + era * 400;
    let doy = doe - (365 * yoe + yoe / 4 - yoe / 100);
    let mp = (5 * doy + 2) / 153;
    let d = doy - (153 * mp + 2) / 5 + 1;
    let m = if mp < 10 {
        mp + 3
    } else {
        mp - 9
    };
    (if m <= 2 {
        y + 1
    } else {
        y
    }, m, d)
}

/// The number of whole days from `earlier` to `later` (`(later - earlier).num_days()`).
#[verifier::opaque]
pub open spec fn days_from(later_y: i32, later_m: u32, later_d: u32, earlier_y: i32, earlier_m: u32, earlier_d: u32) -> i64 {
    (day_number(later_y as int, later_m as int, later_d as int) - day_number(earlier_y as int, earlier_m as int, earlier_d as int)) as i64
}

/// `(later - earlier).num_days()` for two dates.
#[verifier::external_body]
pub(crate) fn days_between(later: CivilDate, earlier: CivilDate) -> (r: i64)
    requires
        later.wf(),
        earlier.wf(),
    ensures
        r == days_from(later.year, later.month, later.day, earlier.year, earlier.month, earlier.day),
{
    let a = NaiveDate::from_ymd_opt(later.year, later.month, later.day).unwrap();
    let b = NaiveDate::from_ymd_opt(earlier.year, earlier.month, earlier.day).unwrap();
    (a - b).num_days()
}

/// The date `n` days after a date (before it for negative `n`), when it
/// lies in chrono's range, -262143-01-01 to 262142-12-31.
#[verifier::opaque]
pub open spec fn date_plus_days(y: i32, m: u32, d: u32, n: i64) -> Option<(i32, u32, u32)> {
    let t = day_number(y as int, m as int, d as int) + n;
    if day_number(-262143, 1, 1) <= t && t <= day_number(262142, 12, 31) {
        let r = date_of_number(t);
        Some((r.0 as i32, r.1 as u32, r.2 as u32))
    } else {
        None
    }
}

/// `date + Duration::days(n)`, or `None` where that sum is out of range.
#[verifier::external_body]
pub(crate) fn add_days(date: CivilDate, n: i64) -> (r: Option<CivilDate>)
    requires
        date.wf(),
    ensures
        r matches Some(d) ==> d.wf(),
        date_plus_days(date.year, date.month, date.day, n) == (match r {
            Some(d) => Some((d.year, d.month, d.day)),
            None => None,
        }),
{
    let a = NaiveDate::from_ymd_opt(date.year, date.month, date.day).unwrap();
    chrono::TimeDelta::try_days(n).and_then(|delta| a.checked_add_signed(delta)).map(|d| CivilDate { year: d.year(), month: d.month(), day: d.day() })
}


/// The display formats the site uses: a date key, a day heading, a clock
/// time, and a full timestamp.
pub open spec fn known_format(fmt: Seq<char>) -> bool {
    fmt == "%Y-%m-%d"@ || fmt == "%A, %B %d"@ || fmt == "%H:%M"@ || fmt == "%B %d, %Y at %H:%M"@
}

/// What chrono writes for a Unix time shown in Berlin local time with the
/// given format.
pub uninterp spec fn berlin_formatted(ts: i64, fmt: Seq<char>) -> Option<Seq<char>>;

/// Formats Unix seconds in Berlin local time (`with_timezone(&Berlin).format(fmt)`);
/// `None` outside chrono's range.
#[verifier::external_body]
pub(crate) fn berlin_format(ts: i64, fmt: &str) -> (r: Option<String>)
    requires
        known_format(fmt@),
    ensures
        berlin_formatted(ts, fmt@) == (match r {
            Some(s) => Some(s@),
            None => None,
        }),
{
    chrono::DateTime::<Utc>::from_timestamp(ts, 0).map(|u| u.with_timezone(&Berlin).format(fmt).to_string())
}

/// What chrono writes for the UTC calendar date of a Unix time with the
/// format `%Y-%m-%d`.
pub uninterp spec fn utc_date_text(ts: i64) -> Option<Seq<char>>;

/// The UTC date of Unix seconds as `YYYY-MM-DD`
/// (`DateTime::<Utc>::format("%Y-%m-%d")`); `None` outside chrono's range.
#[verifier::external_body]
pub(crate) fn utc_date(ts: i64) -> (r: Option<String>)
    ensures
        utc_date_text(ts) == (match r {
            Some(s) => Some(s@),
            None => None,
        }),
{
    chrono::DateTime::<Utc>::from_timestamp(ts, 0).map(|u| u.format("%Y-%m-%d").to_string())
}

/// The Unix time (whole seconds) of an RFC 3339 text, offset applied.
pub uninterp spec fn rfc3339_instant(text: Seq<char>) -> Option<i64>;

/// `DateTime::parse_from_rfc3339(text)` as Unix seconds (`timestamp()`).
#[verifier::external_body]
pub(crate) fn parse_rfc3339_instant(text: &str) -> (r: Option<i64>)
    ensures
        r == rfc3339_instant(text@),
{
    chrono::DateTime::parse_from_rfc3339(text).ok().map(|dt| dt.timestamp())
}

} // verus!
