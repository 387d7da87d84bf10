use vstd::prelude::*;

use chrono::{Datelike, Offset, TimeZone};

use crate::config::ReportType;
use crate::error::{AppError, ErrorView};

verus! {

broadcast use vstd::string::group_string_axioms;

/// The earliest instant `chrono` represents, in seconds since the Unix
/// epoch (January 1 of the year -262143, that is 262144 BCE, 00:00:00 UTC).
pub open spec fn min_timestamp() -> int {
    -8334601315200
}

/// The latest instant `chrono` represents, in whole seconds since the Unix
/// epoch (December 31, 262142 CE, 23:59:59 UTC).
pub open spec fn max_timestamp() -> int {
    8210266876799
}

/// Seconds in a day.
pub open spec fn day() -> int {
    86400
}

/// Whether a name is one of the time zone database's names that
/// `chrono_tz::Tz` parses.
pub uninterp spec fn known_timezone(name: Seq<char>) -> bool;

/// Parses a time zone name with `chrono_tz`'s `FromStr`; gives `Ok` for a
/// name it knows and otherwise the text of its error, which is always
/// "failed to parse timezone".
#[verifier::external_body]
pub(crate) fn check_timezone(name: &str) -> (r: Result<(), String>)
    ensures
        r is Ok <==> known_timezone(name@),
        r matches Err(e) ==> e@ == "failed to parse timezone"@,
{
    match name.parse::<chrono_tz::Tz>() {
        Ok(_) => Ok(()),
        Err(e) => Err(e.to_string()),
    }
}

/// The calendar date (year, month, day) that an instant has in a time zone.
pub uninterp spec fn local_calendar_date(tz: Seq<char>, ts: int) -> (int, int, int);

/// The offset from UTC, in seconds (local time less UTC), that a time zone
/// has at an instant.
pub uninterp spec fn utc_offset(tz: Seq<char>, ts: int) -> int;

/// The local wall-clock time of an instant in a time zone, counted in
/// seconds like the instant itself: the instant plus the zone's offset.
pub open spec fn local_seconds(tz: Seq<char>, ts: int) -> int {
    ts + utc_offset(tz, ts)
}

/// The date an instant has in a time zone, written `%Y-%m-%d`.
pub uninterp spec fn local_iso_date(tz: Seq<char>, ts: int) -> Seq<char>;

/// The earliest instant whose local time in the time zone is the given date
/// and time, if there is one (`chrono`'s `with_ymd_and_hms` then `earliest`).
pub uninterp spec fn local_earliest(
    tz: Seq<char>,
    year: int,
    month: int,
    day: int,
    hour: int,
    minute: int,
    second: int,
) -> Option<int>;

/// The latest instant whose local time in the time zone is the given date
/// and time, if there is one (`chrono`'s `with_ymd_and_hms` then `latest`).
pub uninterp spec fn local_latest(
    tz: Seq<char>,
    year: int,
    month: int,
    day: int,
    hour: int,
    minute: int,
    second: int,
) -> Option<int>;

/// The UTC date of an instant, written `%B %d, %Y`.
pub uninterp spec fn utc_long_date(ts: int) -> Seq<char>;

/// A reading of the system clock.
#[verifier::external_type_specification]
#[verifier::external_body]
pub struct ExSystemTime(std::time::SystemTime);

/// Reads the system clock with `SystemTime::now`. Nothing is known of the
/// reading.
#[verifier::external_body]
fn system_now() -> (r: std::time::SystemTime) {
    std::time::SystemTime::now()
}

/// How long after the Unix epoch a clock reading lies, with
/// `SystemTime::duration_since` and `UNIX_EPOCH`; `None` for a reading
/// before the epoch. Nothing is stated of the duration.
#[verifier::external_body]
fn since_epoch(t: &std::time::SystemTime) -> (r: Option<std::time::Duration>) {
    t.duration_since(std::time::UNIX_EPOCH).ok()
}

/// The whole seconds of a duration, with `Duration::as_secs`.
#[verifier::external_body]
fn whole_seconds(d: &std::time::Duration) -> (r: u64) {
    d.as_secs()
}

/// The date an instant has in a time zone, with `chrono_tz` and
/// `DateTime::with_timezone`, and the zone's offset from UTC there
/// (`Offset::fix`, `FixedOffset::local_minus_utc`). A `FixedOffset` lies
/// strictly between minus and plus one day.
#[verifier::external_body]
fn local_date(tz: &str, ts: i64) -> (r: (i32, u32, u32, i32))
    requires
        known_timezone(tz@),
        min_timestamp() <= ts <= max_timestamp(),
    ensures
        (r.0 as int, r.1 as int, r.2 as int) == local_calendar_date(tz@, ts as int),
        r.3 as int == utc_offset(tz@, ts as int),
        -day() < r.3 < day(),
{
    let zone: chrono_tz::Tz = tz.parse().unwrap();
    let t = chrono::DateTime::from_timestamp(ts, 0).unwrap().with_timezone(&zone);
    (t.year(), t.month(), t.day(), t.offset().fix().local_minus_utc())
}

/// The date an instant has in a time zone, formatted by `chrono` as
/// `%Y-%m-%d`.
#[verifier::external_body]
fn local_date_text(tz: &str, ts: i64) -> (r: String)
    requires
        known_timezone(tz@),
        min_timestamp() <= ts <= max_timestamp(),
    ensures
        r@ == local_iso_date(tz@, ts as int),
{
    let zone: chrono_tz::Tz = tz.parse().unwrap();
    chrono::DateTime::from_timestamp(ts, 0).unwrap().with_timezone(&zone).format(
        "%Y-%m-%d",
    ).to_string()
}

/// The earliest instant with the given local date and time in a time zone.
/// `chrono` only gives instants it represents. The instant's wall-clock time
/// in the zone is the given date and time, so any instant with that local
/// date falls on the same local day.
#[verifier::external_body]
fn earliest_instant(tz: &str, year: i32, month: u32, day: u32, hour: u32, minute: u32, second: u32) -> (r:
    Option<i64>)
    requires
        known_timezone(tz@),
    ensures
        match r {
            Some(t) => local_earliest(tz@, year as int, month as int, day as int, hour as int, minute as int, second as int) == Some(t as int)
                && min_timestamp() <= t <= max_timestamp()
                && -self::day() < utc_offset(tz@, t as int) < self::day()
                && local_calendar_date(tz@, t as int) == (year as int, month as int, day as int)
                && local_seconds(tz@, t as int) % self::day() == hour * 3600 + minute * 60 + second
                && (forall|u: int| #[trigger] local_calendar_date(tz@, u) == (year as int, month as int, day as int)
                    ==> local_seconds(tz@, u) / self::day() == local_seconds(tz@, t as int) / self::day()),
            None => local_earliest(tz@, year as int, month as int, day as int, hour as int, minute as int, second as int) is None,
        },
{
    let zone: chrono_tz::Tz = tz.parse().unwrap();
    match zone.with_ymd_and_hms(year, month, day, hour, minute, second).earliest() {
        Some(t) => Some(t.timestamp()),
        None => None,
    }
}

/// The latest instant with the given local date and time in a time zone.
/// `chrono` only gives instants it represents. The instant's wall-clock time
/// in the zone is the given date and time, so any instant with that local
/// date falls on the same local day.
#[verifier::external_body]
fn latest_instant(tz: &str, year: i32, month: u32, day: u32, hour: u32, minute: u32, second: u32) -> (r:
    Option<i64>)
    requires
        known_timezone(tz@),
    ensures
        match r {
            Some(t) => local_latest(tz@, year as int, month as int, day as int, hour as int, minute as int, second as int) == Some(t as int)
                && min_timestamp() <= t <= max_timestamp()
                && -self::day() < utc_offset(tz@, t as int) < self::day()
                && local_calendar_date(tz@, t as int) == (year as int, month as int, day as int)
                && local_seconds(tz@, t as int) % self::day() == hour * 3600 + minute * 60 + second
                && (forall|u: int| #[trigger] local_calendar_date(tz@, u) == (year as int, month as int, day as int)
                    ==> local_seconds(tz@, u) / self::day() == local_seconds(tz@, t as int) / self::day()),
            None => local_latest(tz@, year as int, month as int, day as int, hour as int, minute as int, second as int) is None,
        },
{
    let zone: chrono_tz::Tz = tz.parse().unwrap();
    match zone.with_ymd_and_hms(year, month, day, hour, minute, second).latest() {
        Some(t) => Some(t.timestamp()),
        None => None,
    }
}

/// The UTC date of an instant, formatted by `chrono` as `%B %d, %Y`.
#[verifier::external_body]
fn long_date_text(ts: i64) -> (r: String)
    requires
        min_timestamp() <= ts <= max_timestamp(),
    ensures
        r@ == utc_long_date(ts as int),
{
    chrono::DateTime::from_timestamp(ts, 0).unwrap().format("%B %d, %Y").to_string()
}

/// The stretch of time a report covers, as whole seconds since the Unix
/// epoch; both ends are included.
#[derive(Clone, Copy, Debug, PartialEq, Eq, Structural)]
pub struct TimeRange {
    pub start: i64,
    pub end: i64,
}

/// The range a report of the given kind covers when made at `now` in a time
/// zone, or the configuration error that stops it.
///
/// A daily report covers yesterday's local calendar day: from its earliest
/// local midnight for one day less a second. A weekly report covers the
/// seven days that end at yesterday's latest local 23:59:59.
pub open spec fn time_range_spec(tz: Seq<char>, report_type: ReportType, now: int) -> Result<
    (int, int),
    ErrorView,
> {
    if !known_timezone(tz) {
        Err(ErrorView::Config("Invalid timezone: "@ + "failed to parse timezone"@))
    } else {
        let yesterday = now - day();
        let (y, m, d) = local_calendar_date(tz, yesterday);
        match report_type {
            ReportType::Daily => match local_earliest(tz, y, m, d, 0, 0, 0) {
                Some(start) => Ok((start, start + day() - 1)),
                None => Err(
                    ErrorView::Config(
                        "Cannot represent midnight in timezone "@ + tz + " for "@ + local_iso_date(
                            tz,
                            yesterday,
                        ),
                    ),
                ),
            },
            ReportType::Weekly => match local_latest(tz, y, m, d, 23, 59, 59) {
                Some(end) => Ok((end - 7 * day() + 1, end)),
                None => Err(
                    ErrorView::Config(
                        "Cannot represent 23:59:59 in timezone "@ + tz + " for "@ + local_iso_date(
                            tz,
                            yesterday,
                        ),
                    ),
                ),
            },
        }
    }
}

/// Where a report's range lies, made at `now` in a time zone: within what
/// `chrono` represents; a daily range starts at a local midnight of
/// yesterday's local date (the date of `now` less a day), not after that
/// instant on the wall clock, and a weekly range ends at 23:59:59 local time
/// on that date, not before it. Where the zone's offset is the same at both
/// instants, the whole range lies before `now`. Either way the range lies
/// within eleven days before and two days after `now`.
pub open spec fn range_placed(
    tz: Seq<char>,
    report_type: ReportType,
    now: int,
    start: int,
    end: int,
) -> bool {
    let yesterday = now - day();
    &&& min_timestamp() <= start <= end <= max_timestamp()
    &&& now - 11 * day() < start
    &&& end < now + 2 * day()
    &&& match report_type {
        ReportType::Daily => {
            &&& local_calendar_date(tz, start) == local_calendar_date(tz, yesterday)
            &&& local_seconds(tz, start) % day() == 0
            &&& local_seconds(tz, start) <= local_seconds(tz, yesterday)
            &&& utc_offset(tz, start) == utc_offset(tz, yesterday) ==> start <= yesterday && end < now
        },
        ReportType::Weekly => {
            &&& local_calendar_date(tz, end) == local_calendar_date(tz, yesterday)
            &&& local_seconds(tz, end) % day() == day() - 1
            &&& local_seconds(tz, yesterday) <= local_seconds(tz, end)
            &&& utc_offset(tz, end) == utc_offset(tz, yesterday) ==> yesterday <= end < now
        },
    }
}

/// A range result as pairs of integers, or the error's view.
pub open spec fn range_outcome(r: Result<TimeRange, AppError>) -> Result<(int, int), ErrorView> {
    match r {
        Ok(t) => Ok((t.start as int, t.end as int)),
        Err(e) => Err(e@),
    }
}

/// The range a report covers when made at `now` (seconds since the Unix
/// epoch). A daily range spans one day less a second, a weekly one seven.
///
/// `now` lies between the epoch, where clock readings start, and two days
/// before the latest instant `chrono` represents. Yesterday's local midnight
/// and 23:59:59, and the range built from them, then stay within what
/// `chrono` represents: a zone's offset is less than a day either way.
pub fn time_range_at(timezone: &str, report_type: ReportType, now: i64) -> (r: Result<
    TimeRange,
    AppError,
>)
    requires
        0 <= now <= max_timestamp() - 2 * day(),
    ensures
        range_outcome(r) == time_range_spec(timezone@, report_type, now as int),
        r matches Ok(t) ==> range_placed(timezone@, report_type, now as int, t.start as int, t.end as int),
        r matches Ok(t) ==> (report_type == ReportType::Daily ==> t.end - t.start == day() - 1),
        r matches Ok(t) ==> (report_type == ReportType::Weekly ==> t.end - t.start == 7 * day()
            - 1),
{
    if let Err(e) = check_timezone(timezone) {
        let msg = "Invalid timezone: ".to_string().concat(e.as_str());
        return Err(AppError::Config(msg));
    }
    let yesterday = now - 86400;
    let (y, m, d, _offset) = local_date(timezone, yesterday);
    match report_type {
        ReportType::Daily => match earliest_instant(timezone, y, m, d, 0, 0, 0) {
            Some(start) => {
                proof {
                    let ls_y = local_seconds(timezone@, yesterday as int);
                    let ls_s = local_seconds(timezone@, start as int);
                    assert(ls_s / day() == ls_y / day());
                    assert(ls_s == (ls_s / day()) * day() + ls_s % day());
                    assert(ls_y == (ls_y / day()) * day() + ls_y % day());
                }
                Ok(TimeRange { start, end: start + 86400 - 1 })
            },
            None => {
                let msg = "Cannot represent midnight in timezone ".to_string().concat(
                    timezone,
                ).concat(" for ").concat(local_date_text(timezone, yesterday).as_str());
                Err(AppError::Config(msg))
            },
        },
        ReportType::Weekly => match latest_instant(timezone, y, m, d, 23, 59, 59) {
            Some(end) => {
                proof {
                    let ls_y = local_seconds(timezone@, yesterday as int);
                    let ls_e = local_seconds(timezone@, end as int);
                    assert(ls_e / day() == ls_y / day());
                    assert(ls_e == (ls_e / day()) * day() + ls_e % day());
                    assert(ls_y == (ls_y / day()) * day() + ls_y % day());
                }
                Ok(TimeRange { start: end - 7 * 86400 + 1, end })
            },
            None => {
                let msg = "Cannot represent 23:59:59 in timezone ".to_string().concat(
                    timezone,
                ).concat(" for ").concat(local_date_text(timezone, yesterday).as_str());
                Err(AppError::Config(msg))
            },
        },
    }
}

/// The message given when the clock reads a time too close to the end of
/// what `chrono` represents.
pub open spec fn clock_out_of_range_message() -> Seq<char> {
    "Current time is outside the supported range"@
}

/// The message given when the system clock reads a time before the Unix
/// epoch.
pub open spec fn clock_before_epoch_message() -> Seq<char> {
    "System clock reads a time before the Unix epoch"@
}

/// The range a report of the given kind covers when made now: the range of
/// [`time_range_at`] for the clock's reading, in whole seconds since the
/// Unix epoch. A clock that reads before the epoch, or too close to the end
/// of what `chrono` represents, gives a configuration error.
pub fn calculate_time_range(timezone: &str, report_type: ReportType) -> (r: Result<
    TimeRange,
    AppError,
>)
    ensures
        range_outcome(r) == Err::<(int, int), ErrorView>(
            ErrorView::Config(clock_before_epoch_message()),
        ) || exists|now: int|
            0 <= now && (if now <= max_timestamp() - 2 * day() {
                &&& range_outcome(r) == time_range_spec(timezone@, report_type, now)
                &&& r matches Ok(t) ==> range_placed(timezone@, report_type, now, t.start as int, t.end as int)
            } else {
                range_outcome(r) == Err::<(int, int), ErrorView>(
                    ErrorView::Config(clock_out_of_range_message()),
                )
            }),
        r matches Ok(t) ==> min_timestamp() <= t.start <= t.end <= max_timestamp(),
        r matches Ok(t) ==> (report_type == ReportType::Daily ==> t.end - t.start == day() - 1),
        r matches Ok(t) ==> (report_type == ReportType::Weekly ==> t.end - t.start == 7 * day()
            - 1),
{
    let reading = system_now();
    let now: u64 = match since_epoch(&reading) {
        Some(d) => whole_seconds(&d),
        None => {
            let r = Err(AppError::Config("System clock reads a time before the Unix epoch".to_string()));
            return r;
        },
    };
    let r = if now > 8210266876799 - 2 * 86400 {
        Err(AppError::Config("Current time is outside the supported range".to_string()))
    } else {
        time_range_at(timezone, report_type, now as i64)
    };
    assert(0 <= now as int && (if now as int <= max_timestamp() - 2 * day() {
        &&& range_outcome(r) == time_range_spec(timezone@, report_type, now as int)
        &&& r matches Ok(t) ==> range_placed(timezone@, report_type, now as int, t.start as int, t.end as int)
    } else {
        range_outcome(r) == Err::<(int, int), ErrorView>(
            ErrorView::Config(clock_out_of_range_message()),
        )
    }));
    r
}

impl TimeRange {
    /// The start of the range in milliseconds since the Unix epoch.
    pub fn start_millis(&self) -> (r: i64)
        requires
            min_timestamp() - 7 * day() <= self.start <= max_timestamp() + day(),
        ensures
            r == self.start * 1000,
    {
        self.start * 1000
    }

    /// The end of the range in milliseconds since the Unix epoch.
    pub fn end_millis(&self) -> (r: i64)
        requires
            min_timestamp() - 7 * day() <= self.end <= max_timestamp() + day(),
        ensures
            r == self.end * 1000,
    {
        self.end * 1000
    }
}

/// The date a report is headed with: the UTC date of the range's end,
/// written like "January 05, 2025".
pub fn report_date(range: &TimeRange) -> (r: String)
    requires
        min_timestamp() <= range.end <= max_timestamp(),
    ensures
        r@ == utc_long_date(range.end as int),
{
    long_date_text(range.end)
}

} // verus!
