//! The calendar, the local time zone and the wall clock, as `chrono` provides
//! them. The four functions marked `external_body` are believed, not proved:
//! each states what `chrono` does on the values it is given. The rest of the
//! module is proved on top of them.

use crate::error::SchedulerError;
use crate::stamp::{
    has_stamp_shape, is_calendar_minute, stamp_of_text, stamp_text, text_has_stamp_shape,
    MinuteStamp,
};
use chrono::{Datelike, Local, LocalResult, NaiveDate, NaiveDateTime, TimeZone, Timelike};
use vstd::prelude::*;

verus! {

/// One reading of the wall clock: the instant in seconds since the Unix
/// epoch, and the date and time of day that the local time zone shows for it.
#[derive(Clone, Copy, Debug, PartialEq, Eq, Structural)]
pub struct WallClock {
    pub epoch_seconds: i64,
    pub year: i32,
    pub month: u32,
    pub day: u32,
    pub hour: u32,
    pub minute: u32,
}

/// The instants, in seconds since the Unix epoch, at which the local time
/// zone shows a given date and time of day.
#[derive(Clone, Copy, Debug, PartialEq, Eq, Structural)]
pub enum LocalInstant {
    /// The zone shows it exactly once.
    Single(i64),
    /// The zone shows it twice, as when clocks are set back.
    Ambiguous(i64, i64),
    /// The zone never shows it, as when clocks are set forward.
    Missing,
}

/// The pattern `YYYY-MM-DD HH:MM` in the notation of `chrono`.
pub const STAMP_FORMAT: &'static str = "%Y-%m-%d %H:%M";

/// Calls `chrono::NaiveDateTime::parse_from_str` and hands out the fields
/// of what it parsed.
///
/// Believed of `chrono`, for the format [`STAMP_FORMAT`]: on a text of the
/// shape `dddd-dd-dd dd:dd` it reads the five groups of digits as year,
/// month, day, hour and minute, and it succeeds exactly if these name a date
/// of the Gregorian calendar and a time of day; the seconds of the result
/// are zero.
#[verifier::external_body]
pub(crate) fn parse_stamp(text: &str, format: &str) -> (r: Option<MinuteStamp>)
    requires
        has_stamp_shape(text@),
        format@ == STAMP_FORMAT@,
    ensures
        r == stamp_of_text(text@),
{
    match NaiveDateTime::parse_from_str(text, format) {
        Ok(t) => Some(MinuteStamp {
            year: t.year() as u16,
            month: t.month() as u8,
            day: t.day() as u8,
            hour: t.hour() as u8,
            minute: t.minute() as u8,
        }),
        Err(_) => None,
    }
}

/// Calls `chrono::NaiveDateTime::format` on the date and time of `t`.
///
/// Believed of `chrono`, for the format [`STAMP_FORMAT`]: for a year from 0
/// to 9999 it writes the year with four digits and month, day, hour and
/// minute with two digits each, padded with zeros, between the separators
/// of the format.
#[verifier::external_body]
pub(crate) fn format_stamp(t: &MinuteStamp, format: &str) -> (r: String)
    requires
        t.wf(),
        format@ == STAMP_FORMAT@,
    ensures
        r@ == stamp_text(*t),
{
    let date = NaiveDate::from_ymd_opt(t.year as i32, t.month as u32, t.day as u32).unwrap();
    let time = date.and_hms_opt(t.hour as u32, t.minute as u32, 0).unwrap();
    time.format(format).to_string()
}

/// Calls `chrono::Local::now` and hands out the instant and the local date
/// and time of day. Nothing is claimed of the reading: it is the machine's.
#[verifier::external_body]
pub(crate) fn read_wall_clock() -> (r: WallClock) {
    let now = Local::now();
    WallClock {
        epoch_seconds: now.timestamp(),
        year: now.year(),
        month: now.month(),
        day: now.day(),
        hour: now.hour(),
        minute: now.minute(),
    }
}

/// Calls `chrono::TimeZone::from_local_datetime` on `chrono::Local` with the
/// date and time of `t`. Nothing is claimed of the result: it depends on the
/// time zone of the machine.
#[verifier::external_body]
pub(crate) fn local_instant(t: &MinuteStamp) -> (r: LocalInstant)
    requires
        t.wf(),
{
    let date = NaiveDate::from_ymd_opt(t.year as i32, t.month as u32, t.day as u32).unwrap();
    let time = date.and_hms_opt(t.hour as u32, t.minute as u32, 0).unwrap();
    match Local.from_local_datetime(&time) {
        LocalResult::Single(a) => LocalInstant::Single(a.timestamp()),
        LocalResult::Ambiguous(a, b) => LocalInstant::Ambiguous(a.timestamp(), b.timestamp()),
        LocalResult::None => LocalInstant::Missing,
    }
}

/// Now, as scheduling sees it: the instant, and the minute that the local
/// time zone shows for it.
#[derive(Clone, Copy, Debug, PartialEq, Eq, Structural)]
pub struct ClockReading {
    pub epoch_seconds: i64,
    pub local: MinuteStamp,
}

impl ClockReading {
    /// The local minute exists in the calendar.
    pub open spec fn wf(self) -> bool {
        self.local.wf()
    }

    /// The reading of a wall clock, if the pattern `YYYY-MM-DD HH:MM` can
    /// write its local minute.
    pub fn from_wall_clock(clock: &WallClock) -> (r: Result<ClockReading, SchedulerError>)
        ensures
            r is Ok <==> is_calendar_minute(
                clock.year as int,
                clock.month as int,
                clock.day as int,
                clock.hour as int,
                clock.minute as int,
            ),
            r matches Ok(now) ==> now.wf() && now.epoch_seconds == clock.epoch_seconds
                && now.local.year == clock.year && now.local.month == clock.month && now.local.day
                == clock.day && now.local.hour == clock.hour && now.local.minute == clock.minute,
            r matches Err(e) ==> e == SchedulerError::ClockOutOfRange,
    {
        match MinuteStamp::new(clock.year, clock.month, clock.day, clock.hour, clock.minute) {
            Some(local) => Ok(ClockReading { epoch_seconds: clock.epoch_seconds, local }),
            None => Err(SchedulerError::ClockOutOfRange),
        }
    }

    /// Reads the wall clock of the machine.
    pub fn now() -> (r: Result<ClockReading, SchedulerError>)
        ensures
            r matches Ok(now) ==> now.wf(),
            r matches Err(e) ==> e == SchedulerError::ClockOutOfRange,
    {
        let clock = read_wall_clock();
        ClockReading::from_wall_clock(&clock)
    }
}

impl MinuteStamp {
    /// Reads a text of the pattern `YYYY-MM-DD HH:MM`.
    pub fn parse(text: &str) -> (r: Option<MinuteStamp>)
        ensures
            r == stamp_of_text(text@),
            r matches Some(t) ==> t.wf(),
    {
        if !text_has_stamp_shape(text) {
            return None;
        }
        parse_stamp(text, STAMP_FORMAT)
    }

    /// Writes the stamp in the pattern `YYYY-MM-DD HH:MM`.
    pub fn to_text(&self) -> (text: String)
        requires
            self.wf(),
        ensures
            text@ == stamp_text(*self),
    {
        format_stamp(self, STAMP_FORMAT)
    }
}

} // verus!
