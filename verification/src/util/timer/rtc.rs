//! The real-time clock.
use chrono::{NaiveDate, NaiveDateTime, NaiveTime};
use vstd::prelude::*;

verus! {

/// Register A of the clock: bit 7 is set while an update is in progress.
pub const STATUS_A: u8 = 0x0A;

/// Register B of the clock: bit 2 is clear when values are in BCD.
pub const STATUS_B: u8 = 0x0B;

/// The value of two BCD digits.
pub open spec fn spec_bcd(bcd: u8) -> nat {
    (bcd % 16) as nat + (bcd / 16) as nat * 10
}

/// Whether status register B says the clock counts in BCD.
pub fn is_bcd(status_b: u8) -> (r: bool)
    ensures
        r == (status_b & 0x04 == 0),
{
    status_b & 0x04 == 0
}

/// The binary value of two BCD digits; a digit above 9 counts with its value.
pub fn bcd_to_binary(bcd: u8) -> (r: u8)
    ensures
        r == spec_bcd(bcd),
{
    proof {
        assert(bcd & 0x0F == bcd % 16 && bcd >> 4u8 == bcd / 16) by (bit_vector);
    }
    (bcd & 0x0F) + ((bcd >> 4u8) * 10)
}

/// Whether status register A says an update is in progress.
pub fn update_in_progress(status_a: u8) -> (r: bool)
    ensures
        r == (status_a & 0x80 != 0),
{
    status_a & 0x80 != 0
}

/// A date and time as the clock reports it.
#[derive(Debug, Clone, Copy, PartialEq, Eq, Structural)]
pub struct RtcTime {
    pub seconds: u8,
    pub minutes: u8,
    pub hours: u8,
    pub day: u8,
    pub month: u8,
    pub year: u8,
}

/// The time in binary, converting every field from BCD if `bcd`.
pub fn decode_time(raw: RtcTime, bcd: bool) -> (r: RtcTime)
    ensures
        !bcd ==> r == raw,
        bcd ==> r.seconds == spec_bcd(raw.seconds) && r.minutes == spec_bcd(raw.minutes) && r.hours == spec_bcd(
            raw.hours,
        ) && r.day == spec_bcd(raw.day) && r.month == spec_bcd(raw.month) && r.year == spec_bcd(raw.year),
{
    if bcd {
        RtcTime {
            seconds: bcd_to_binary(raw.seconds),
            minutes: bcd_to_binary(raw.minutes),
            hours: bcd_to_binary(raw.hours),
            day: bcd_to_binary(raw.day),
            month: bcd_to_binary(raw.month),
            year: bcd_to_binary(raw.year),
        }
    } else {
        raw
    }
}


/// The clock registers `raw` with their numbers read as BCD when `bcd` is set.
pub open spec fn spec_decode_time(raw: RtcTime, bcd: bool) -> RtcTime {
    if bcd {
        RtcTime {
            seconds: spec_bcd(raw.seconds) as u8,
            minutes: spec_bcd(raw.minutes) as u8,
            hours: spec_bcd(raw.hours) as u8,
            day: spec_bcd(raw.day) as u8,
            month: spec_bcd(raw.month) as u8,
            year: spec_bcd(raw.year) as u8,
        }
    } else {
        raw
    }
}

/// A calendar date, as `chrono` holds it.
#[verifier::external_type_specification]
#[verifier::external_body]
pub struct ExNaiveDate(NaiveDate);

/// A time of day, as `chrono` holds it.
#[verifier::external_type_specification]
#[verifier::external_body]
pub struct ExNaiveTime(NaiveTime);

/// A date and time of day, as `chrono` holds it.
#[verifier::external_type_specification]
#[verifier::external_body]
pub struct ExNaiveDateTime(NaiveDateTime);

/// Whether `year` is a leap year of the proleptic Gregorian calendar.
pub open spec fn is_leap_year(year: int) -> bool {
    (year % 4 == 0 && year % 100 != 0) || year % 400 == 0
}

/// The number of days of `month` in `year`.
pub open spec fn days_in_month(year: int, month: int) -> int {
    if month == 2 {
        if is_leap_year(year) {
            29
        } else {
            28
        }
    } else if month == 4 || month == 6 || month == 9 || month == 11 {
        30
    } else {
        31
    }
}

/// Whether `year-month-day` is a day of the calendar, within the years
/// `chrono` can represent.
pub open spec fn valid_date(year: int, month: int, day: int) -> bool {
    &&& -262_143 <= year <= 262_142
    &&& 1 <= month <= 12
    &&& 1 <= day <= days_in_month(year, month)
}

/// Whether `hour:minute:second` is a time of day.
pub open spec fn valid_time(hour: int, minute: int, second: int) -> bool {
    hour < 24 && minute < 60 && second < 60
}

/// The date `chrono` holds for `year-month-day`.
pub uninterp spec fn ymd_date(year: i32, month: u32, day: u32) -> NaiveDate;

/// The time of day `chrono` holds for `hour:minute:second`.
pub uninterp spec fn hms_time(hour: u32, minute: u32, second: u32) -> NaiveTime;

/// The date and time `chrono` holds for `date` at `time`.
pub uninterp spec fn date_time_of(date: NaiveDate, time: NaiveTime) -> NaiveDateTime;

/// The date `year-month-day`, if it is a day of the calendar.
///
/// Calls `chrono::NaiveDate::from_ymd_opt`, which returns `None` exactly when
/// the day does not exist, the month or day is out of range, or the year is
/// beyond the years `chrono` represents, and otherwise the date of its
/// arguments, named `ymd_date`.
#[verifier::external_body]
fn date_from_ymd(year: i32, month: u32, day: u32) -> (r: Option<NaiveDate>)
    ensures
        r is Some <==> valid_date(year as int, month as int, day as int),
        r matches Some(d) ==> d == ymd_date(year, month, day),
{
    NaiveDate::from_ymd_opt(year, month, day)
}

/// The time `hour:minute:second`, if it is a time of day.
///
/// Calls `chrono::NaiveTime::from_hms_opt`, which returns `None` exactly on an
/// invalid hour, minute or second, and otherwise the time of its arguments,
/// named `hms_time`.
#[verifier::external_body]
fn time_from_hms(hour: u32, minute: u32, second: u32) -> (r: Option<NaiveTime>)
    ensures
        r is Some <==> valid_time(hour as int, minute as int, second as int),
        r matches Some(t) ==> t == hms_time(hour, minute, second),
{
    NaiveTime::from_hms_opt(hour, minute, second)
}

/// The date and time made of `date` and `time`.
///
/// Calls `chrono::NaiveDateTime::new`, which always succeeds with the pair of
/// its arguments, named `date_time_of`.
#[verifier::external_body]
fn date_time(date: NaiveDate, time: NaiveTime) -> (r: NaiveDateTime)
    ensures
        r == date_time_of(date, time),
{
    NaiveDateTime::new(date, time)
}

/// The date and time the clock registers `raw` hold, their numbers in BCD
/// when `bcd` is set and the year counted from 2000; `None` when they name no
/// valid date and time.
pub fn rtc_date_time(raw: RtcTime, bcd: bool) -> (r: Option<NaiveDateTime>)
    ensures
        r is Some <==> ({
            let t = spec_decode_time(raw, bcd);
            valid_date(t.year as int + 2000, t.month as int, t.day as int) && valid_time(
                t.hours as int,
                t.minutes as int,
                t.seconds as int,
            )
        }),
        r is Some ==> ({
            let t = spec_decode_time(raw, bcd);
            r == Some(
                date_time_of(
                    ymd_date((t.year + 2000) as i32, t.month as u32, t.day as u32),
                    hms_time(t.hours as u32, t.minutes as u32, t.seconds as u32),
                ),
            )
        }),
{
    let t = decode_time(raw, bcd);
    assert(t == spec_decode_time(raw, bcd));
    let date = match date_from_ymd(t.year as i32 + 2000, t.month as u32, t.day as u32) {
        Some(d) => d,
        None => return None,
    };
    let time = match time_from_hms(t.hours as u32, t.minutes as u32, t.seconds as u32) {
        Some(t) => t,
        None => return None,
    };
    Some(date_time(date, time))
}

} // verus!
