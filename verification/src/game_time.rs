//! The in-game calendar: 60-minute hours, 24-hour days, 30-day months,
//! 12-month years, counted from year 217. Game time is kept as a count of
//! game seconds since 217-01-01 00:00.
use vstd::prelude::*;

use crate::game_state::GameState;

verus! {

pub const GAME_HOURS_PER_DAY: i64 = 24;
pub const GAME_MINUTES_PER_HOUR: i64 = 60;
pub const GAME_DAYS_PER_MONTH: i64 = 30;
pub const GAME_MONTHS_PER_YEAR: i64 = 12;
pub const GAME_DAYS_PER_YEAR: i64 = 360;
pub const GAME_START_YEAR: i64 = 217;
pub const GAME_SECONDS_PER_DAY: i64 = 86400;

/// A calendar date and time of day in the game world.
#[derive(Debug, Clone, Copy, PartialEq, Eq, Structural)]
pub struct GameDateTime {
    pub year: u32,
    pub month: u8,
    pub day: u8,
    pub hour: u8,
    pub minute: u8,
}

/// `v` clamped to `[lo, hi]`.
pub open spec fn clamp_int(v: int, lo: int, hi: int) -> int {
    if v < lo { lo } else if v > hi { hi } else { v }
}

/// Whether every field of a date lies in its calendar range.
pub open spec fn is_valid_datetime(d: GameDateTime) -> bool {
    &&& d.year >= GAME_START_YEAR
    &&& 1 <= d.month <= 12
    &&& 1 <= d.day <= 30
    &&& d.hour < 24
    &&& d.minute < 60
}

/// Game seconds since the epoch of a date, after clamping each field into
/// its calendar range.
pub open spec fn datetime_seconds_spec(d: GameDateTime) -> int {
    let year = if d.year < GAME_START_YEAR { GAME_START_YEAR as int } else { d.year as int };
    let month = clamp_int(d.month as int, 1, 12);
    let day = clamp_int(d.day as int, 1, 30);
    let hour = clamp_int(d.hour as int, 0, 23);
    let minute = clamp_int(d.minute as int, 0, 59);
    let total_days = (year - GAME_START_YEAR) * 360 + (month - 1) * 30 + (day - 1);
    (total_days * 1440 + hour * 60 + minute) * 60
}

/// The date of a count of game seconds (negative counts mean the epoch).
pub open spec fn seconds_datetime_spec(total: int) -> GameDateTime {
    let s = if total < 0 { 0 } else { total };
    let total_minutes = s / 60;
    let total_days = total_minutes / 1440;
    let minutes_in_day = total_minutes % 1440;
    let day_of_year = total_days % 360;
    GameDateTime {
        year: (GAME_START_YEAR + total_days / 360) as u32,
        month: (day_of_year / 30 + 1) as u8,
        day: (day_of_year % 30 + 1) as u8,
        hour: (minutes_in_day / 60) as u8,
        minute: (minutes_in_day % 60) as u8,
    }
}

/// The game seconds at which the calendar's year field stops fitting in
/// a `u32`.
pub open spec fn seconds_limit() -> int {
    (u32::MAX as int - GAME_START_YEAR + 1) * 360 * 86400
}

impl GameState {
    /// 217-01-01 00:00.
    pub fn default_start_datetime() -> (d: GameDateTime)
        ensures
            d == (GameDateTime { year: 217, month: 1, day: 1, hour: 0, minute: 0 }),
    {
        GameDateTime { year: 217, month: 1, day: 1, hour: 0, minute: 0 }
    }

    /// Game seconds since the epoch of a date; out-of-range fields are first
    /// clamped into the calendar.
    pub fn datetime_to_total_game_seconds(datetime: &GameDateTime) -> (s: i64)
        ensures
            s as int == datetime_seconds_spec(*datetime),
            s >= 0,
    {
        let year: i64 = if (datetime.year as i64) < GAME_START_YEAR { GAME_START_YEAR } else { datetime.year as i64 };
        let month: i64 = if (datetime.month as i64) < 1 { 1 } else if (datetime.month as i64) > 12 { 12 } else { datetime.month as i64 };
        let day: i64 = if (datetime.day as i64) < 1 { 1 } else if (datetime.day as i64) > 30 { 30 } else { datetime.day as i64 };
        let hour: i64 = if (datetime.hour as i64) > 23 { 23 } else { datetime.hour as i64 };
        let minute: i64 = if (datetime.minute as i64) > 59 { 59 } else { datetime.minute as i64 };
        let years_since_start = year - GAME_START_YEAR;
        proof {
            assert(0 <= years_since_start <= 4294967295);
            assert(years_since_start * 360 <= 4294967295 * 360) by (nonlinear_arith)
                requires 0 <= years_since_start <= 4294967295;
        }
        let total_days: i64 = years_since_start * GAME_DAYS_PER_YEAR + (month - 1) * GAME_DAYS_PER_MONTH + (day - 1);
        proof {
            assert(0 <= total_days <= 4294967295 * 360 + 359);
            assert(total_days * 1440 <= (4294967295 * 360 + 359) * 1440) by (nonlinear_arith)
                requires 0 <= total_days <= 4294967295 * 360 + 359;
        }
        let total_minutes: i64 = total_days * GAME_HOURS_PER_DAY * GAME_MINUTES_PER_HOUR + hour * GAME_MINUTES_PER_HOUR + minute;
        proof {
            assert(total_minutes * 60 <= ((4294967295 * 360 + 359) * 1440 + 1439) * 60) by (nonlinear_arith)
                requires 0 <= total_minutes <= (4294967295 * 360 + 359) * 1440 + 1439;
        }
        total_minutes * 60
    }

    /// The calendar date of a count of game seconds; negative counts clamp to
    /// the epoch.
    pub fn total_game_seconds_to_datetime(total_game_seconds: i64) -> (d: GameDateTime)
        ensures
            d == seconds_datetime_spec(total_game_seconds as int),
    {
        let total_seconds: i64 = if total_game_seconds < 0 { 0 } else { total_game_seconds };
        let total_minutes = total_seconds / 60;
        let total_days = total_minutes / (GAME_HOURS_PER_DAY * GAME_MINUTES_PER_HOUR);
        let minutes_in_day = total_minutes % (GAME_HOURS_PER_DAY * GAME_MINUTES_PER_HOUR);
        let hour = (minutes_in_day / GAME_MINUTES_PER_HOUR) as u8;
        let minute = (minutes_in_day % GAME_MINUTES_PER_HOUR) as u8;
        let year = GAME_START_YEAR + (total_days / GAME_DAYS_PER_YEAR);
        let day_of_year = total_days % GAME_DAYS_PER_YEAR;
        let month = (day_of_year / GAME_DAYS_PER_MONTH) + 1;
        let day = (day_of_year % GAME_DAYS_PER_MONTH) + 1;
        GameDateTime {
            year: year as u32,
            month: month as u8,
            day: day as u8,
            hour,
            minute,
        }
    }
}

proof fn lemma_divmod_unique(x: int, d: int, q: int, r: int)
    requires
        d > 0,
        0 <= r < d,
        x == q * d + r,
    ensures
        x / d == q,
        x % d == r,
{
    vstd::arithmetic::div_mod::lemma_fundamental_div_mod_converse(x, d, q, r);
}

/// A valid date survives the trip through game seconds unchanged.
pub proof fn lemma_datetime_roundtrip(d: GameDateTime)
    requires
        is_valid_datetime(d),
    ensures
        seconds_datetime_spec(datetime_seconds_spec(d)) == d,
{
    let y = d.year as int - GAME_START_YEAR;
    let doy = (d.month as int - 1) * 30 + (d.day as int - 1);
    let days = y * 360 + doy;
    let mins_in_day = d.hour as int * 60 + d.minute as int;
    let minutes = days * 1440 + mins_in_day;
    let s = minutes * 60;
    assert(datetime_seconds_spec(d) == s);
    assert(days >= 0 && minutes >= 0) by (nonlinear_arith)
        requires y >= 0, doy >= 0, days == y * 360 + doy, mins_in_day >= 0, minutes == days * 1440 + mins_in_day;
    lemma_divmod_unique(s, 60, minutes, 0);
    lemma_divmod_unique(minutes, 1440, days, mins_in_day);
    lemma_divmod_unique(days, 360, y, doy);
    lemma_divmod_unique(doy, 30, d.month as int - 1, d.day as int - 1);
    lemma_divmod_unique(mins_in_day, 60, d.hour as int, d.minute as int);
}

/// Converting a non-negative count of game seconds to a date and back
/// rounds it down to a whole game minute (as long as the year fits).
pub proof fn lemma_seconds_roundtrip(total: int)
    requires
        0 <= total < seconds_limit(),
    ensures
        is_valid_datetime(seconds_datetime_spec(total)),
        datetime_seconds_spec(seconds_datetime_spec(total)) == total - total % 60,
{
    let minutes = total / 60;
    let days = minutes / 1440;
    let mid = minutes % 1440;
    let doy = days % 360;
    let years = days / 360;
    assert(total == minutes * 60 + total % 60) by (nonlinear_arith)
        requires minutes == total / 60;
    assert(minutes == days * 1440 + mid) by (nonlinear_arith)
        requires days == minutes / 1440, mid == minutes % 1440;
    assert(days == years * 360 + doy) by (nonlinear_arith)
        requires years == days / 360, doy == days % 360;
    assert(doy == (doy / 30) * 30 + doy % 30) by (nonlinear_arith);
    assert(mid == (mid / 60) * 60 + mid % 60) by (nonlinear_arith);
    assert(0 <= minutes && 0 <= days && 0 <= years) by (nonlinear_arith)
        requires total >= 0, minutes == total / 60, days == minutes / 1440, years == days / 360;
    assert(years <= u32::MAX as int - GAME_START_YEAR) by (nonlinear_arith)
        requires total < (u32::MAX as int - GAME_START_YEAR + 1) * 360 * 86400, total >= 0,
            minutes == total / 60, days == minutes / 1440, years == days / 360;
    assert(0 <= doy < 360 && 0 <= mid < 1440);
    assert(0 <= doy / 30 < 12 && 0 <= mid / 60 < 24);
}

} // verus!
