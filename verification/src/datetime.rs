//! Calendar dates and times, and the MJD/BCD time encodings of ARIB tables.
use vstd::prelude::*;
use std::cmp::Ordering;
use crate::utilities::{be16, bcd_byte_value};

verus! {

// ---------------------------------------------------------------------------
// Integer arithmetic as `i32`/`i64` compute it
// ---------------------------------------------------------------------------

/// Division rounding toward zero (the division of Rust's signed integers).
pub open spec fn tdiv(a: int, b: int) -> int
    recommends
        b > 0,
{
    if a >= 0 {
        a / b
    } else {
        -((-a) / b)
    }
}

/// Whether `v` fits an `i32`.
pub open spec fn fits_i32(v: int) -> bool {
    i32::MIN <= v <= i32::MAX
}

/// `v` clamped to the range of `i32`.
pub open spec fn clamp_i32(v: int) -> int {
    if v > i32::MAX {
        i32::MAX as int
    } else if v < i32::MIN {
        i32::MIN as int
    } else {
        v
    }
}

// ---------------------------------------------------------------------------
// Calendar
// ---------------------------------------------------------------------------

/// Whether `year` is a leap year of the Gregorian calendar.
pub open spec fn leap(year: int) -> bool {
    year % 4 == 0 && (year % 100 != 0 || year % 400 == 0)
}

/// Whether `year` is a leap year.
pub fn is_leap_year(year: i32) -> (r: bool)
    ensures
        r == leap(year as int),
{
    (year % 4 == 0) && ((year % 100 != 0) || (year % 400 == 0))
}

/// The days of the months before `month` (2 to 12) in a common year.
pub open spec fn days_before_month(month: int) -> int {
    seq![31int, 59, 90, 120, 151, 181, 212, 243, 273, 304, 334][month - 2]
}

/// The zero-based day of the year of a date, for months 1 to 12.
pub open spec fn day_of_year(year: int, month: int, day: int) -> int {
    day - 1 + if month >= 2 { days_before_month(month) } else { 0 } + if month >= 3 && leap(year) { 1int } else { 0int }
}

/// The zero-based day of the year; `None` for a month outside 1 to 12.
pub fn get_day_of_year(year: i32, month: i32, day: i32) -> (r: Option<i32>)
    requires
        1 <= month <= 12 ==> day > i32::MIN && fits_i32(day_of_year(year as int, month as int, day as int)),
    ensures
        r == (if 1 <= month <= 12 { Some(day_of_year(year as int, month as int, day as int) as i32) } else { None }),
{
    if month < 1 || month > 12 {
        return None;
    }
    let table: [i32; 11] = [31, 59, 90, 120, 151, 181, 212, 243, 273, 304, 334];
    assert(table@ =~= seq![31i32, 59, 90, 120, 151, 181, 212, 243, 273, 304, 334]);
    let mut yd = day - 1;
    if month >= 2 {
        yd = yd + table[(month - 2) as usize];
        if month >= 3 && is_leap_year(year) {
            yd = yd + 1;
        }
    }
    Some(yd)
}

/// The year and month counted from March (January and February belong to the previous year, as months 13 and 14).
pub open spec fn march_based(year: int, month: int) -> (int, int) {
    if month <= 2 {
        (year - 1, month + 12)
    } else {
        (year, month)
    }
}

/// The day count whose remainder by seven is the day of the week (0 = Sunday).
pub open spec fn weekday_sum(year: int, month: int, day: int) -> int {
    let (y, m) = march_based(year, month);
    y * 365 + tdiv(y, 4) - tdiv(y, 100) + tdiv(y, 400) + tdiv(306 * (m + 1), 10) + day - 428
}

/// The day of the week of a date, 0 = Sunday to 6 = Saturday.
pub open spec fn weekday(year: int, month: int, day: int) -> int {
    weekday_sum(year, month, day) % 7
}

/// Whether the day of the week of a date can be computed in `i32` arithmetic.
pub open spec fn weekday_in_range(year: int, month: int, day: int) -> bool {
    let (y, m) = march_based(year, month);
    let p1 = y * 365;
    let p2 = p1 + tdiv(y, 4);
    let p3 = p2 - tdiv(y, 100);
    let p4 = p3 + tdiv(y, 400);
    let q = 306 * (m + 1);
    let p5 = p4 + tdiv(q, 10);
    let p6 = p5 + day;
    &&& fits_i32(y)
    &&& fits_i32(m + 1)
    &&& fits_i32(p1)
    &&& fits_i32(p2)
    &&& fits_i32(p3)
    &&& fits_i32(p4)
    &&& fits_i32(q)
    &&& fits_i32(p5)
    &&& fits_i32(p6)
    &&& fits_i32(p6 - 428)
}

/// The day of the week (0 = Sunday to 6 = Saturday) of a Gregorian date.
pub fn get_day_of_week(year: i32, month: i32, day: i32) -> (r: i32)
    requires
        weekday_in_range(year as int, month as int, day as int),
    ensures
        r == weekday(year as int, month as int, day as int),
        0 <= r < 7,
{
    let (y, m) = if month <= 2 { (year - 1, month + 12) } else { (year, month) };
    let ghost (yy, mm) = march_based(year as int, month as int);
    assert(y == yy && m == mm);
    let p1 = y * 365;
    let p2 = p1 + y / 4;
    let p3 = p2 - y / 100;
    let p4 = p3 + y / 400;
    let q = 306 * (m + 1);
    let p5 = p4 + q / 10;
    let p6 = p5 + day;
    let s = p6 - 428;
    assert(s == weekday_sum(year as int, month as int, day as int));
    (s % 7 + 7) % 7
}

// ---------------------------------------------------------------------------
// Date and time
// ---------------------------------------------------------------------------

/// A calendar date and time of day.
#[derive(Debug, Clone, Copy, PartialEq, Eq, Structural)]
pub struct DateTime {
    pub year: i32,
    pub month: i32,
    pub day: i32,
    pub day_of_week: i32,
    pub hour: i32,
    pub minute: i32,
    pub second: i32,
    pub millisecond: i32,
}

/// The date and time with every field zero.
pub open spec fn zero_datetime() -> DateTime {
    DateTime { year: 0, month: 0, day: 0, day_of_week: 0, hour: 0, minute: 0, second: 0, millisecond: 0 }
}

/// Whether every field lies in its range (the day only within 1 to 31).
pub open spec fn datetime_valid(dt: DateTime) -> bool {
    &&& dt.year >= 1
    &&& 1 <= dt.month <= 12
    &&& 1 <= dt.day <= 31
    &&& 0 <= dt.day_of_week <= 6
    &&& 0 <= dt.hour <= 23
    &&& 0 <= dt.minute <= 59
    &&& 0 <= dt.second <= 60
    &&& 0 <= dt.millisecond <= 999
}

/// The Julian day number of a Gregorian date.
pub open spec fn julian_day(year: int, month: int, day: int) -> int {
    let (y, m) = march_based(year, month);
    let a = tdiv(y, 100);
    let b = 2 - a + tdiv(a, 4);
    tdiv(1461 * (y + 4716), 4) + tdiv(306001 * (m + 1), 10000) + day + b - 1524
}

/// Days from 1970-01-01 to the date.
pub open spec fn days_since_epoch(dt: DateTime) -> int {
    julian_day(dt.year as int, dt.month as int, dt.day as int) - 2440588
}

/// Whether the linear clock is zero: dates before 1970 are not counted.
pub open spec fn before_epoch(dt: DateTime) -> bool {
    dt.year < 1970 || days_since_epoch(dt) < 0
}

/// Seconds from 1970-01-01 00:00:00 to the date and time (zero before 1970), as an integer.
pub open spec fn linear_seconds_int(dt: DateTime) -> int {
    if before_epoch(dt) {
        0
    } else {
        days_since_epoch(dt) * 86400 + dt.hour * 3600 + dt.minute * 60 + dt.second
    }
}

/// Whether the linear seconds can be computed without overflow: hours and minutes are
/// not negative, and a negative second does not exceed the rest of the count.
pub open spec fn linear_seconds_defined(dt: DateTime) -> bool {
    before_epoch(dt) || {
        &&& dt.hour >= 0
        &&& dt.minute >= 0
        &&& (dt.second >= 0 || days_since_epoch(dt) * 86400 + dt.hour * 3600 + dt.minute * 60 < -dt.second)
    }
}

/// `v` modulo 2^64, for `v` above `-2^64`.
pub open spec fn wrap_u64(v: int) -> u64 {
    if v < 0 {
        (v + 0x1_0000_0000_0000_0000) as u64
    } else {
        v as u64
    }
}

/// The linear seconds as the `u64` computed (a negative count wraps around).
pub open spec fn linear_seconds(dt: DateTime) -> u64 {
    wrap_u64(linear_seconds_int(dt))
}

/// Whether the linear milliseconds can be computed without overflow.
pub open spec fn linear_milliseconds_defined(dt: DateTime) -> bool {
    let s = linear_seconds(dt) as int * 1000;
    &&& linear_seconds_defined(dt)
    &&& s <= u64::MAX
    &&& if dt.millisecond >= 0 { s + dt.millisecond <= u64::MAX } else { s < -dt.millisecond }
}

/// The linear milliseconds as the `u64` computed.
pub open spec fn linear_milliseconds(dt: DateTime) -> u64 {
    wrap_u64(linear_seconds(dt) as int * 1000 + dt.millisecond)
}

/// Milliseconds from 1970-01-01 as an integer, with no wrapping.
pub open spec fn linear_ms_int(dt: DateTime) -> int {
    linear_seconds_int(dt) * 1000 + dt.millisecond
}

/// The date of day number `g` of the Julian period: (year, month, day), the year as the `i32` computed.
pub open spec fn date_of_day(g: int) -> (int, int, int) {
    let a = g + 32044;
    let b = (4 * a + 3) / 146097;
    let c = a - (146097 * b) / 4;
    let d = (4 * c + 3) / 1461;
    let e = c - (1461 * d) / 4;
    let m = (5 * e + 2) / 153;
    (((100 * b + d - 4800 + m / 10) as i32) as int, m + 3 - 12 * (m / 10), e - (153 * m + 2) / 5 + 1)
}

/// The date of `seconds` after 1970-01-01 00:00:00.
pub open spec fn date_of_seconds(seconds: u64) -> (int, int, int) {
    date_of_day(seconds / 86400 + 2440588)
}

/// Whether the date of `seconds` has a computable day of the week.
pub open spec fn from_seconds_defined(seconds: u64) -> bool {
    let (y, m, d) = date_of_seconds(seconds);
    weekday_in_range(y, m, d)
}

/// The date and time `seconds` after 1970-01-01 00:00:00, with its day of the week.
pub open spec fn datetime_of_seconds(seconds: u64) -> DateTime {
    let (y, m, d) = date_of_seconds(seconds);
    let s = seconds % 86400;
    DateTime {
        year: y as i32,
        month: m as i32,
        day: d as i32,
        day_of_week: weekday(y, m, d) as i32,
        hour: (s / 3600) as i32,
        minute: ((s % 3600) / 60) as i32,
        second: (s % 60) as i32,
        millisecond: 0,
    }
}

/// The date and time `ms` milliseconds after 1970-01-01 00:00:00.
pub open spec fn datetime_of_milliseconds(ms: u64) -> DateTime {
    DateTime { millisecond: (ms % 1000) as i32, ..datetime_of_seconds(ms / 1000) }
}

/// Which of two date-times comes first by their linear milliseconds: -1, 0 or 1.
pub open spec fn order_of(a: DateTime, b: DateTime) -> int {
    let d = linear_ms_int(a) - linear_ms_int(b);
    if d < 0 {
        -1
    } else if d > 0 {
        1
    } else {
        0
    }
}

fn date_of_day_exec(g: u64) -> (r: (i32, i32, i32))
    requires
        g <= u64::MAX / 86400 + 2440588,
    ensures
        (r.0 as int, r.1 as int, r.2 as int) == date_of_day(g as int),
{
    let g = g as i64;
    let a = g + 32044;
    let b = (4 * a + 3) / 146097;
    let c = a - (146097 * b) / 4;
    let d = (4 * c + 3) / 1461;
    let e = c - (1461 * d) / 4;
    let m = (5 * e + 2) / 153;
    proof {
        assert(0 <= b <= 0x1000000000);
        assert(0 <= c < 146097) by (nonlinear_arith)
            requires
                a >= 0,
                b == (4 * a + 3) / 146097,
                c == a - (146097 * b) / 4,
        {
        }
        assert(0 <= d <= 400);
        assert(0 <= e <= 400) by (nonlinear_arith)
            requires
                0 <= c < 146097,
                d == (4 * c + 3) / 1461,
                e == c - (1461 * d) / 4,
        {
        }
        assert(0 <= m <= 14);
    }
    let day = (e - (153 * m + 2) / 5 + 1) as i32;
    let month = (m + 3 - 12 * (m / 10)) as i32;
    let year = (100 * b + d - 4800 + m / 10) as i32;
    (year, month, day)
}

impl DateTime {
    /// The date and time with every field zero.
    pub fn new() -> (r: Self)
        ensures
            r == zero_datetime(),
    {
        DateTime { year: 0, month: 0, day: 0, day_of_week: 0, hour: 0, minute: 0, second: 0, millisecond: 0 }
    }

    /// Sets every field to zero.
    pub fn reset(&mut self)
        ensures
            *final(self) == zero_datetime(),
    {
        *self = DateTime::new();
    }

    /// Whether every field lies in its range.
    pub fn is_valid(&self) -> (r: bool)
        ensures
            r == datetime_valid(*self),
    {
        self.year >= 1 && 1 <= self.month && self.month <= 12 && 1 <= self.day && self.day <= 31
            && 0 <= self.day_of_week && self.day_of_week <= 6 && 0 <= self.hour && self.hour <= 23
            && 0 <= self.minute && self.minute <= 59 && 0 <= self.second && self.second <= 60
            && 0 <= self.millisecond && self.millisecond <= 999
    }

    fn days_since_epoch_exec(&self) -> (r: i64)
        ensures
            r == days_since_epoch(*self),
    {
        let y = self.year as i64;
        let m = self.month as i64;
        let d = self.day as i64;
        let (y2, m2) = if m <= 2 { (y - 1, m + 12) } else { (y, m) };
        let a = y2 / 100;
        let a4 = a / 4;
        let b = 2 - a + a4;
        let t1 = (1461 * (y2 + 4716)) / 4;
        let t2 = (306001 * (m2 + 1)) / 10000;
        let jdn = t1 + t2 + d + b - 1524;
        proof {
            let (yy, mm) = march_based(self.year as int, self.month as int);
            assert(yy == y2 && mm == m2);
            assert(a == tdiv(yy, 100));
            assert(a4 == tdiv(a as int, 4));
            assert(t2 == tdiv(306001 * (mm + 1), 10000));
            assert(t1 == tdiv(1461 * (yy + 4716), 4));
        }
        jdn - 2440588
    }

    /// Seconds from 1970-01-01 00:00:00 (zero for dates before 1970).
    pub fn get_linear_seconds(&self) -> (r: u64)
        requires
            linear_seconds_defined(*self),
        ensures
            r == linear_seconds(*self),
    {
        if self.year < 1970 {
            return 0;
        }
        let days = self.days_since_epoch_exec();
        if days < 0 {
            return 0;
        }
        let base = days as u64 * 86400 + self.hour as u64 * 3600 + self.minute as u64 * 60;
        proof {
            assert(!before_epoch(*self));
            assert(linear_seconds_int(*self) == base as int + self.second as int);
        }
        if self.second >= 0 {
            base + self.second as u64
        } else {
            let s = self.second;
            let neg = (0 - (s as i64)) as u64;
            proof {
                assert(base < neg);
            }
            let r = u64::MAX - (neg - base - 1);
            proof {
                assert(r as int == base as int + s as int + 0x1_0000_0000_0000_0000);
                assert(linear_seconds_int(*self) == base as int + s as int);
            }
            r
        }
    }

    /// Milliseconds from 1970-01-01 00:00:00 (zero-based seconds before 1970, plus the milliseconds).
    pub fn get_linear_milliseconds(&self) -> (r: u64)
        requires
            linear_milliseconds_defined(*self),
        ensures
            r == linear_milliseconds(*self),
    {
        let s = self.get_linear_seconds() * 1000;
        if self.millisecond >= 0 {
            s + self.millisecond as u64
        } else {
            let neg = (0 - (self.millisecond as i64)) as u64;
            let r = u64::MAX - (neg - s - 1);
            assert(r as int == s as int + self.millisecond as int + 0x1_0000_0000_0000_0000);
            r
        }
    }

    /// `self` minus `other` in seconds.
    pub fn diff_seconds(&self, other: &DateTime) -> (r: i64)
        requires
            linear_seconds_defined(*self),
            linear_seconds_defined(*other),
            fits_i64((linear_seconds(*self) as i64) as int - (linear_seconds(*other) as i64) as int),
        ensures
            r == (linear_seconds(*self) as i64) as int - (linear_seconds(*other) as i64) as int,
    {
        self.get_linear_seconds() as i64 - other.get_linear_seconds() as i64
    }

    /// `self` minus `other` in milliseconds.
    pub fn diff_milliseconds(&self, other: &DateTime) -> (r: i64)
        requires
            linear_milliseconds_defined(*self),
            linear_milliseconds_defined(*other),
            fits_i64((linear_milliseconds(*self) as i64) as int - (linear_milliseconds(*other) as i64) as int),
        ensures
            r == (linear_milliseconds(*self) as i64) as int - (linear_milliseconds(*other) as i64) as int,
    {
        self.get_linear_milliseconds() as i64 - other.get_linear_milliseconds() as i64
    }

    /// Compares by linear milliseconds: negative, zero or positive as `self` is before, at or after `other`.
    pub fn compare(&self, other: &DateTime) -> (r: i32)
        requires
            linear_milliseconds_defined(*self),
            linear_milliseconds_defined(*other),
            fits_i64((linear_milliseconds(*self) as i64) as int - (linear_milliseconds(*other) as i64) as int),
        ensures
            ({
                let d = (linear_milliseconds(*self) as i64) as int - (linear_milliseconds(*other) as i64) as int;
                r == (if d < 0 { -1int } else if d > 0 { 1int } else { 0int })
            }),
    {
        let d = self.diff_milliseconds(other);
        if d < 0 {
            -1
        } else if d > 0 {
            1
        } else {
            0
        }
    }

    /// The date and time `seconds` after 1970-01-01 00:00:00.
    pub fn from_linear_seconds(seconds: u64) -> (r: DateTime)
        requires
            from_seconds_defined(seconds),
        ensures
            r == datetime_of_seconds(seconds),
    {
        let s_of_day = (seconds % 86400) as i32;
        let total_days = seconds / 86400;
        let g = total_days + 2440588;
        let (year, month, day) = date_of_day_exec(g);
        let hour = s_of_day / 3600;
        let minute = (s_of_day % 3600) / 60;
        let second = s_of_day % 60;
        let dow = get_day_of_week(year, month, day);
        DateTime { year, month, day, day_of_week: dow, hour, minute, second, millisecond: 0 }
    }

    /// The date and time `ms` milliseconds after 1970-01-01 00:00:00.
    pub fn from_linear_milliseconds(ms: u64) -> (r: DateTime)
        requires
            from_seconds_defined(ms / 1000),
        ensures
            r == datetime_of_milliseconds(ms),
    {
        let mut dt = Self::from_linear_seconds(ms / 1000);
        dt.millisecond = (ms % 1000) as i32;
        dt
    }

    /// The date and time `seconds` later; `None` when that falls before 1970.
    pub fn offset_seconds(&self, seconds: i64) -> (r: Option<DateTime>)
        requires
            linear_seconds_defined(*self),
            fits_i64((linear_seconds(*self) as i64) as int + seconds),
            (linear_seconds(*self) as i64) as int + seconds >= 0
                ==> from_seconds_defined(((linear_seconds(*self) as i64) as int + seconds) as u64),
        ensures
            ({
                let lin = (linear_seconds(*self) as i64) as int + seconds;
                r == (if lin < 0 { None } else { Some(datetime_of_seconds(lin as u64)) })
            }),
    {
        let lin = self.get_linear_seconds() as i64 + seconds;
        if lin < 0 {
            return None;
        }
        Some(DateTime::from_linear_seconds(lin as u64))
    }

    /// The date and time `ms` milliseconds later; `None` when that falls before 1970.
    pub fn offset_milliseconds(&self, ms: i64) -> (r: Option<DateTime>)
        requires
            linear_milliseconds_defined(*self),
            fits_i64((linear_milliseconds(*self) as i64) as int + ms),
            (linear_milliseconds(*self) as i64) as int + ms >= 0
                ==> from_seconds_defined((((linear_milliseconds(*self) as i64) as int + ms) as u64) / 1000),
        ensures
            ({
                let lin = (linear_milliseconds(*self) as i64) as int + ms;
                r == (if lin < 0 { None } else { Some(datetime_of_milliseconds(lin as u64)) })
            }),
    {
        let lin = self.get_linear_milliseconds() as i64 + ms;
        if lin < 0 {
            return None;
        }
        Some(DateTime::from_linear_milliseconds(lin as u64))
    }

    /// Sets the day of the week from the date, when every field is in range.
    pub fn set_day_of_week(&mut self)
        requires
            datetime_valid(*old(self)) ==> weekday_in_range(old(self).year as int, old(self).month as int, old(self).day as int),
        ensures
            *final(self) == (if datetime_valid(*old(self)) {
                DateTime { day_of_week: weekday(old(self).year as int, old(self).month as int, old(self).day as int) as i32, ..*old(self) }
            } else {
                *old(self)
            }),
    {
        if self.is_valid() {
            self.day_of_week = get_day_of_week(self.year, self.month, self.day);
        }
    }

    /// Drops the milliseconds.
    pub fn truncate_to_seconds(&mut self)
        ensures
            *final(self) == (DateTime { millisecond: 0, ..*old(self) }),
    {
        self.millisecond = 0;
    }

    /// Drops the seconds and milliseconds.
    pub fn truncate_to_minutes(&mut self)
        ensures
            *final(self) == (DateTime { second: 0, millisecond: 0, ..*old(self) }),
    {
        self.second = 0;
        self.millisecond = 0;
    }

    /// Drops the minutes, seconds and milliseconds.
    pub fn truncate_to_hours(&mut self)
        ensures
            *final(self) == (DateTime { minute: 0, second: 0, millisecond: 0, ..*old(self) }),
    {
        self.minute = 0;
        self.second = 0;
        self.millisecond = 0;
    }

    /// Drops the time of day.
    pub fn truncate_to_days(&mut self)
        ensures
            *final(self) == (DateTime { hour: 0, minute: 0, second: 0, millisecond: 0, ..*old(self) }),
    {
        self.hour = 0;
        self.minute = 0;
        self.second = 0;
        self.millisecond = 0;
    }

    /// -1, 0 or 1 as `self` is before, at or after `other` by linear milliseconds.
    pub fn order_code(&self, other: &DateTime) -> (r: i8)
        ensures
            r as int == order_of(*self, *other),
    {
        let a = self.linear_ms_wide();
        let b = other.linear_ms_wide();
        if a < b {
            -1
        } else if a > b {
            1
        } else {
            0
        }
    }

    fn linear_ms_wide(&self) -> (r: i128)
        ensures
            r == linear_ms_int(*self),
    {
        if self.year < 1970 {
            return self.millisecond as i128;
        }
        let days = self.days_since_epoch_exec();
        if days < 0 {
            return self.millisecond as i128;
        }
        let secs = days as i128 * 86400 + self.hour as i128 * 3600 + self.minute as i128 * 60 + self.second as i128;
        secs * 1000 + self.millisecond as i128
    }
}

/// Whether `v` fits an `i64`.
pub open spec fn fits_i64(v: int) -> bool {
    i64::MIN <= v <= i64::MAX
}

impl Default for DateTime {
    fn default() -> (r: Self)
        ensures
            r == zero_datetime(),
    {
        DateTime::new()
    }
}

impl PartialOrd for DateTime {
    fn partial_cmp(&self, other: &Self) -> (r: Option<Ordering>) {
        let c = self.order_code(other);
        if c < 0 {
            Some(Ordering::Less)
        } else if c > 0 {
            Some(Ordering::Greater)
        } else {
            Some(Ordering::Equal)
        }
    }
}

impl vstd::std_specs::cmp::PartialOrdSpecImpl for DateTime {
    open spec fn obeys_partial_cmp_spec() -> bool {
        true
    }

    open spec fn partial_cmp_spec(&self, other: &Self) -> Option<Ordering> {
        let c = order_of(*self, *other);
        if c < 0 {
            Some(Ordering::Less)
        } else if c > 0 {
            Some(Ordering::Greater)
        } else {
            Some(Ordering::Equal)
        }
    }
}

// ---------------------------------------------------------------------------
// ARIB time encodings: BCD times and Modified Julian Dates
// ---------------------------------------------------------------------------

/// Decodes one BCD byte.
pub fn get_bcd(v: u8) -> (r: u8)
    ensures
        r as int == bcd_byte_value(v),
{
    (v / 16) * 10 + v % 16
}

/// The BCD byte made from `v`: its tens in the high nibble (kept modulo 16) and its units in the low nibble.
pub open spec fn bcd_of(v: u32) -> u8 {
    (((v as int / 10) % 16) * 16 + v as int % 10) as u8
}

/// Encodes `v` as one BCD byte.
pub fn make_bcd(v: u32) -> (r: u8)
    ensures
        r == bcd_of(v),
{
    (((v / 10) % 16) * 16 + v % 10) as u8
}

/// Reads two bytes most significant first.
pub fn load16_be(data: &[u8]) -> (r: u16)
    requires
        data@.len() >= 2,
    ensures
        r as int == be16(data@[0], data@[1]),
{
    data[0] as u16 * 0x100 + data[1] as u16
}

/// Decodes three BCD bytes into hours, minutes and seconds.
pub fn parse_bcd_time(bcd: &[u8]) -> (r: (i32, i32, i32))
    requires
        bcd@.len() >= 3,
    ensures
        r.0 as int == bcd_byte_value(bcd@[0]),
        r.1 as int == bcd_byte_value(bcd@[1]),
        r.2 as int == bcd_byte_value(bcd@[2]),
{
    (get_bcd(bcd[0]) as i32, get_bcd(bcd[1]) as i32, get_bcd(bcd[2]) as i32)
}

/// Encodes hours, minutes and seconds as three BCD bytes.
pub fn make_bcd_time(hour: i32, minute: i32, second: i32) -> (r: [u8; 3])
    ensures
        r@ == seq![bcd_of(hour as u32), bcd_of(minute as u32), bcd_of(second as u32)],
{
    let r = [make_bcd(hour as u32), make_bcd(minute as u32), make_bcd(second as u32)];
    assert(r@ =~= seq![bcd_of(hour as u32), bcd_of(minute as u32), bcd_of(second as u32)]);
    r
}

/// The seconds of a BCD time of day; zero for the undefined time (all bits set).
pub open spec fn bcd_time_seconds(b: Seq<u8>) -> int {
    if b[0] == 0xFF && b[1] == 0xFF && b[2] == 0xFF {
        0
    } else {
        bcd_byte_value(b[0]) * 3600 + bcd_byte_value(b[1]) * 60 + bcd_byte_value(b[2])
    }
}

/// Converts a three-byte BCD time of day to seconds; zero for the undefined time.
pub fn bcd_time_to_second(bcd: &[u8]) -> (r: u32)
    requires
        bcd@.len() >= 3,
    ensures
        r as int == bcd_time_seconds(bcd@),
{
    if bcd[0] == 0xFF && bcd[1] == 0xFF && bcd[2] == 0xFF {
        return 0;
    }
    get_bcd(bcd[0]) as u32 * 3600 + get_bcd(bcd[1]) as u32 * 60 + get_bcd(bcd[2]) as u32
}

/// The minutes of a BCD hour-and-minute value (four nibbles: hour tens, hour units, minute tens, minute units).
pub open spec fn bcd_hm_minutes(bcd: u16) -> int {
    let n3 = bcd as int / 4096;
    let n2 = (bcd as int / 256) % 16;
    let n1 = (bcd as int / 16) % 16;
    let n0 = bcd as int % 16;
    (n3 * 10 + n2) * 60 + n1 * 10 + n0
}

/// Converts a BCD hour-and-minute value to minutes.
pub fn bcd_time_hm_to_minute(bcd: u16) -> (r: u16)
    ensures
        r as int == bcd_hm_minutes(bcd),
{
    let n3 = bcd / 4096;
    let n2 = (bcd / 256) % 16;
    let n1 = (bcd / 16) % 16;
    let n0 = bcd % 16;
    (n3 * 10 + n2) * 60 + n1 * 10 + n0
}

/// The date of a Modified Julian Date: (year, month, day, day of week with 0 = Sunday).
pub open spec fn mjd_date(mjd: int) -> (int, int, int, int) {
    let yd = tdiv(20 * mjd - 301564, 7305);
    let t = tdiv(1461 * yd, 4);
    let md = tdiv(10000 * (mjd - t) - 149561000, 306001);
    let k = if md == 14 || md == 15 { 1int } else { 0int };
    (yd + k + 1900, md - 1 - k * 12, mjd - 14956 - t - tdiv(306001 * md, 10000), (mjd + 3) % 7)
}

/// Converts a Modified Julian Date to year, month, day and day of the week (0 = Sunday).
pub fn parse_mjd_time(mjd: u16) -> (r: (i32, i32, i32, i32))
    ensures
        (r.0 as int, r.1 as int, r.2 as int, r.3 as int) == mjd_date(mjd as int),
{
    let m = mjd as i32;
    let yd = (20 * m - 301564) / 7305;
    proof {
        assert(-42 <= yd <= 139);
    }
    let t = (1461 * yd) / 4;
    let md = (10000 * (m - t) - 149561000) / 306001;
    proof {
        assert(-1000 <= md <= 1000);
    }
    let k = if md == 14 || md == 15 { 1 } else { 0 };
    let day = m - 14956 - t - (306001 * md) / 10000;
    (yd + k + 1900, md - 1 - k * 12, day, (m + 3) % 7)
}

/// The sum whose low 16 bits are the Modified Julian Date of a date (the two products saturate as `i32`).
pub open spec fn mjd_sum(year: int, month: int, day: int) -> int {
    let (y, m) = march_based(year, month);
    let p1 = clamp_i32(tdiv(1461 * y, 4)) + tdiv(y, 400);
    let p2 = p1 - tdiv(y, 100);
    let p3 = p2 + clamp_i32(tdiv(3059 * (m - 2), 100));
    p3 + day - 678912
}

/// Whether the Modified Julian Date of a date can be computed in `i32` arithmetic.
pub open spec fn mjd_in_range(year: int, month: int, day: int) -> bool {
    let (y, m) = march_based(year, month);
    let p1 = clamp_i32(tdiv(1461 * y, 4)) + tdiv(y, 400);
    let p2 = p1 - tdiv(y, 100);
    let p3 = p2 + clamp_i32(tdiv(3059 * (m - 2), 100));
    &&& fits_i32(y)
    &&& fits_i32(p1)
    &&& fits_i32(p2)
    &&& fits_i32(p3)
    &&& fits_i32(p3 + day)
    &&& fits_i32(p3 + day - 678912)
}

fn clamp_to_i32(v: i64) -> (r: i32)
    ensures
        r as int == clamp_i32(v as int),
{
    if v > i32::MAX as i64 {
        i32::MAX
    } else if v < i32::MIN as i64 {
        i32::MIN
    } else {
        v as i32
    }
}

/// Converts a date to its Modified Julian Date (kept to 16 bits).
pub fn make_mjd_time(year: i32, month: i32, day: i32) -> (r: u16)
    requires
        mjd_in_range(year as int, month as int, day as int),
    ensures
        r == mjd_sum(year as int, month as int, day as int) as u16,
{
    let (y, m) = if month <= 2 { (year - 1, month + 12) } else { (year, month) };
    let a = clamp_to_i32((1461 * (y as i64)) / 4);
    let c = clamp_to_i32((3059 * ((m - 2) as i64)) / 100);
    let p1 = a + y / 400;
    let p2 = p1 - y / 100;
    let p3 = p2 + c;
    (p3 + day - 678912) as u16
}

/// The date and time of a five-byte MJD and BCD time; `None` for the undefined value (all bits set).
pub open spec fn mjd_bcd_datetime(d: Seq<u8>) -> Option<DateTime> {
    if d[0] == 0xFF && d[1] == 0xFF && d[2] == 0xFF && d[3] == 0xFF && d[4] == 0xFF {
        None
    } else {
        let (y, m, dd, w) = mjd_date(be16(d[0], d[1]));
        Some(DateTime {
            year: y as i32,
            month: m as i32,
            day: dd as i32,
            day_of_week: w as i32,
            hour: bcd_byte_value(d[2]) as i32,
            minute: bcd_byte_value(d[3]) as i32,
            second: bcd_byte_value(d[4]) as i32,
            millisecond: 0,
        })
    }
}

/// Converts a five-byte MJD and BCD time to a date and time; `None` when shorter than
/// five bytes or undefined.
pub fn mjd_bcd_to_datetime(data: &[u8]) -> (r: Option<DateTime>)
    ensures
        r == (if data@.len() < 5 { None } else { mjd_bcd_datetime(data@) }),
{
    if data.len() < 5 {
        return None;
    }
    if data[0] == 0xFF && data[1] == 0xFF && data[2] == 0xFF && data[3] == 0xFF && data[4] == 0xFF {
        return None;
    }
    let mjd = load16_be(data);
    let (year, month, day, day_of_week) = parse_mjd_time(mjd);
    let (hour, minute, second) = parse_bcd_time(crate::ts_packet::slice_from(data, 2));
    Some(DateTime { year, month, day, day_of_week, hour, minute, second, millisecond: 0 })
}

/// The date of a Modified Julian Date, at midnight.
pub open spec fn mjd_datetime(mjd: u16) -> DateTime {
    let (y, m, d, w) = mjd_date(mjd as int);
    DateTime { year: y as i32, month: m as i32, day: d as i32, day_of_week: w as i32, hour: 0, minute: 0, second: 0, millisecond: 0 }
}

/// Converts a Modified Julian Date to a date at midnight.
pub fn mjd_to_datetime(mjd: u16) -> (r: DateTime)
    ensures
        r == mjd_datetime(mjd),
{
    let (year, month, day, day_of_week) = parse_mjd_time(mjd);
    DateTime { year, month, day, day_of_week, hour: 0, minute: 0, second: 0, millisecond: 0 }
}

/// Converts the date of a date and time to its Modified Julian Date.
pub fn datetime_to_mjd(dt: &DateTime) -> (r: u16)
    requires
        mjd_in_range(dt.year as int, dt.month as int, dt.day as int),
    ensures
        r == mjd_sum(dt.year as int, dt.month as int, dt.day as int) as u16,
{
    make_mjd_time(dt.year, dt.month, dt.day)
}

/// Decoding the BCD time made from hours, minutes and seconds below 100 gives them back.
pub proof fn lemma_bcd_time_roundtrip(hour: i32, minute: i32, second: i32)
    requires
        0 <= hour <= 99,
        0 <= minute <= 99,
        0 <= second <= 99,
    ensures
        bcd_byte_value(bcd_of(hour as u32)) == hour,
        bcd_byte_value(bcd_of(minute as u32)) == minute,
        bcd_byte_value(bcd_of(second as u32)) == second,
{
}

} // verus!
