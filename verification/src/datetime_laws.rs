//! Laws of the calendar arithmetic: the linear clock of a date and time reads
//! back as that date and time.
use vstd::prelude::*;
use vstd::arithmetic::div_mod::{lemma_fundamental_div_mod, lemma_fundamental_div_mod_converse};
use crate::datetime::{
    DateTime, clamp_i32, mjd_date, mjd_in_range, mjd_sum, date_of_day, datetime_of_seconds, days_since_epoch, from_seconds_defined, julian_day, leap,
    linear_seconds, linear_seconds_defined, march_based, tdiv, weekday_in_range,
};

verus! {

/// The number of days of `month` (1 to 12) of `year`.
pub open spec fn days_in_month(year: int, month: int) -> int {
    if month == 2 {
        if leap(year) {
            29
        } else {
            28
        }
    } else if month == 4 || month == 6 || month == 9 || month == 11 {
        30
    } else {
        31
    }
}

/// The days before month `mp` of a year counted from March (0 = March).
pub open spec fn days_before_march_month(mp: int) -> int {
    (153 * mp + 2) / 5
}

/// `x / k` is `q` when `x` is `q * k` plus a remainder below `k`.
proof fn lemma_div_is(x: int, k: int, q: int)
    requires
        k > 0,
        q * k <= x < q * k + k,
    ensures
        x / k == q,
{
    lemma_fundamental_div_mod_converse(x, k, q, x - q * k);
}

/// The month day counts of a year counted from March: for each month `mp`,
/// the first day of the next month is where `(5 * doy + 2) / 153` steps on.
proof fn lemma_march_month_of_day(mp: int, d: int, len: int)
    requires
        0 <= mp <= 11,
        len == (if mp == 11 { 29int } else if mp == 1 || mp == 3 || mp == 6 || mp == 8 { 30int } else { 31int }),
        1 <= d <= len,
    ensures
        (5 * (days_before_march_month(mp) + d - 1) + 2) / 153 == mp,
{
    let doy = days_before_march_month(mp) + d - 1;
    if mp == 0 {
        lemma_div_is(5 * doy + 2, 153, 0);
    } else if mp == 1 {
        lemma_div_is(5 * doy + 2, 153, 1);
    } else if mp == 2 {
        lemma_div_is(5 * doy + 2, 153, 2);
    } else if mp == 3 {
        lemma_div_is(5 * doy + 2, 153, 3);
    } else if mp == 4 {
        lemma_div_is(5 * doy + 2, 153, 4);
    } else if mp == 5 {
        lemma_div_is(5 * doy + 2, 153, 5);
    } else if mp == 6 {
        lemma_div_is(5 * doy + 2, 153, 6);
    } else if mp == 7 {
        lemma_div_is(5 * doy + 2, 153, 7);
    } else if mp == 8 {
        lemma_div_is(5 * doy + 2, 153, 8);
    } else if mp == 9 {
        lemma_div_is(5 * doy + 2, 153, 9);
    } else if mp == 10 {
        lemma_div_is(5 * doy + 2, 153, 10);
    } else {
        lemma_div_is(5 * doy + 2, 153, 11);
    }
}

/// The day count of the Julian period, written with the days since 1 March of
/// year -4800: with `yy` the March-based year plus 4800 and `mp` the month
/// counted from March.
proof fn lemma_julian_day_parts(year: int, month: int, day: int)
    requires
        year >= 1,
        1 <= month <= 12,
    ensures
        ({
            let (y, m) = march_based(year, month);
            let yy = y + 4800;
            let mp = m - 3;
            julian_day(year, month, day) + 32044
                == 365 * yy + yy / 4 - yy / 100 + yy / 400 + days_before_march_month(mp) + day - 1
        }),
{
    let (y, m) = march_based(year, month);
    let yy = y + 4800;
    let mp = m - 3;
    assert(y >= 0);
    let k = y + 4716;
    // 1461 k / 4 = 365 k + k / 4
    assert((1461 * k) / 4 == 365 * k + k / 4) by {
        lemma_fundamental_div_mod(k, 4);
        lemma_div_is(1461 * k, 4, 365 * k + k / 4);
    }
    // k / 4 = yy / 4 - 21
    assert(k / 4 == yy / 4 - 21) by {
        lemma_fundamental_div_mod(yy, 4);
        lemma_div_is(k, 4, yy / 4 - 21);
    }
    // the month term
    let q = 306001 * (m + 1);
    assert(q / 10000 == days_before_march_month(mp) + 122) by {
        if m == 3 {
            lemma_div_is(q, 10000, 122);
        } else if m == 4 {
            lemma_div_is(q, 10000, 153);
        } else if m == 5 {
            lemma_div_is(q, 10000, 183);
        } else if m == 6 {
            lemma_div_is(q, 10000, 214);
        } else if m == 7 {
            lemma_div_is(q, 10000, 244);
        } else if m == 8 {
            lemma_div_is(q, 10000, 275);
        } else if m == 9 {
            lemma_div_is(q, 10000, 306);
        } else if m == 10 {
            lemma_div_is(q, 10000, 336);
        } else if m == 11 {
            lemma_div_is(q, 10000, 367);
        } else if m == 12 {
            lemma_div_is(q, 10000, 397);
        } else if m == 13 {
            lemma_div_is(q, 10000, 428);
        } else {
            lemma_div_is(q, 10000, 459);
        }
    }
    // the century terms: y / 100 = yy / 100 - 48 and (y / 100) / 4 = yy / 400 - 12
    let a = y / 100;
    assert(a == yy / 100 - 48) by {
        lemma_fundamental_div_mod(yy, 100);
        lemma_div_is(y, 100, yy / 100 - 48);
    }
    assert(a / 4 == yy / 400 - 12) by {
        lemma_fundamental_div_mod(yy, 400);
        lemma_fundamental_div_mod(yy, 100);
        let c = yy / 400;
        let r = yy % 400;
        assert(yy / 100 == 4 * c + r / 100) by {
            lemma_div_is(yy, 100, 4 * c + r / 100);
        }
        lemma_div_is(a, 4, c - 12);
    }
    assert(tdiv(a, 4) == a / 4);
    assert(tdiv(y, 100) == a);
}

/// The length of month `mp` (0 = March) of the year counted from March that
/// starts in year `yy - 4800`.
pub open spec fn march_month_len(yy: int, mp: int) -> int {
    if mp == 11 {
        if leap(yy - 4799) {
            29
        } else {
            28
        }
    } else if mp == 1 || mp == 3 || mp == 6 || mp == 8 {
        30
    } else {
        31
    }
}

/// The days from 1 March of year -4800 to day `doy` (0 = 1 March) of the
/// year counted from March that starts in year `yy - 4800`.
pub open spec fn march_day_count(yy: int, doy: int) -> int {
    365 * yy + yy / 4 - yy / 100 + yy / 400 + doy
}

/// The date of a day of the Julian period is the date it was counted from.
proof fn lemma_date_of_march_day(yy: int, mp: int, d: int)
    requires
        yy >= 0,
        yy - 4800 + 1 <= i32::MAX,
        0 <= mp <= 11,
        1 <= d <= march_month_len(yy, mp),
    ensures
        date_of_day(march_day_count(yy, days_before_march_month(mp) + d - 1) - 32044)
            == (yy - 4800 + mp / 10, mp + 3 - 12 * (mp / 10), d),
{
    let doy = days_before_march_month(mp) + d - 1;
    let a = march_day_count(yy, doy);
    lemma_fundamental_div_mod(yy, 100);
    let cc = yy / 100;
    let y2 = yy % 100;
    assert(0 <= doy <= 365);
    assert(doy == 365 ==> mp == 11 && d == 29);
    // the leap day closes a year of the form 4k + 3, and a century year of
    // the form 4k + 3 when it closes the last year of a century
    assert(doy == 365 ==> y2 % 4 == 3 && (y2 == 99 ==> cc % 4 == 3)) by {
        if doy == 365 {
            assert(leap(yy - 4799));
            lemma_fundamental_div_mod(yy - 4799, 4);
            lemma_fundamental_div_mod(cc, 4);
            lemma_fundamental_div_mod(y2, 4);
            if y2 == 99 {
                lemma_fundamental_div_mod(yy - 4799, 400);
                assert((yy - 4799) % 100 == 0) by {
                    lemma_div_is(yy - 4799, 100, cc - 47);
                }
                assert((yy - 4799) % 400 == 0);
                assert(cc % 4 == 3) by {
                    lemma_div_is(cc + 1, 4, (yy - 4799) / 400 + 12);
                }
            }
        }
    }
    // the days of the century before day `doy`
    let cs = 365 * y2 + y2 / 4 + doy;
    assert(yy / 4 == 25 * cc + y2 / 4) by {
        lemma_fundamental_div_mod(y2, 4);
        lemma_div_is(yy, 4, 25 * cc + y2 / 4);
    }
    assert(yy / 400 == cc / 4) by {
        lemma_fundamental_div_mod(cc, 4);
        lemma_div_is(yy, 400, cc / 4);
    }
    assert(a == 36524 * cc + cc / 4 + cs);
    lemma_fundamental_div_mod(cc, 4);
    // the century
    assert(0 <= y2 / 4 <= 24);
    assert(cs <= 36524);
    assert(cs == 36524 ==> y2 == 99 && doy == 365) by {
        if y2 <= 98 {
            assert(365 * y2 <= 35770);
        }
    }
    let b = (4 * a + 3) / 146097;
    assert(b == cc) by {
        assert(4 * a + 3 == 146097 * cc + (4 * cs + 3 - cc % 4));
        lemma_div_is(4 * a + 3, 146097, cc);
    }
    let c = a - (146097 * b) / 4;
    assert(c == cs) by {
        lemma_div_is(146097 * cc, 4, 36524 * cc + cc / 4);
    }
    // the year of the century
    lemma_fundamental_div_mod(y2, 4);
    let dd = (4 * c + 3) / 1461;
    assert(dd == y2) by {
        assert(4 * c + 3 == 1461 * y2 + (4 * doy + 3 - y2 % 4));
        lemma_div_is(4 * c + 3, 1461, y2);
    }
    let e = c - (1461 * dd) / 4;
    assert(e == doy) by {
        lemma_div_is(1461 * y2, 4, 365 * y2 + y2 / 4);
    }
    // the month and the day
    lemma_march_month_of_day(mp, d, if mp == 11 { 29int } else { march_month_len(yy, mp) });
    let m = (5 * e + 2) / 153;
    assert(m == mp);
    assert(yy == 100 * cc + y2);
}

/// A valid date and time from 1970 on, with a second below 60, reads back
/// from its linear clock: the date and time made from the seconds since
/// 1970-01-01 00:00:00 that it counts has its year, month, day, hour, minute
/// and second (when the day of the week of the date can be computed).
pub proof fn lemma_linear_seconds_roundtrip(dt: DateTime)
    requires
        dt.year >= 1970,
        1 <= dt.month <= 12,
        1 <= dt.day <= days_in_month(dt.year as int, dt.month as int),
        0 <= dt.hour <= 23,
        0 <= dt.minute <= 59,
        0 <= dt.second <= 59,
        weekday_in_range(dt.year as int, dt.month as int, dt.day as int),
    ensures
        linear_seconds_defined(dt),
        from_seconds_defined(linear_seconds(dt)),
        datetime_of_seconds(linear_seconds(dt)).year == dt.year,
        datetime_of_seconds(linear_seconds(dt)).month == dt.month,
        datetime_of_seconds(linear_seconds(dt)).day == dt.day,
        datetime_of_seconds(linear_seconds(dt)).hour == dt.hour,
        datetime_of_seconds(linear_seconds(dt)).minute == dt.minute,
        datetime_of_seconds(linear_seconds(dt)).second == dt.second,
{
    let year = dt.year as int;
    let month = dt.month as int;
    let day = dt.day as int;
    lemma_julian_day_parts(year, month, day);
    let (y, m) = march_based(year, month);
    let yy = y + 4800;
    let mp = m - 3;
    assert(1 <= day <= march_month_len(yy, mp)) by {
        if month == 2 {
            assert(yy - 4799 == year);
        }
    }
    lemma_date_of_march_day(yy, mp, day);
    let jd = julian_day(year, month, day);
    assert(jd == march_day_count(yy, days_before_march_month(mp) + day - 1) - 32044);
    assert(date_of_day(jd) == (year, month, day));
    // the day count is at least that of 1970-01-01
    assert(jd >= 2440588) by {
        assert(yy >= 6769);
        assert(march_day_count(yy, 0) >= march_day_count(6769, 0)) by {
            lemma_fundamental_div_mod(yy, 4);
            lemma_fundamental_div_mod(yy, 100);
            lemma_fundamental_div_mod(yy, 400);
        }
    }
    let days = days_since_epoch(dt);
    let tod = dt.hour * 3600 + dt.minute * 60 + dt.second;
    assert(0 <= tod < 86400);
    let total = days * 86400 + tod;
    assert(total < 0x1_0000_0000_0000_0000) by {
        assert(yy <= 0x8000_0000 + 4800);
        assert(jd <= 366 * 0x8000_2000) by {
            lemma_fundamental_div_mod(yy, 4);
            lemma_fundamental_div_mod(yy, 100);
            lemma_fundamental_div_mod(yy, 400);
        }
    }
    let s = linear_seconds(dt);
    assert(s as int == total);
    lemma_div_is(total, 86400, days);
    assert(s / 86400 == days);
    assert(s % 86400 == tod);
    assert(tod / 3600 == dt.hour) by {
        lemma_div_is(tod, 3600, dt.hour as int);
    }
    assert((tod % 3600) / 60 == dt.minute) by {
        lemma_div_is(tod, 3600, dt.hour as int);
        lemma_div_is(tod % 3600, 60, dt.minute as int);
    }
    assert(tod % 60 == dt.second) by {
        lemma_div_is(tod, 60, dt.hour * 60 + dt.minute);
    }
}

/// The month term of both day counts: `306001 * (mp + 4) / 10000` is the
/// days before month `mp` (0 = March) plus 122.
proof fn lemma_month_term(mp: int)
    requires
        0 <= mp <= 11,
    ensures
        (306001 * (mp + 4)) / 10000 == days_before_march_month(mp) + 122,
{
    let q = 306001 * (mp + 4);
    if mp == 0 {
        lemma_div_is(q, 10000, 122);
    } else if mp == 1 {
        lemma_div_is(q, 10000, 153);
    } else if mp == 2 {
        lemma_div_is(q, 10000, 183);
    } else if mp == 3 {
        lemma_div_is(q, 10000, 214);
    } else if mp == 4 {
        lemma_div_is(q, 10000, 244);
    } else if mp == 5 {
        lemma_div_is(q, 10000, 275);
    } else if mp == 6 {
        lemma_div_is(q, 10000, 306);
    } else if mp == 7 {
        lemma_div_is(q, 10000, 336);
    } else if mp == 8 {
        lemma_div_is(q, 10000, 367);
    } else if mp == 9 {
        lemma_div_is(q, 10000, 397);
    } else if mp == 10 {
        lemma_div_is(q, 10000, 428);
    } else {
        lemma_div_is(q, 10000, 459);
    }
}

/// The month of the MJD formula: for day `d` of month `mp` (0 = March),
/// `(10000 * doy + 1229000) / 306001` is `mp + 4`.
proof fn lemma_mjd_month(mp: int, d: int, len: int)
    requires
        0 <= mp <= 11,
        len == (if mp == 11 { 29int } else if mp == 1 || mp == 3 || mp == 6 || mp == 8 { 30int } else { 31int }),
        1 <= d <= len,
    ensures
        (10000 * (days_before_march_month(mp) + d - 1) + 1229000) / 306001 == mp + 4,
{
    let doy = days_before_march_month(mp) + d - 1;
    let x = 10000 * doy + 1229000;
    if mp == 0 {
        lemma_div_is(x, 306001, 4);
    } else if mp == 1 {
        lemma_div_is(x, 306001, 5);
    } else if mp == 2 {
        lemma_div_is(x, 306001, 6);
    } else if mp == 3 {
        lemma_div_is(x, 306001, 7);
    } else if mp == 4 {
        lemma_div_is(x, 306001, 8);
    } else if mp == 5 {
        lemma_div_is(x, 306001, 9);
    } else if mp == 6 {
        lemma_div_is(x, 306001, 10);
    } else if mp == 7 {
        lemma_div_is(x, 306001, 11);
    } else if mp == 8 {
        lemma_div_is(x, 306001, 12);
    } else if mp == 9 {
        lemma_div_is(x, 306001, 13);
    } else if mp == 10 {
        lemma_div_is(x, 306001, 14);
    } else {
        lemma_div_is(x, 306001, 15);
    }
}

/// A date from 1900-03-01 on whose Modified Julian Date fits 16 bits reads
/// back from that date: converting the date to its MJD and the MJD back
/// gives its year, month and day.
pub proof fn lemma_mjd_roundtrip(year: i32, month: i32, day: i32)
    requires
        1 <= month <= 12,
        1 <= day <= days_in_month(year as int, month as int),
        year > 1900 || (year == 1900 && month >= 3),
        mjd_sum(year as int, month as int, day as int) <= 0xFFFF,
    ensures
        mjd_in_range(year as int, month as int, day as int),
        0 <= mjd_sum(year as int, month as int, day as int),
        ({
            let (y, m, d, w) = mjd_date(mjd_sum(year as int, month as int, day as int) as u16 as int);
            y == year && m == month && d == day
        }),
{
    let (y, m) = march_based(year as int, month as int);
    let mp = m - 3;
    let yr = y - 1900;
    assert(y >= 1900);
    let dbm = days_before_march_month(mp);
    assert(tdiv(3059 * (m - 2), 100) == dbm + 30) by {
        let q = 3059 * (m - 2);
        if mp == 0 { lemma_div_is(q, 100, 30); }
        else if mp == 1 { lemma_div_is(q, 100, 61); }
        else if mp == 2 { lemma_div_is(q, 100, 91); }
        else if mp == 3 { lemma_div_is(q, 100, 122); }
        else if mp == 4 { lemma_div_is(q, 100, 152); }
        else if mp == 5 { lemma_div_is(q, 100, 183); }
        else if mp == 6 { lemma_div_is(q, 100, 214); }
        else if mp == 7 { lemma_div_is(q, 100, 244); }
        else if mp == 8 { lemma_div_is(q, 100, 275); }
        else if mp == 9 { lemma_div_is(q, 100, 305); }
        else if mp == 10 { lemma_div_is(q, 100, 336); }
        else { lemma_div_is(q, 100, 367); }
    }
    lemma_fundamental_div_mod(y, 4);
    lemma_fundamental_div_mod(y, 100);
    lemma_fundamental_div_mod(y, 400);
    assert((1461 * y) / 4 == 365 * y + y / 4) by {
        lemma_div_is(1461 * y, 4, 365 * y + y / 4);
    }
    // the year is below 2100: beyond it the MJD exceeds 16 bits
    assert(y <= 2099) by {
        if y >= 2100 {
            assert(y / 100 <= y);
            assert(clamp_i32((1461 * y) / 4) >= 365 * y);
        }
    }
    assert(y / 400 - y / 100 == -15) by {
        if y < 2000 {
            lemma_div_is(y, 100, 19);
            lemma_div_is(y, 400, 4);
        } else {
            lemma_div_is(y, 100, 20);
            lemma_div_is(y, 400, 5);
        }
    }
    lemma_fundamental_div_mod(yr, 4);
    assert(y / 4 == 475 + yr / 4) by {
        lemma_div_is(y, 4, 475 + yr / 4);
    }
    let doy = dbm + day - 1;
    let mjd = mjd_sum(year as int, month as int, day as int);
    assert(mjd == 15078 + 365 * yr + yr / 4 + doy + 1);
    assert(mjd_in_range(year as int, month as int, day as int));
    let len = if mp == 11 { 29int } else if mp == 1 || mp == 3 || mp == 6 || mp == 8 { 30int } else { 31int };
    assert(1 <= day <= len);
    // the leap day closes a year of the form 4k + 3
    assert(doy == 365 ==> yr % 4 == 3) by {
        if doy == 365 {
            assert(month == 2 && day == 29);
            assert(leap(year as int));
            assert(year == y + 1);
        }
    }
    assert(0 <= doy <= 365);
    // the year of the formula
    let yd = tdiv(20 * mjd - 301564, 7305);
    assert(yd == yr) by {
        assert(20 * mjd - 301564 == 7305 * yr + (20 * doy + 16 - 5 * (yr % 4)));
        lemma_div_is(20 * mjd - 301564, 7305, yr);
    }
    let t = tdiv(1461 * yd, 4);
    assert(t == 365 * yr + yr / 4) by {
        lemma_div_is(1461 * yr, 4, 365 * yr + yr / 4);
    }
    // the month of the formula
    let md = tdiv(10000 * (mjd - t) - 149561000, 306001);
    assert(10000 * (mjd - t) - 149561000 == 10000 * doy + 1229000);
    lemma_mjd_month(mp, day as int, len);
    assert(md == mp + 4);
    lemma_month_term(mp);
    assert(tdiv(306001 * md, 10000) == dbm + 122);
    assert(mjd as u16 as int == mjd);
}

} // verus!
