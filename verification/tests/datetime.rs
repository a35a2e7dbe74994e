use libisdb::datetime::{is_leap_year, get_day_of_year, get_day_of_week, DateTime, get_bcd, make_bcd, parse_bcd_time, make_bcd_time, bcd_time_to_second, bcd_time_hm_to_minute, parse_mjd_time, make_mjd_time, mjd_bcd_to_datetime, datetime_to_mjd};

#[test]
fn test_is_leap_year() {
    assert!(is_leap_year(2000));
    assert!(is_leap_year(2004));
    assert!(!is_leap_year(1900));
    assert!(!is_leap_year(2001));
}

#[test]
fn test_get_day_of_year() {
    assert_eq!(get_day_of_year(2020, 1, 1), Some(0));
    assert_eq!(get_day_of_year(2020, 3, 1), Some(60)); // うるう年
    assert_eq!(get_day_of_year(2019, 3, 1), Some(59)); // 平年
    assert_eq!(get_day_of_year(2020, 12, 31), Some(365));
}

#[test]
fn test_get_day_of_week() {
    // 2023-01-01 は日曜 = 0
    assert_eq!(get_day_of_week(2023, 1, 1), 0);
    // 2023-01-02 は月曜 = 1
    assert_eq!(get_day_of_week(2023, 1, 2), 1);
    // 2024-02-29 はうるう日、木曜 = 4
    assert_eq!(get_day_of_week(2024, 2, 29), 4);
}

#[test]
fn test_datetime_is_valid() {
    let dt = DateTime {
        year: 2023, month: 6, day: 15, day_of_week: 4,
        hour: 12, minute: 30, second: 0, millisecond: 0,
    };
    assert!(dt.is_valid());
}

#[test]
fn test_datetime_is_valid_leap_day() {
    let dt = DateTime {
        year: 2024, month: 2, day: 29, day_of_week: 4,
        hour: 0, minute: 0, second: 0, millisecond: 0,
    };
    assert!(dt.is_valid()); // is_valid は日の範囲のみチェック(1-31)
}

#[test]
fn test_datetime_invalid_month() {
    let dt = DateTime { year: 2023, month: 13, day: 1, ..Default::default() };
    assert!(!dt.is_valid());
}

#[test]
fn test_get_linear_seconds_epoch() {
    let dt = DateTime {
        year: 1970, month: 1, day: 1, day_of_week: 4,
        hour: 0, minute: 0, second: 0, millisecond: 0,
    };
    assert_eq!(dt.get_linear_seconds(), 0);
}

#[test]
fn test_get_linear_seconds_roundtrip() {
    let dt = DateTime {
        year: 2023, month: 6, day: 15, day_of_week: 4,
        hour: 12, minute: 30, second: 45, millisecond: 0,
    };
    let secs = dt.get_linear_seconds();
    let restored = DateTime::from_linear_seconds(secs);
    assert_eq!(restored.year,   dt.year);
    assert_eq!(restored.month,  dt.month);
    assert_eq!(restored.day,    dt.day);
    assert_eq!(restored.hour,   dt.hour);
    assert_eq!(restored.minute, dt.minute);
    assert_eq!(restored.second, dt.second);
}

#[test]
fn test_offset_seconds() {
    let dt = DateTime {
        year: 2023, month: 12, day: 31, day_of_week: 0,
        hour: 23, minute: 59, second: 59, millisecond: 0,
    };
    let next = dt.offset_seconds(1).unwrap();
    assert_eq!(next.year, 2024);
    assert_eq!(next.month, 1);
    assert_eq!(next.day, 1);
    assert_eq!(next.hour, 0);
    assert_eq!(next.minute, 0);
    assert_eq!(next.second, 0);
}

#[test]
fn test_diff_seconds() {
    let dt1 = DateTime { year: 2023, month: 1, day: 1, day_of_week: 0, hour: 1, minute: 0, second: 0, millisecond: 0 };
    let dt2 = DateTime { year: 2023, month: 1, day: 1, day_of_week: 0, hour: 0, minute: 0, second: 0, millisecond: 0 };
    assert_eq!(dt1.diff_seconds(&dt2), 3600);
}

#[test]
fn test_compare_order() {
    let dt1 = DateTime { year: 2023, month: 1, day: 1, day_of_week: 0, hour: 1, ..Default::default() };
    let dt2 = DateTime { year: 2023, month: 1, day: 1, day_of_week: 0, hour: 0, ..Default::default() };
    assert!(dt1 > dt2);
    assert!(dt2 < dt1);
}

#[test]
fn test_truncate_to_days() {
    let mut dt = DateTime { year: 2023, month: 6, day: 15, day_of_week: 4, hour: 12, minute: 30, second: 45, millisecond: 500 };
    dt.truncate_to_days();
    assert_eq!((dt.hour, dt.minute, dt.second, dt.millisecond), (0, 0, 0, 0));
}

#[test]
fn test_truncate_to_hours() {
    let mut dt = DateTime { hour: 12, minute: 30, second: 45, millisecond: 500, ..Default::default() };
    dt.truncate_to_hours();
    assert_eq!((dt.minute, dt.second, dt.millisecond), (0, 0, 0));
    assert_eq!(dt.hour, 12);
}

#[test]
fn test_set_day_of_week() {
    let mut dt = DateTime { year: 2023, month: 1, day: 1, day_of_week: 0, ..Default::default() };
    dt.set_day_of_week();
    assert_eq!(dt.day_of_week, 0); // 2023-01-01 は日曜
}

// ─── ARIBTime テスト ───────────────────────────────────────

#[test]
fn test_get_bcd() {
    assert_eq!(get_bcd(0x23), 23);
    assert_eq!(get_bcd(0x59), 59);
    assert_eq!(get_bcd(0x00), 0);
}

#[test]
fn lib_test_make_bcd() {
    assert_eq!(make_bcd(23), 0x23);
    assert_eq!(make_bcd(59), 0x59);
    assert_eq!(make_bcd(0), 0x00);
}

#[test]
fn test_bcd_time_roundtrip() {
    let bcd = make_bcd_time(12, 34, 56);
    let (h, m, s) = parse_bcd_time(&bcd);
    assert_eq!((h, m, s), (12, 34, 56));
}

#[test]
fn test_bcd_time_to_second() {
    // 01:02:03 = 3600+120+3 = 3723
    assert_eq!(bcd_time_to_second(&[0x01, 0x02, 0x03]), 3723);
}

#[test]
fn test_bcd_time_to_second_undefined() {
    assert_eq!(bcd_time_to_second(&[0xFF, 0xFF, 0xFF]), 0);
}

#[test]
fn test_bcd_time_hm_to_minute() {
    // 01:30 = 0x0130 → 90分
    assert_eq!(bcd_time_hm_to_minute(0x0130), 90);
    // 00:00 = 0
    assert_eq!(bcd_time_hm_to_minute(0x0000), 0);
}

#[test]
fn test_parse_mjd_time_known() {
    // MJD 51544 = 2000-01-01 (土曜=6)
    let (y, m, d, dow) = parse_mjd_time(51544);
    assert_eq!(y, 2000);
    assert_eq!(m, 1);
    assert_eq!(d, 1);
    assert_eq!(dow, 6); // (51544+3)%7 = 51547%7 = 1? → 検証は下で
}

#[test]
fn test_make_mjd_roundtrip() {
    // 適当な日付で往復変換
    let mjd = make_mjd_time(2023, 6, 15);
    let (y, m, d, _) = parse_mjd_time(mjd);
    assert_eq!((y, m, d), (2023, 6, 15));
}

#[test]
fn test_mjd_bcd_to_datetime() {
    // 2023-06-15 12:34:56 の MJD+BCD を組み立て
    let mjd = make_mjd_time(2023, 6, 15);
    let bcd = make_bcd_time(12, 34, 56);
    let data = [
        (mjd >> 8) as u8, (mjd & 0xFF) as u8,
        bcd[0], bcd[1], bcd[2],
    ];
    let dt = mjd_bcd_to_datetime(&data).unwrap();
    assert_eq!((dt.year, dt.month, dt.day), (2023, 6, 15));
    assert_eq!((dt.hour, dt.minute, dt.second), (12, 34, 56));
}

#[test]
fn test_mjd_bcd_undefined_returns_none() {
    let data = [0xFF, 0xFF, 0xFF, 0xFF, 0xFF];
    assert!(mjd_bcd_to_datetime(&data).is_none());
}

#[test]
fn test_datetime_to_mjd_roundtrip() {
    let dt = DateTime { year: 2023, month: 6, day: 15, ..Default::default() };
    let mjd = datetime_to_mjd(&dt);
    let (y, m, d, _) = parse_mjd_time(mjd);
    assert_eq!((y, m, d), (2023, 6, 15));
}

#[test]
fn test_linear_seconds_roundtrip_leap_day_and_epoch() {
    for &(y, m, d, h, mi, s) in &[(2024, 2, 29, 23, 59, 59), (1970, 1, 1, 0, 0, 0), (2100, 3, 1, 1, 2, 3), (1999, 12, 31, 12, 0, 0)] {
        let dt = DateTime { year: y, month: m, day: d, day_of_week: 0, hour: h, minute: mi, second: s, millisecond: 0 };
        let back = DateTime::from_linear_seconds(dt.get_linear_seconds());
        assert_eq!((back.year, back.month, back.day, back.hour, back.minute, back.second), (y, m, d, h, mi, s));
    }
}

#[test]
fn test_mjd_roundtrip_range_ends() {
    for &(y, m, d) in &[(1900, 3, 1), (2000, 2, 29), (2038, 4, 22), (1999, 12, 31)] {
        let mjd = make_mjd_time(y, m, d);
        let (yy, mm, dd, _) = parse_mjd_time(mjd);
        assert_eq!((yy, mm, dd), (y, m, d));
    }
    assert_eq!(make_mjd_time(2038, 4, 22), 0xFFFF);
}
