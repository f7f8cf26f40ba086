use unifi_protect_bulk_download::app_error::{AppError, DateParseErrorKind};
use unifi_protect_bulk_download::calendar::{is_leap, month_length, CivilDate, CivilDateTime};
use unifi_protect_bulk_download::date_input::{date_or_hour_from_parses, parse_date_or_hour};

fn dt(y: i32, mo: u32, d: u32, h: u32, mi: u32, s: u32) -> CivilDateTime {
    CivilDateTime { date: CivilDate { year: y, month: mo, day: d }, hour: h, minute: mi, second: s }
}

#[test]
fn day_bounds_are_first_and_last_second() {
    assert_eq!(parse_date_or_hour("2023-06-01", true).unwrap(), dt(2023, 6, 1, 0, 0, 0));
    assert_eq!(parse_date_or_hour("2023-07-31", false).unwrap(), dt(2023, 7, 31, 23, 59, 59));
}

#[test]
fn hour_bounds_are_that_hour() {
    assert_eq!(parse_date_or_hour("2023-06-01-05", true).unwrap(), dt(2023, 6, 1, 5, 0, 0));
    assert_eq!(parse_date_or_hour("2023-06-01-23", false).unwrap(), dt(2023, 6, 1, 23, 0, 0));
}

#[test]
fn bad_dates_are_refused_with_chronos_reason() {
    match parse_date_or_hour("2023-02-30", true) {
        Err(AppError::ParseDate { input, source }) => {
            assert_eq!(input, "2023-02-30");
            assert_eq!(source, DateParseErrorKind::OutOfRange);
        }
        other => panic!("unexpected {:?}", other),
    }
    let err = parse_date_or_hour("yesterday", true).unwrap_err();
    assert_eq!(err.to_string(), "failed to parse date 'yesterday': input contains invalid characters");
    let err = parse_date_or_hour("2023-06", true).unwrap_err();
    assert_eq!(err.to_string(), "failed to parse date '2023-06': premature end of input");
    let err = parse_date_or_hour("2023-06-01-24", true).unwrap_err();
    assert_eq!(err.to_string(), "failed to parse date '2023-06-01-24': trailing input");
}

#[test]
fn parses_are_combined_in_order() {
    let hourly = Ok((2020, 1, 2, 3, 0, 0));
    let daily = Ok((2021, 5, 6));
    assert_eq!(date_or_hour_from_parses("x", hourly, daily, false).unwrap(), dt(2020, 1, 2, 3, 0, 0));
    assert_eq!(
        date_or_hour_from_parses("x", Err(DateParseErrorKind::NotEnough), daily, false).unwrap(),
        dt(2021, 5, 6, 23, 59, 59)
    );
    let err = date_or_hour_from_parses("x", Err(DateParseErrorKind::NotEnough), Err(DateParseErrorKind::TooLong), true)
        .unwrap_err();
    assert_eq!(err.to_string(), "failed to parse date 'x': trailing input");
}

#[test]
fn calendar_rules() {
    assert!(is_leap(2024));
    assert!(!is_leap(1900));
    assert!(is_leap(2000));
    assert!(is_leap(0));
    assert!(is_leap(-4));
    assert!(!is_leap(-1));
    assert_eq!(month_length(2023, 2), 28);
    assert_eq!(month_length(2024, 2), 29);
    assert_eq!(month_length(2023, 4), 30);
    assert_eq!(month_length(2023, 12), 31);
    assert_eq!(CivilDate::from_ymd_opt(2023, 2, 29), None);
    assert_eq!(CivilDate::from_ymd_opt(2023, 13, 1), None);
    assert_eq!(CivilDate::from_ymd_opt(262143, 1, 1), None);
    let d = CivilDate::from_ymd_opt(2023, 12, 31).unwrap();
    assert_eq!(d.succ_opt(), Some(CivilDate { year: 2024, month: 1, day: 1 }));
    assert_eq!(CivilDate { year: 2024, month: 2, day: 28 }.succ_opt(), Some(CivilDate { year: 2024, month: 2, day: 29 }));
    assert_eq!(CivilDate { year: 262142, month: 12, day: 31 }.succ_opt(), None);
    assert!(CivilDate { year: 2023, month: 1, day: 31 }.lt(&CivilDate { year: 2023, month: 2, day: 1 }));
    assert!(!dt(2023, 1, 1, 0, 0, 1).lt(&dt(2023, 1, 1, 0, 0, 0)));
    assert_eq!(dt(2023, 1, 1, 23, 5, 6).add_one_hour(), Some(dt(2023, 1, 2, 0, 5, 6)));
    assert_eq!(dt(2023, 1, 1, 3, 5, 6).add_one_hour(), Some(dt(2023, 1, 1, 4, 5, 6)));
    assert_eq!(CivilDate { year: 2023, month: 1, day: 1 }.and_hms_opt(24, 0, 0), None);
}

#[test]
fn date_time_text_matches_chrono() {
    assert_eq!(dt(2023, 6, 1, 5, 7, 9).to_text(), "2023-06-01 05:07:09");
    assert_eq!(dt(987, 1, 2, 0, 0, 0).to_text(), "0987-01-02 00:00:00");
    assert_eq!(dt(-1, 1, 2, 0, 0, 0).to_text(), "-0001-01-02 00:00:00");
    assert_eq!(dt(12345, 12, 31, 23, 59, 59).to_text(), "+12345-12-31 23:59:59");
    let mut s = String::new();
    dt(2023, 6, 1, 5, 7, 9).push_hour_stamp(&mut s);
    assert_eq!(s, "2023-06-01-05");
}
