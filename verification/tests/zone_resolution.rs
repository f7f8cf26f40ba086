use chrono::{DateTime, Datelike, LocalResult, NaiveDate, NaiveDateTime, Offset, TimeZone, Timelike};
use chrono_tz::America::New_York;
use unifi_protect_bulk_download::calendar::{CivilDate, CivilDateTime};
use unifi_protect_bulk_download::download::{local_time_frames, local_time_frames_from};
use unifi_protect_bulk_download::zone::{
    resolve_in_local_zone, resolve_local_datetime, to_local, to_local_from, BoundaryKind, LocalResolution,
    ZonedDateTime,
};

fn civil(n: NaiveDateTime) -> CivilDateTime {
    CivilDateTime {
        date: CivilDate { year: n.year(), month: n.month(), day: n.day() },
        hour: n.hour(),
        minute: n.minute(),
        second: n.second(),
    }
}

fn zoned<Tz: TimeZone>(dt: &DateTime<Tz>) -> ZonedDateTime {
    ZonedDateTime {
        local: civil(dt.naive_local()),
        offset_seconds: dt.offset().fix().local_minus_utc(),
        timestamp_millis: dt.timestamp_millis(),
    }
}

fn resolution<Tz: TimeZone>(r: LocalResult<DateTime<Tz>>) -> LocalResolution {
    match r {
        LocalResult::Single(d) => LocalResolution::Single(zoned(&d)),
        LocalResult::Ambiguous(a, b) => LocalResolution::Ambiguous(zoned(&a), zoned(&b)),
        LocalResult::None => LocalResolution::Nonexistent,
    }
}

#[test]
fn resolves_ambiguous_hour_deterministically() {
    let ambiguous = New_York
        .with_ymd_and_hms(2025, 11, 2, 1, 30, 0)
        .earliest()
        .expect("Expected local time to be ambiguous")
        .naive_local();
    let lookup = resolution(New_York.from_local_datetime(&ambiguous));

    let start_dt = resolve_local_datetime(&lookup, &civil(ambiguous), BoundaryKind::Start)
        .expect("Start boundary resolution should succeed");
    let end_dt = resolve_local_datetime(&lookup, &civil(ambiguous), BoundaryKind::End)
        .expect("End boundary resolution should succeed");

    assert_eq!(
        start_dt.timestamp(),
        1_762_061_400,
        "Start boundary should consistently choose earliest UTC instant"
    );
    assert_eq!(
        end_dt.timestamp(),
        1_762_065_000,
        "End boundary should consistently choose latest UTC instant"
    );
}

#[test]
fn returns_error_for_skipped_hour() {
    let skipped = NaiveDate::from_ymd_opt(2025, 3, 9)
        .expect("Expected valid date")
        .and_hms_opt(2, 30, 0)
        .expect("Expected valid naive local timestamp");
    assert!(
        New_York
            .with_ymd_and_hms(2025, 3, 9, 2, 30, 0)
            .single()
            .is_none(),
        "Expected skipped hour in spring DST transition"
    );

    let lookup = resolution(New_York.from_local_datetime(&skipped));
    let result = resolve_local_datetime(&lookup, &civil(skipped), BoundaryKind::Start);
    assert!(
        result.is_err(),
        "Skipped local timestamp must return an error"
    );
}

#[test]
fn skipped_hour_message_names_the_time() {
    let skipped = NaiveDate::from_ymd_opt(2025, 3, 9).unwrap().and_hms_opt(2, 30, 0).unwrap();
    let lookup = resolution(New_York.from_local_datetime(&skipped));
    let err = resolve_local_datetime(&lookup, &civil(skipped), BoundaryKind::End).unwrap_err();
    assert_eq!(
        err,
        "Local datetime '2025-03-09 02:30:00' does not exist in the target timezone"
    );
}

#[test]
fn single_time_is_the_same_for_start_and_end() {
    let t = NaiveDate::from_ymd_opt(2025, 6, 1).unwrap().and_hms_opt(12, 0, 0).unwrap();
    let lookup = resolution(New_York.from_local_datetime(&t));
    let s = resolve_local_datetime(&lookup, &civil(t), BoundaryKind::Start).unwrap();
    let e = resolve_local_datetime(&lookup, &civil(t), BoundaryKind::End).unwrap();
    assert_eq!(s, e);
    assert_eq!(s.timestamp(), 1_748_793_600);
    assert_eq!(s.offset_seconds, -4 * 3600);
}

#[test]
fn start_is_not_after_end_for_repeated_time() {
    let t = NaiveDate::from_ymd_opt(2025, 11, 2).unwrap().and_hms_opt(1, 0, 0).unwrap();
    let lookup = resolution(New_York.from_local_datetime(&t));
    let s = resolve_local_datetime(&lookup, &civil(t), BoundaryKind::Start).unwrap();
    let e = resolve_local_datetime(&lookup, &civil(t), BoundaryKind::End).unwrap();
    assert!(s.timestamp_millis < e.timestamp_millis);
    assert_eq!(e.timestamp_millis - s.timestamp_millis, 3_600_000);
}

#[test]
fn to_local_refuses_repeated_and_skipped_times() {
    let t = NaiveDate::from_ymd_opt(2025, 11, 2).unwrap().and_hms_opt(1, 30, 0).unwrap();
    let lookup = resolution(New_York.from_local_datetime(&t));
    let err = to_local_from(&lookup, civil(t), "frame start".to_string()).unwrap_err();
    assert_eq!(
        err.to_string(),
        "time zone conversion failed: frame start (2025-11-02 01:30:00) is ambiguous between \
         '2025-11-02 01:30:00 -04:00' and '2025-11-02 01:30:00 -05:00'"
    );

    let skipped = NaiveDate::from_ymd_opt(2025, 3, 9).unwrap().and_hms_opt(2, 30, 0).unwrap();
    let lookup = resolution(New_York.from_local_datetime(&skipped));
    let err = to_local_from(&lookup, civil(skipped), "frame end".to_string()).unwrap_err();
    assert_eq!(
        err.to_string(),
        "time zone conversion failed: frame end (2025-03-09 02:30:00) does not exist in local timezone"
    );

    let fine = NaiveDate::from_ymd_opt(2025, 1, 9).unwrap().and_hms_opt(2, 30, 0).unwrap();
    let lookup = resolution(New_York.from_local_datetime(&fine));
    let z = to_local_from(&lookup, civil(fine), "x".to_string()).unwrap();
    assert_eq!(z.timestamp(), 1_736_407_800);
}

#[test]
fn negative_timestamps_round_down() {
    let z = ZonedDateTime {
        local: CivilDateTime { date: CivilDate { year: 1969, month: 12, day: 31 }, hour: 23, minute: 59, second: 59 },
        offset_seconds: 0,
        timestamp_millis: -1,
    };
    assert_eq!(z.timestamp(), -1);
    let z2 = ZonedDateTime { timestamp_millis: -1000, ..z };
    assert_eq!(z2.timestamp(), -1);
    let z3 = ZonedDateTime { timestamp_millis: -1001, ..z };
    assert_eq!(z3.timestamp(), -2);
    let z4 = ZonedDateTime { timestamp_millis: 1999, ..z };
    assert_eq!(z4.timestamp(), 1);
}

#[test]
fn repeated_time_listed_later_first_still_resolves_by_instant() {
    let t = NaiveDate::from_ymd_opt(2025, 11, 2).unwrap().and_hms_opt(1, 30, 0).unwrap();
    let (a, b) = match resolution(New_York.from_local_datetime(&t)) {
        LocalResolution::Ambiguous(a, b) => (a, b),
        other => panic!("unexpected {:?}", other),
    };
    let swapped = LocalResolution::Ambiguous(b, a);
    let s = resolve_local_datetime(&swapped, &civil(t), BoundaryKind::Start).unwrap();
    let e = resolve_local_datetime(&swapped, &civil(t), BoundaryKind::End).unwrap();
    assert_eq!(s.timestamp(), 1_762_061_400);
    assert_eq!(e.timestamp(), 1_762_065_000);
}

#[test]
fn local_zone_keeps_the_wall_clock_time() {
    let t = civil(NaiveDate::from_ymd_opt(2023, 6, 15).unwrap().and_hms_opt(12, 0, 0).unwrap());
    let z = resolve_in_local_zone(&t, BoundaryKind::Start).unwrap();
    assert_eq!(z.local, t);
    let expected = chrono::Local.with_ymd_and_hms(2023, 6, 15, 12, 0, 0).earliest().unwrap();
    assert_eq!(z.timestamp_millis, expected.timestamp_millis());
    let z2 = to_local(t, "start".to_string()).unwrap();
    assert_eq!(z2.local, t);
}

fn instant(t: &CivilDateTime) -> i64 {
    // Seconds from 0000-01-01 to `t`, the library's instant.
    let d = NaiveDate::from_ymd_opt(t.date.year, t.date.month, t.date.day).unwrap();
    let days = d.signed_duration_since(NaiveDate::from_ymd_opt(0, 1, 1).unwrap()).num_days();
    days * 86400 + (t.hour * 3600 + t.minute * 60 + t.second) as i64
}

#[test]
fn local_instants_agree_with_wall_clock_and_offset() {
    let t0 = civil(NaiveDate::from_ymd_opt(2024, 1, 31).unwrap().and_hms_opt(0, 0, 0).unwrap());
    let t1 = civil(NaiveDate::from_ymd_opt(2024, 1, 31).unwrap().and_hms_opt(23, 59, 59).unwrap());
    for z in local_time_frames(&vec![(t0, t1)]).unwrap().iter().flat_map(|f| [f.0, f.1]) {
        assert!(z.offset_seconds.abs() < 86400);
        assert_eq!(
            z.timestamp_millis,
            (instant(&z.local) - 62_167_219_200 - z.offset_seconds as i64) * 1000
        );
    }
    assert_eq!(instant(&civil(NaiveDate::from_ymd_opt(1970, 1, 1).unwrap().and_hms_opt(0, 0, 0).unwrap())), 62_167_219_200);
}

#[test]
fn frames_from_lookups_use_start_and_end_rules() {
    let t = NaiveDate::from_ymd_opt(2025, 11, 2).unwrap().and_hms_opt(1, 0, 0).unwrap();
    let u = NaiveDate::from_ymd_opt(2025, 11, 2).unwrap().and_hms_opt(1, 59, 59).unwrap();
    let lookups = vec![(resolution(New_York.from_local_datetime(&t)), resolution(New_York.from_local_datetime(&u)))];
    let v = local_time_frames_from(&vec![(civil(t), civil(u))], &lookups).unwrap();
    assert_eq!(v[0].0.timestamp(), 1_762_059_600);
    assert_eq!(v[0].1.timestamp(), 1_762_066_799);
    let skipped = NaiveDate::from_ymd_opt(2025, 3, 9).unwrap().and_hms_opt(2, 0, 0).unwrap();
    let lookups = vec![(resolution(New_York.from_local_datetime(&skipped)), resolution(New_York.from_local_datetime(&u)))];
    let err = local_time_frames_from(&vec![(civil(skipped), civil(u))], &lookups).unwrap_err();
    assert!(matches!(err.0, BoundaryKind::Start));
    assert_eq!(err.1, "Local datetime '2025-03-09 02:00:00' does not exist in the target timezone");
}
