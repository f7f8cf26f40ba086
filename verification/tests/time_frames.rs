use unifi_protect_bulk_download::app_error::AppError;
use unifi_protect_bulk_download::calendar::{CivilDate, CivilDateTime};
use unifi_protect_bulk_download::frames::{day_frame_bounds, hour_frame_bounds, time_frames};
use unifi_protect_bulk_download::parse_args::DownloadMode;

fn dt(y: i32, mo: u32, d: u32, h: u32, mi: u32, s: u32) -> CivilDateTime {
    CivilDateTime { date: CivilDate { year: y, month: mo, day: d }, hour: h, minute: mi, second: s }
}

#[test]
fn hourly_frames_follow_clock_hours() {
    let frames = time_frames(&dt(2023, 6, 1, 22, 30, 0), &dt(2023, 6, 2, 1, 15, 0), DownloadMode::Hourly).unwrap();
    assert_eq!(
        frames,
        vec![
            (dt(2023, 6, 1, 22, 30, 0), dt(2023, 6, 1, 22, 59, 59)),
            (dt(2023, 6, 1, 23, 0, 0), dt(2023, 6, 1, 23, 59, 59)),
            (dt(2023, 6, 2, 0, 0, 0), dt(2023, 6, 2, 0, 59, 59)),
            (dt(2023, 6, 2, 1, 0, 0), dt(2023, 6, 2, 1, 15, 0)),
        ]
    );
}

#[test]
fn hourly_frames_cross_year_and_leap_day() {
    let frames = time_frames(&dt(2023, 12, 31, 23, 0, 0), &dt(2024, 1, 1, 0, 59, 59), DownloadMode::Hourly).unwrap();
    assert_eq!(
        frames,
        vec![
            (dt(2023, 12, 31, 23, 0, 0), dt(2023, 12, 31, 23, 59, 59)),
            (dt(2024, 1, 1, 0, 0, 0), dt(2024, 1, 1, 0, 59, 59)),
        ]
    );
    let frames = time_frames(&dt(2024, 2, 28, 23, 10, 0), &dt(2024, 2, 29, 0, 5, 0), DownloadMode::Hourly).unwrap();
    assert_eq!(frames[1], (dt(2024, 2, 29, 0, 0, 0), dt(2024, 2, 29, 0, 5, 0)));
}

#[test]
fn single_instant_gives_one_frame() {
    let t = dt(2023, 6, 1, 5, 0, 0);
    assert_eq!(time_frames(&t, &t, DownloadMode::Hourly).unwrap(), vec![(t, t)]);
    assert_eq!(time_frames(&t, &t, DownloadMode::Daily).unwrap(), vec![(t, t)]);
}

#[test]
fn daily_frames_follow_calendar_days() {
    let frames = time_frames(&dt(2023, 6, 29, 0, 0, 0), &dt(2023, 7, 1, 23, 59, 59), DownloadMode::Daily).unwrap();
    assert_eq!(
        frames,
        vec![
            (dt(2023, 6, 29, 0, 0, 0), dt(2023, 6, 29, 23, 59, 59)),
            (dt(2023, 6, 30, 0, 0, 0), dt(2023, 6, 30, 23, 59, 59)),
            (dt(2023, 7, 1, 0, 0, 0), dt(2023, 7, 1, 23, 59, 59)),
        ]
    );
    let frames = time_frames(&dt(2023, 2, 28, 12, 0, 0), &dt(2023, 3, 1, 6, 0, 0), DownloadMode::Daily).unwrap();
    assert_eq!(
        frames,
        vec![
            (dt(2023, 2, 28, 12, 0, 0), dt(2023, 2, 28, 23, 59, 59)),
            (dt(2023, 3, 1, 0, 0, 0), dt(2023, 3, 1, 6, 0, 0)),
        ]
    );
    let frames = time_frames(&dt(1900, 2, 28, 0, 0, 0), &dt(1900, 3, 1, 0, 0, 0), DownloadMode::Daily).unwrap();
    assert_eq!(frames.len(), 2);
    let frames = time_frames(&dt(2000, 2, 28, 0, 0, 0), &dt(2000, 3, 1, 0, 0, 0), DownloadMode::Daily).unwrap();
    assert_eq!(frames.len(), 3);
}

#[test]
fn reversed_range_is_refused() {
    let start = dt(2023, 6, 2, 0, 0, 0);
    let end = dt(2023, 6, 1, 23, 59, 59);
    let err = time_frames(&start, &end, DownloadMode::Daily).unwrap_err();
    assert!(matches!(err, AppError::InvalidDateRange { .. }));
    assert_eq!(
        err.to_string(),
        "invalid date range: end date/time '2023-06-01 23:59:59' is before start date/time '2023-06-02 00:00:00'"
    );
}

#[test]
fn range_reaching_the_last_day_overflows() {
    let last = dt(262142, 12, 31, 23, 30, 0);
    let err = time_frames(&dt(262142, 12, 31, 22, 0, 0), &last, DownloadMode::Hourly).unwrap_err();
    assert_eq!(
        err.to_string(),
        "date arithmetic failed: no hour follows the one starting at '+262142-12-31 23:00:00'"
    );
    let ok = time_frames(&dt(262142, 12, 31, 21, 0, 0), &dt(262142, 12, 31, 22, 10, 0), DownloadMode::Hourly).unwrap();
    assert_eq!(ok.len(), 2);
    let err = time_frames(&dt(262142, 12, 30, 0, 0, 0), &dt(262142, 12, 31, 0, 0, 0), DownloadMode::Daily).unwrap_err();
    assert_eq!(err.to_string(), "date arithmetic failed: no date follows '+262142-12-31'");
}

#[test]
fn frame_bounds() {
    assert_eq!(
        hour_frame_bounds(&dt(2023, 6, 1, 13, 45, 12)).unwrap(),
        (dt(2023, 6, 1, 13, 0, 0), dt(2023, 6, 1, 13, 59, 59))
    );
    assert!(hour_frame_bounds(&dt(262142, 12, 31, 23, 0, 0)).is_err());
    assert_eq!(
        day_frame_bounds(&CivilDate { year: -5, month: 3, day: 1 }).unwrap(),
        (dt(-5, 3, 1, 0, 0, 0), dt(-5, 3, 1, 23, 59, 59))
    );
}
