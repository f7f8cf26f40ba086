use unifi_protect_bulk_download::app_error::{api_error, AppError, IoErrorKind, IoFailure};
use unifi_protect_bulk_download::calendar::{CivilDate, CivilDateTime};
use unifi_protect_bulk_download::output_path::{
    validate, first_missing_path, path_prefixes, probe_file_name, probe_step, OutputCheck,
    PathMetadata, ProbeAction, ProbeAttempt, PROBE_ATTEMPTS,
};

fn strings(v: &[&str]) -> Vec<String> {
    v.iter().map(|s| s.to_string()).collect()
}

fn io(kind: IoErrorKind, message: &str) -> IoFailure {
    IoFailure { kind, message: message.to_string() }
}

#[test]
fn every_error_has_its_message() {
    let t = CivilDateTime { date: CivilDate { year: 2023, month: 6, day: 1 }, hour: 0, minute: 0, second: 0 };
    let cases = vec![
        (AppError::InvalidDateRange { start: t, end: t }, "invalid date range: end date/time '2023-06-01 00:00:00' is before start date/time '2023-06-01 00:00:00'"),
        (AppError::DateConstruction { context: "c".to_string() }, "invalid date/time: c"),
        (AppError::DateConversion { context: "c".to_string() }, "time zone conversion failed: c"),
        (AppError::DateOverflow { context: "c".to_string() }, "date arithmetic failed: c"),
        (AppError::InvalidMode { mode: "weekly".to_string() }, "invalid download mode 'weekly'"),
        (
            AppError::OutputPathInaccessible {
                path: "/a/b/c".to_string(),
                existing_parent: Some("/a".to_string()),
                missing_path: Some("/a/b".to_string()),
                source: io(IoErrorKind::NotFound, "No such file or directory (os error 2)"),
            },
            "pre-download output path check failed: '/a/b/c' is not accessible: path exists up to '/a', but '/a/b' does not exist (No such file or directory (os error 2))",
        ),
        (
            AppError::OutputPathInaccessible {
                path: "/a".to_string(),
                existing_parent: None,
                missing_path: Some("/a".to_string()),
                source: io(IoErrorKind::NotFound, "gone"),
            },
            "pre-download output path check failed: '/a' is not accessible: gone",
        ),
        (AppError::OutputPathNotDirectory { path: "/f".to_string() }, "pre-download output path check failed: '/f' is not a directory"),
        (
            AppError::OutputPathNotWritable { path: "/d".to_string(), source: io(IoErrorKind::PermissionDenied, "path is read-only") },
            "pre-download output path check failed: '/d' is not writable: path is read-only",
        ),
        (api_error("Login request failed", "connection refused"), "Login request failed: connection refused"),
        (AppError::parse_date("x", unifi_protect_bulk_download::app_error::DateParseErrorKind::Impossible), "failed to parse date 'x': no possible date and time matching input"),
    ];
    for (e, text) in cases {
        assert_eq!(e.to_string(), text);
    }
}

#[test]
fn prefixes_of_a_path() {
    assert_eq!(path_prefixes(&strings(&["/", "a", "b"])), strings(&["/", "/a", "/a/b"]));
    assert_eq!(path_prefixes(&strings(&[".", "x", ".."])), strings(&[".", "./x", "./x/.."]));
    assert_eq!(path_prefixes(&strings(&[])), strings(&[]));
}

#[test]
fn first_missing_prefix() {
    let p = strings(&["/", "/a", "/a/b", "/a/b/c"]);
    assert_eq!(
        first_missing_path(&p, &vec![true, true, false, false]),
        (Some("/a".to_string()), Some("/a/b".to_string()))
    );
    assert_eq!(first_missing_path(&p, &vec![true, true, true, true]), (Some("/a/b/c".to_string()), None));
    assert_eq!(first_missing_path(&p, &vec![false, true, true, true]), (None, Some("/".to_string())));
    assert_eq!(first_missing_path(&vec![], &vec![]), (None, None));
}

#[test]
fn metadata_checks() {
    let missing = (Some("/a".to_string()), Some("/a/b".to_string()));
    match validate("/a/b/c", PathMetadata::Unreadable(io(IoErrorKind::NotFound, "nf")), true, missing.clone()) {
        Err(AppError::OutputPathInaccessible { existing_parent, missing_path, .. }) => {
            assert_eq!((existing_parent, missing_path), missing);
        }
        other => panic!("unexpected {:?}", other),
    }
    match validate("/p", PathMetadata::Unreadable(io(IoErrorKind::PermissionDenied, "denied")), true, missing.clone()) {
        Err(AppError::OutputPathInaccessible { existing_parent: None, missing_path: None, .. }) => {}
        other => panic!("unexpected {:?}", other),
    }
    assert!(matches!(
        validate("/f", PathMetadata::Entry { is_dir: false, readonly: false }, true, (None, None)),
        Err(AppError::OutputPathNotDirectory { .. })
    ));
    let err = validate("/d", PathMetadata::Entry { is_dir: true, readonly: true }, false, (None, None)).unwrap_err();
    assert_eq!(err.to_string(), "pre-download output path check failed: '/d' is not writable: path is read-only");
    assert_eq!(validate("/d", PathMetadata::Entry { is_dir: true, readonly: false }, true, (None, None)).unwrap(), OutputCheck::Probe);
    assert_eq!(validate("/d", PathMetadata::Entry { is_dir: true, readonly: false }, false, (None, None)).unwrap(), OutputCheck::Ready);
}

#[test]
fn probe_names_and_steps() {
    assert_eq!(
        probe_file_name(4242, 1_700_000_000_123_456_789, 3),
        ".unifi-protect-bulk-download-write-test-4242-1700000000123456789-3"
    );
    assert!(matches!(probe_step("/d", 0, ProbeAttempt::AlreadyExists), ProbeAction::Retry(1)));
    match probe_step("/d", PROBE_ATTEMPTS - 1, ProbeAttempt::AlreadyExists) {
        ProbeAction::Finish(Err(e)) => assert_eq!(
            e.to_string(),
            "pre-download output path check failed: '/d' is not writable: could not create a unique output path probe file without overwriting an existing file"
        ),
        other => panic!("unexpected {:?}", other),
    }
    assert!(matches!(probe_step("/d", 2, ProbeAttempt::Succeeded), ProbeAction::Finish(Ok(()))));
    match probe_step("/d", 2, ProbeAttempt::WriteFailed(io(IoErrorKind::Other, "disk full"))) {
        ProbeAction::Finish(Err(e)) => assert_eq!(e.to_string(), "pre-download output path check failed: '/d' is not writable: disk full"),
        other => panic!("unexpected {:?}", other),
    }
    assert!(matches!(
        probe_step("/d", 2, ProbeAttempt::CreateFailed(io(IoErrorKind::PermissionDenied, "x"))),
        ProbeAction::Finish(Err(AppError::OutputPathNotWritable { .. }))
    ));
    assert!(matches!(
        probe_step("/d", 2, ProbeAttempt::RemoveFailed(io(IoErrorKind::Other, "x"))),
        ProbeAction::Finish(Err(AppError::OutputPathNotWritable { .. }))
    ));
}
