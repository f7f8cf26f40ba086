use unifi_protect_bulk_download::api::Camera;
use unifi_protect_bulk_download::calendar::{CivilDate, CivilDateTime};
use unifi_protect_bulk_download::download::{
    camera_selected, download_plan, keep_ascii, local_time_frames, video_file_name,
};
use unifi_protect_bulk_download::parse_args::{
    parse_args, ArgsError, Commands, DownloadMode, HelpTopic, RecordingType,
};
use unifi_protect_bulk_download::zone::ZonedDateTime;

fn args(v: &[&str]) -> Vec<String> {
    v.iter().map(|s| s.to_string()).collect()
}

const BASE: [&str; 9] = [
    "download", "https://nvr", "admin", "secret", "/footage", "daily", "rotating", "2023-06-01", "2023-07-31",
];

#[test]
fn readme_example_parses() {
    let cli = parse_args(&args(&BASE)).unwrap();
    let Commands::Download(d) = cli.command;
    assert_eq!(d.uri, "https://nvr");
    assert_eq!(d.username, "admin");
    assert_eq!(d.password, "secret");
    assert_eq!(d.out_path, "/footage");
    assert_eq!(d.mode, DownloadMode::Daily);
    assert_eq!(d.recording_type, RecordingType::Rotating);
    assert_eq!(d.start_date, "2023-06-01");
    assert_eq!(d.end_date, "2023-07-31");
    assert!(d.cameras.is_empty());
}

#[test]
fn cameras_are_split_at_commas() {
    let mut v = BASE.to_vec();
    v[5] = "hourly";
    v[6] = "timelapse";
    v.push("Front,Back");
    v.push("all");
    v.push("a,,b");
    let Commands::Download(d) = parse_args(&args(&v)).unwrap().command;
    assert_eq!(d.mode, DownloadMode::Hourly);
    assert_eq!(d.recording_type, RecordingType::Timelapse);
    assert_eq!(d.cameras, args(&["Front", "Back", "all", "a", "", "b"]));
}

#[test]
fn help_names_the_command_asked_about() {
    assert!(matches!(parse_args(&args(&["help", "download"])), Err(ArgsError::HelpRequested(HelpTopic::Download))));
    assert!(matches!(parse_args(&args(&["download", "--help"])), Err(ArgsError::HelpRequested(HelpTopic::Download))));
    assert!(matches!(parse_args(&args(&["help", "help"])), Err(ArgsError::HelpRequested(HelpTopic::Help))));
    assert!(matches!(parse_args(&args(&["-h", "download"])), Err(ArgsError::HelpRequested(HelpTopic::Program))));
    assert!(matches!(parse_args(&args(&["help", "upload"])), Err(ArgsError::UnknownSubcommand(s)) if s == "upload"));
    assert!(matches!(parse_args(&args(&["help", "download", "x"])), Err(ArgsError::UnknownSubcommand(s)) if s == "x"));
    assert!(matches!(parse_args(&args(&["help", "--help"])), Err(ArgsError::UnknownSubcommand(s)) if s == "--help"));
}

#[test]
fn flags_and_errors() {
    assert!(matches!(parse_args(&args(&[])), Err(ArgsError::MissingSubcommand)));
    assert!(matches!(parse_args(&args(&["--help"])), Err(ArgsError::HelpRequested(HelpTopic::Program))));
    assert!(matches!(parse_args(&args(&["help"])), Err(ArgsError::HelpRequested(HelpTopic::Program))));
    assert!(matches!(parse_args(&args(&["-V"])), Err(ArgsError::VersionRequested)));
    assert!(matches!(parse_args(&args(&["upload"])), Err(ArgsError::UnknownSubcommand(s)) if s == "upload"));
    assert!(matches!(parse_args(&args(&["--verbose"])), Err(ArgsError::UnknownArgument { arg, positionals_follow: false }) if arg == "--verbose"));
    assert!(matches!(parse_args(&args(&["download", "a", "-h"])), Err(ArgsError::HelpRequested(HelpTopic::Download))));
    assert!(matches!(parse_args(&args(&["download", "a", "--version"])), Err(ArgsError::VersionRequested)));
    let err = parse_args(&args(&["download", "a", "-x"])).unwrap_err();
    assert!(matches!(&err, ArgsError::UnknownArgument { arg, positionals_follow: true } if arg == "-x"));
    assert_eq!(
        err.to_string(),
        "error: unexpected argument '-x' found\n\n  tip: to pass '-x' as a value, use '-- -x'"
    );
    let err = parse_args(&args(&["download", "a", "b"])).unwrap_err();
    match &err {
        ArgsError::MissingArguments(names) => assert_eq!(
            names,
            &args(&["<PASSWORD>", "<OUT_PATH>", "<MODE>", "<RECORDING_TYPE>", "<START_DATE>", "<END_DATE>"])
        ),
        other => panic!("unexpected {:?}", other),
    }
    assert_eq!(
        err.to_string(),
        "error: the following required arguments were not provided:\n  <PASSWORD>\n  <OUT_PATH>\n  <MODE>\n  <RECORDING_TYPE>\n  <START_DATE>\n  <END_DATE>"
    );
    assert_eq!(
        parse_args(&args(&["upload"])).unwrap_err().to_string(),
        "error: unrecognized subcommand 'upload'"
    );
    assert_eq!(
        parse_args(&args(&["--verbose"])).unwrap_err().to_string(),
        "error: unexpected argument '--verbose' found"
    );
    assert_eq!(
        parse_args(&args(&[])).unwrap_err().to_string(),
        "error: 'unifi_protect_bulk_download' requires a subcommand but one was not provided\n  [subcommands: download, help]"
    );
    let mut v = BASE.to_vec();
    v[5] = "weekly";
    let err = parse_args(&args(&v)).unwrap_err();
    match &err {
        ArgsError::InvalidValue { arg, value, possible_values } => {
            assert_eq!(arg, "<MODE>");
            assert_eq!(value, "weekly");
            assert_eq!(possible_values, &args(&["daily", "hourly"]));
        }
        other => panic!("unexpected {:?}", other),
    }
    assert_eq!(
        err.to_string(),
        "error: invalid value 'weekly' for '<MODE>'\n  [possible values: daily, hourly]"
    );
    let mut v = BASE.to_vec();
    v[6] = "Rotating";
    let err = parse_args(&args(&v)).unwrap_err();
    assert!(matches!(&err, ArgsError::InvalidValue { arg, .. } if arg == "<RECORDING_TYPE>"));
    assert_eq!(
        err.to_string(),
        "error: invalid value 'Rotating' for '<RECORDING_TYPE>'\n  [possible values: rotating, timelapse]"
    );
    let mut v = BASE.to_vec();
    v[5] = "";
    assert_eq!(
        parse_args(&args(&v)).unwrap_err().to_string(),
        "error: a value is required for '<MODE>' but none was supplied\n  [possible values: daily, hourly]"
    );
    let v = ["download", "--", "-uri", "u", "p", "-", "daily", "rotating", "s", "e", "-h"];
    let Commands::Download(d) = parse_args(&args(&v)).unwrap().command;
    assert_eq!(d.uri, "-uri");
    assert_eq!(d.out_path, "-");
    assert_eq!(d.cameras, args(&["-h"]));
}

#[test]
fn recording_type_names() {
    assert_eq!(RecordingType::Rotating.as_str(), "rotating");
    assert_eq!(RecordingType::Timelapse.as_str(), "timelapse");
}

fn camera(id: &str, name: &str) -> Camera {
    Camera { id: id.to_string(), name: name.to_string(), mac: String::new(), is_connected: false, camera_type: None }
}

#[test]
fn camera_selection() {
    let cam = camera("id-1", "Front");
    assert!(camera_selected(&args(&["Front"]), &cam));
    assert!(camera_selected(&args(&["x", "id-1"]), &cam));
    assert!(camera_selected(&args(&["*"]), &cam));
    assert!(camera_selected(&args(&["all"]), &cam));
    assert!(!camera_selected(&args(&["front", "ALL"]), &cam));
    assert!(camera_selected(&args(&[]), &cam));
    assert!(!camera_selected(&args(&["Back"]), &cam));
}

fn start(y: i32, mo: u32, d: u32, h: u32) -> ZonedDateTime {
    ZonedDateTime {
        local: CivilDateTime { date: CivilDate { year: y, month: mo, day: d }, hour: h, minute: 30, second: 0 },
        offset_seconds: 7200,
        timestamp_millis: 0,
    }
}

#[test]
fn file_names() {
    assert_eq!(
        video_file_name(&start(2023, 6, 1, 5), "Front Door", RecordingType::Rotating),
        "2023-06-01-05-Front Door-rotating.mp4"
    );
    assert_eq!(
        video_file_name(&start(2023, 6, 1, 5), "Gar/age: Café", RecordingType::Timelapse),
        "2023-06-01-05-Garage Caf-timelapse.mp4"
    );
    let long = "x".repeat(300);
    assert_eq!(video_file_name(&start(2023, 6, 1, 5), &long, RecordingType::Rotating).len(), 255);
    assert_eq!(keep_ascii("añb€c"), "abc");
}

#[test]
fn plan_covers_frames_then_cameras() {
    let frames = vec![(start(2023, 6, 1, 5), start(2023, 6, 1, 5)), (start(2023, 6, 1, 6), start(2023, 6, 1, 6))];
    let cams = vec![camera("1", "A"), camera("2", "B"), camera("3", "C")];
    let jobs = download_plan(&frames, &cams, &args(&["A", "3"]), RecordingType::Rotating);
    let pairs: Vec<(usize, usize)> = jobs.iter().map(|j| (j.frame, j.camera)).collect();
    assert_eq!(pairs, vec![(0, 0), (0, 2), (1, 0), (1, 2)]);
    assert_eq!(jobs[3].file_name, "2023-06-01-06-C-rotating.mp4");
    let all = download_plan(&frames, &cams, &args(&["*"]), RecordingType::Timelapse);
    assert_eq!(all.len(), 6);
    assert_eq!(download_plan(&frames, &cams, &args(&[]), RecordingType::Timelapse).len(), 6);
    assert!(download_plan(&frames, &cams, &args(&["nobody"]), RecordingType::Timelapse).is_empty());
}

#[test]
fn frames_in_the_local_zone_keep_their_wall_clock() {
    let t0 = CivilDateTime { date: CivilDate { year: 2023, month: 6, day: 15 }, hour: 10, minute: 0, second: 0 };
    let t1 = CivilDateTime { hour: 10, minute: 59, second: 59, ..t0 };
    let zoned = local_time_frames(&vec![(t0, t1)]).unwrap();
    assert_eq!(zoned.len(), 1);
    assert_eq!(zoned[0].0.local, t0);
    assert_eq!(zoned[0].1.local, t1);
    assert_eq!(zoned[0].1.timestamp_millis - zoned[0].0.timestamp_millis, 3_599_000);
}
