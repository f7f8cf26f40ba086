use unifi_protect_bulk_download::parse_args::RecordingType;
use unifi_protect_bulk_download::api::{
    cameras_outcome, download_failure, download_ready, login_outcome, prepare_failure,
    prepare_step, prepared_file_name, Camera, HttpStatus, PrepareStep, UnifiProtectClient,
};

fn status(code: u16, reason: Option<&str>) -> HttpStatus {
    HttpStatus { code, reason: reason.map(|r| r.to_string()) }
}

fn camera(id: &str, name: &str) -> Camera {
    Camera {
        id: id.to_string(),
        name: name.to_string(),
        mac: "AABBCCDDEEFF".to_string(),
        is_connected: true,
        camera_type: None,
    }
}

#[test]
fn test_url_cleanup() {
    let client = UnifiProtectClient::new("https://example.com/");
    assert_eq!(client.base_url, "https://example.com");

    let client2 = UnifiProtectClient::new("https://example.com");
    assert_eq!(client2.base_url, "https://example.com");
}

#[test]
fn every_trailing_slash_is_dropped() {
    assert_eq!(UnifiProtectClient::new("https://nvr.local///").base_url, "https://nvr.local");
    assert_eq!(UnifiProtectClient::new("///").base_url, "");
    assert_eq!(UnifiProtectClient::new("").base_url, "");
    assert_eq!(UnifiProtectClient::new("https://a/b/").base_url, "https://a/b");
}

#[test]
fn request_urls() {
    let client = UnifiProtectClient::new("https://192.168.1.1/");
    assert_eq!(client.login_url(), "https://192.168.1.1/api/auth/login");
    assert_eq!(client.cameras_url(), "https://192.168.1.1/proxy/protect/api/cameras");
    let cam = camera("abc123", "Front Door");
    assert_eq!(
        client.prepare_url(&cam, 1_685_570_400_000, -5, "2023-06-01-00 Front Door é.mp4", RecordingType::Rotating),
        "https://192.168.1.1/proxy/protect/api/video/prepare?camera=abc123&channel=0\
         &start=1685570400000&end=-5&filename=2023-06-01-00%20Front%20Door%20%C3%A9.mp4\
         &fps=0&lens=0&type=rotating"
    );
    assert!(client
        .prepare_url(&cam, 0, 1, "x", RecordingType::Timelapse)
        .ends_with("&filename=x&fps=0&lens=0&type=timelapse"));
    assert_eq!(
        client.download_url("abc123", "a b~c_d.e-f/g"),
        "https://192.168.1.1/proxy/protect/api/video/download?camera=abc123&filename=a%20b~c_d.e-f%2Fg"
    );
}

#[test]
fn login_answers() {
    assert_eq!(login_outcome(&status(200, Some("OK"))), Ok(()));
    assert_eq!(
        login_outcome(&status(401, Some("Unauthorized"))),
        Err("Invalid username or password".to_string())
    );
    assert_eq!(
        login_outcome(&status(500, Some("Internal Server Error"))),
        Err("Login failed with status: 500 Internal Server Error".to_string())
    );
    assert_eq!(
        login_outcome(&status(599, None)),
        Err("Login failed with status: 599 <unknown status code>".to_string())
    );
}

#[test]
fn camera_list_answers() {
    assert_eq!(cameras_outcome(&status(200, Some("OK"))), Ok(()));
    assert_eq!(cameras_outcome(&status(204, Some("No Content"))), Ok(()));
    assert_eq!(
        cameras_outcome(&status(403, Some("Forbidden"))),
        Err("Failed to fetch cameras: HTTP 403 Forbidden".to_string())
    );
    assert_eq!(
        cameras_outcome(&status(302, Some("Found"))),
        Err("Failed to fetch cameras: HTTP 302 Found".to_string())
    );
}

#[test]
fn prepare_answers() {
    assert_eq!(prepare_step(&status(200, Some("OK"))), PrepareStep::ReadFileName);
    assert_eq!(prepare_step(&status(404, Some("Not Found"))), PrepareStep::NoRecording);
    assert_eq!(prepare_step(&status(500, None)), PrepareStep::ReadErrorBody);
    assert_eq!(
        prepared_file_name(br#"{"fileName":"prepared-1.mp4","other":1}"#),
        Ok(Some("prepared-1.mp4".to_string()))
    );
    assert_eq!(
        prepared_file_name(br#"{"fileName":5}"#),
        Err("Prepare response missing fileName".to_string())
    );
    assert_eq!(
        prepared_file_name(br#"{}"#),
        Err("Prepare response missing fileName".to_string())
    );
    assert_eq!(
        prepared_file_name(b"not json"),
        Err("Failed to parse prepare response: error decoding response body".to_string())
    );
    assert_eq!(
        prepared_file_name(b"{\"fileName\":\"a\xff\"}"),
        Err("Failed to parse prepare response: error decoding response body".to_string())
    );
    assert_eq!(
        prepare_failure(&status(500, Some("Internal Server Error")), "boom"),
        "Prepare failed with status: 500 Internal Server Error - boom"
    );
}

#[test]
fn download_answers() {
    assert!(download_ready(&status(200, Some("OK"))));
    assert!(!download_ready(&status(206, Some("Partial Content"))));
    assert_eq!(
        download_failure(&status(404, Some("Not Found")), ""),
        "Download failed with status: 404 Not Found - "
    );
}
