//! The UniFi Protect API: the URLs of its requests and what its answers mean.
//! Sending requests and reading answers is left to the caller.
use vstd::prelude::*;
use crate::download::recording_type_text;
use crate::parse_args::RecordingType;
use crate::text::{decimal, push_char, push_decimal, signed_decimal, push_signed_decimal};

verus! {

/// A camera as the API lists it (only the fields the tool uses).
#[derive(Clone, Debug)]
pub struct Camera {
    pub id: String,
    pub name: String,
    pub mac: String,
    pub is_connected: bool,
    pub camera_type: Option<String>,
}

/// Client for one UniFi Protect server.
#[derive(Clone, Debug)]
pub struct UnifiProtectClient {
    /// The server URL, without trailing slashes.
    pub base_url: String,
}

/// An HTTP status: the code and its canonical reason phrase, if it has one.
#[derive(Clone, Debug)]
pub struct HttpStatus {
    pub code: u16,
    pub reason: Option<String>,
}

/// `s` without the `c` characters at its end.
pub open spec fn trim_end_char(s: Seq<char>, c: char) -> Seq<char>
    decreases s.len(),
{
    if s.len() > 0 && s.last() == c {
        trim_end_char(s.drop_last(), c)
    } else {
        s
    }
}

/// Bytes that percent-encoding leaves as they are: ASCII letters and digits,
/// `-`, `.`, `_` and `~`.
pub open spec fn is_unreserved(b: u8) -> bool {
    (48 <= b <= 57) || (65 <= b <= 90) || (97 <= b <= 122) || b == 45 || b == 46 || b == 95 || b
        == 126
}

/// Upper-case hexadecimal digit.
pub open spec fn hex_digit(d: nat) -> char {
    if d < 10 {
        (48 + d) as char
    } else {
        (55 + d) as char
    }
}

/// Percent-encoding of a byte string: unreserved bytes as themselves, every
/// other byte as `%` and two upper-case hex digits.
pub open spec fn percent_encoded(bytes: Seq<u8>) -> Seq<char>
    decreases bytes.len(),
{
    if bytes.len() == 0 {
        Seq::empty()
    } else {
        let b = bytes.last();
        percent_encoded(bytes.drop_last()) + if is_unreserved(b) {
            seq![b as char]
        } else {
            seq!['%', hex_digit((b / 16) as nat), hex_digit((b % 16) as nat)]
        }
    }
}

/// `urlencoding::encode`, which percent-encodes the UTF-8 bytes of `data`.
/// Claimed: the result is exactly `percent_encoded` of those bytes.
#[verifier::external_body]
fn url_encode(data: &str) -> (r: String)
    ensures
        r@ == percent_encoded(vstd::utf8::encode_utf8(data@)),
{
    urlencoding::encode(data).into_owned()
}

/// What `serde_json` finds in the bytes `body` under the top-level key `key`:
/// `None` when `body` is not JSON; otherwise the string stored there, or `None`
/// when the key is missing or holds no string.
pub uninterp spec fn json_string_member(body: Seq<u8>, key: Seq<char>) -> Option<Option<Seq<char>>>;

/// Parses `body` with `serde_json::from_slice` into a `serde_json::Value` (as
/// reqwest's `Response::json` does) and reads the string member `key` with
/// `Value::get` and `Value::as_str`. Claimed: the outcome is the named
/// function of `body` and `key`.
#[verifier::external_body]
fn json_string_field(body: &[u8], key: &str) -> (r: Option<Option<String>>)
    ensures
        match r {
            Some(Some(v)) => json_string_member(body@, key@) == Some(Some(v@)),
            Some(None) => json_string_member(body@, key@) == Some(None::<Seq<char>>),
            None => json_string_member(body@, key@) == None::<Option<Seq<char>>>,
        },
{
    serde_json::from_slice::<serde_json::Value>(body).ok().map(
        |v| v.get(key).and_then(|f| f.as_str()).map(|f| f.to_owned()),
    )
}

/// `code reason` as the `http` crate displays a status, with
/// `<unknown status code>` when the code has no canonical reason.
pub open spec fn status_text(status: HttpStatus) -> Seq<char> {
    decimal(status.code as nat) + " "@ + match status.reason {
        Some(r) => r@,
        None => "<unknown status code>"@,
    }
}

impl HttpStatus {
    /// A 2xx status.
    pub open spec fn spec_is_success(&self) -> bool {
        200 <= self.code < 300
    }

    /// Is this a 2xx status?
    pub fn is_success(&self) -> (r: bool)
        ensures
            r == self.spec_is_success(),
    {
        200 <= self.code && self.code < 300
    }

    /// Appends `code reason`.
    pub fn push_text(&self, s: &mut String)
        ensures
            final(s)@ == old(s)@ + status_text(*self),
    {
        push_decimal(s, self.code as u128);
        s.append(" ");
        match &self.reason {
            Some(r) => s.append(r.as_str()),
            None => s.append("<unknown status code>"),
        }
        assert(s@ =~= old(s)@ + status_text(*self));
    }
}

/// `prefix` followed by the status text.
pub open spec fn status_message(prefix: Seq<char>, status: HttpStatus) -> Seq<char> {
    prefix + status_text(status)
}

/// What a prepare request's answer asks for next.
#[derive(Clone, Copy, Debug, PartialEq, Eq, Structural)]
pub enum PrepareStep {
    /// 200: read the JSON body for the prepared file's name.
    ReadFileName,
    /// 404: there is no recording for the range.
    NoRecording,
    /// Any other status: read the body for the error message.
    ReadErrorBody,
}

/// `s@` in the error message `prefix - body`.
pub open spec fn failure_message(prefix: Seq<char>, status: HttpStatus, body: Seq<char>) -> Seq<char> {
    prefix + status_text(status) + " - "@ + body
}

impl UnifiProtectClient {
    /// A client for the server at `base_url` (such as `https://192.168.1.1`);
    /// trailing slashes are dropped.
    pub fn new(base_url: &str) -> (r: UnifiProtectClient)
        ensures
            r.base_url@ == trim_end_char(base_url@, '/'),
    {
        let n = base_url.unicode_len();
        let mut end = n;
        proof {
            assert(base_url@.take(n as int) =~= base_url@);
        }
        while end > 0 && base_url.get_char(end - 1) == '/'
            invariant
                n == base_url@.len(),
                end <= n,
                trim_end_char(base_url@, '/') == trim_end_char(base_url@.take(end as int), '/'),
            decreases end,
        {
            assert(base_url@.take(end as int).drop_last() =~= base_url@.take(end - 1));
            end = end - 1;
        }
        proof {
            assert(base_url@.take(end as int) =~= base_url@.subrange(0, end as int));
        }
        let trimmed = base_url.substring_char(0, end);
        UnifiProtectClient { base_url: trimmed.to_owned() }
    }

    pub open spec fn login_url_text(&self) -> Seq<char> {
        self.base_url@ + "/api/auth/login"@
    }

    /// Where the credentials are posted.
    pub fn login_url(&self) -> (r: String)
        ensures
            r@ == self.login_url_text(),
    {
        let mut u = self.base_url.clone();
        u.append("/api/auth/login");
        u
    }

    pub open spec fn cameras_url_text(&self) -> Seq<char> {
        self.base_url@ + "/proxy/protect/api/cameras"@
    }

    /// Where the camera list is fetched.
    pub fn cameras_url(&self) -> (r: String)
        ensures
            r@ == self.cameras_url_text(),
    {
        let mut u = self.base_url.clone();
        u.append("/proxy/protect/api/cameras");
        u
    }

    pub open spec fn prepare_url_text(&self, camera_id: Seq<char>, start_ms: i64, end_ms: i64, display_filename: Seq<char>, recording_type: RecordingType) -> Seq<char> {
        self.base_url@ + "/proxy/protect/api/video/prepare?camera="@ + camera_id + "&channel=0&start="@
            + signed_decimal(start_ms as int) + "&end="@ + signed_decimal(end_ms as int)
            + "&filename="@ + percent_encoded(vstd::utf8::encode_utf8(display_filename))
            + "&fps=0&lens=0&type="@ + recording_type_text(recording_type)
    }

    /// The request that has the server prepare the footage of `camera` of the
    /// given recording type from `start_ms` to `end_ms` (milliseconds since the
    /// epoch) as a file named `display_filename`.
    pub fn prepare_url(&self, camera: &Camera, start_ms: i64, end_ms: i64, display_filename: &str, recording_type: RecordingType) -> (r: String)
        ensures
            r@ == self.prepare_url_text(camera.id@, start_ms, end_ms, display_filename@, recording_type),
    {
        let mut u = self.base_url.clone();
        u.append("/proxy/protect/api/video/prepare?camera=");
        u.append(camera.id.as_str());
        u.append("&channel=0&start=");
        push_signed_decimal(&mut u, start_ms as i128);
        u.append("&end=");
        push_signed_decimal(&mut u, end_ms as i128);
        u.append("&filename=");
        let encoded = url_encode(display_filename);
        u.append(encoded.as_str());
        u.append("&fps=0&lens=0&type=");
        u.append(recording_type.as_str());
        u
    }

    pub open spec fn download_url_text(&self, camera_id: Seq<char>, filename: Seq<char>) -> Seq<char> {
        self.base_url@ + "/proxy/protect/api/video/download?camera="@ + camera_id + "&filename="@
            + percent_encoded(vstd::utf8::encode_utf8(filename))
    }

    /// The request that fetches the prepared file `filename` of a camera.
    pub fn download_url(&self, camera_id: &str, filename: &str) -> (r: String)
        ensures
            r@ == self.download_url_text(camera_id@, filename@),
    {
        let mut u = self.base_url.clone();
        u.append("/proxy/protect/api/video/download?camera=");
        u.append(camera_id);
        u.append("&filename=");
        let encoded = url_encode(filename);
        u.append(encoded.as_str());
        u
    }
}

/// The result of a login: 200 is success, 401 means bad credentials, any
/// other status is reported.
pub fn login_outcome(status: &HttpStatus) -> (r: Result<(), String>)
    ensures
        status.code == 200 ==> r is Ok,
        status.code == 401 ==> (r matches Err(m) && m@ == "Invalid username or password"@),
        status.code != 200 && status.code != 401 ==> (r matches Err(m) && m@ == status_message(
            "Login failed with status: "@,
            *status,
        )),
{
    if status.code == 200 {
        Ok(())
    } else if status.code == 401 {
        Err("Invalid username or password".to_owned())
    } else {
        let mut m = String::from_str("Login failed with status: ");
        status.push_text(&mut m);
        Err(m)
    }
}

/// Whether a camera-list answer may be read: only a 2xx status.
pub fn cameras_outcome(status: &HttpStatus) -> (r: Result<(), String>)
    ensures
        r is Ok <==> status.spec_is_success(),
        r matches Err(m) ==> m@ == status_message("Failed to fetch cameras: HTTP "@, *status),
{
    if status.is_success() {
        Ok(())
    } else {
        let mut m = String::from_str("Failed to fetch cameras: HTTP ");
        status.push_text(&mut m);
        Err(m)
    }
}

/// What to do with the answer to a prepare request.
pub fn prepare_step(status: &HttpStatus) -> (r: PrepareStep)
    ensures
        r == (if status.code == 200 {
            PrepareStep::ReadFileName
        } else if status.code == 404 {
            PrepareStep::NoRecording
        } else {
            PrepareStep::ReadErrorBody
        }),
{
    if status.code == 200 {
        PrepareStep::ReadFileName
    } else if status.code == 404 {
        PrepareStep::NoRecording
    } else {
        PrepareStep::ReadErrorBody
    }
}

/// The prepared file's name from the JSON body of a successful prepare
/// answer: its `fileName` member. A body that is not JSON gets reqwest's
/// message for an undecodable body.
pub fn prepared_file_name(body: &[u8]) -> (r: Result<Option<String>, String>)
    ensures
        match json_string_member(body@, "fileName"@) {
            Some(Some(f)) => r matches Ok(Some(n)) && n@ == f,
            Some(None) => r matches Err(m) && m@ == "Prepare response missing fileName"@,
            None => r matches Err(m) && m@ == "Failed to parse prepare response: error decoding response body"@,
        },
{
    match json_string_field(body, "fileName") {
        Some(Some(name)) => Ok(Some(name)),
        Some(None) => Err("Prepare response missing fileName".to_owned()),
        None => Err("Failed to parse prepare response: error decoding response body".to_owned()),
    }
}

/// The error for a prepare answer with an unexpected status.
pub fn prepare_failure(status: &HttpStatus, body: &str) -> (r: String)
    ensures
        r@ == failure_message("Prepare failed with status: "@, *status, body@),
{
    let mut m = String::from_str("Prepare failed with status: ");
    status.push_text(&mut m);
    m.append(" - ");
    m.append(body);
    m
}

/// Whether a download answer carries the file: only status 200.
pub fn download_ready(status: &HttpStatus) -> (r: bool)
    ensures
        r == (status.code == 200),
{
    status.code == 200
}

/// The error for a download answer with any status but 200.
pub fn download_failure(status: &HttpStatus, body: &str) -> (r: String)
    ensures
        r@ == failure_message("Download failed with status: "@, *status, body@),
{
    let mut m = String::from_str("Download failed with status: ");
    status.push_text(&mut m);
    m.append(" - ");
    m.append(body);
    m
}

/// Trimming trailing slashes leaves none, and trimming again changes nothing:
/// `https://example.com/` and `https://example.com` name the same server.
pub proof fn law_base_url_has_no_trailing_slash(s: Seq<char>)
    ensures
        trim_end_char(s, '/').len() == 0 || trim_end_char(s, '/').last() != '/',
        trim_end_char(trim_end_char(s, '/'), '/') == trim_end_char(s, '/'),
        trim_end_char(s.push('/'), '/') == trim_end_char(s, '/'),
    decreases s.len(),
{
    assert(s.push('/').drop_last() =~= s);
    if s.len() > 0 && s.last() == '/' {
        law_base_url_has_no_trailing_slash(s.drop_last());
    }
}

} // verus!
