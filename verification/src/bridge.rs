//! Calls into the standard library and into other crates. The contracts in
//! this file are stated, not proved: each one repeats what the called
//! function documents.

use vstd::prelude::*;

verus! {

/// Reads the wall clock through `SystemTime::elapsed` on the Unix epoch:
/// the milliseconds since the epoch, or the text of the error that the
/// standard library reports when the clock stands before the epoch.
/// Nothing is claimed of the value.
#[verifier::external_body]
pub(crate) fn unix_millis() -> (r: Result<u64, String>) {
    match std::time::UNIX_EPOCH.elapsed() {
        Ok(elapsed) => Ok(elapsed.as_millis() as u64),
        Err(e) => Err(e.to_string()),
    }
}

/// What `Path::join` makes of a directory and a name.
pub uninterp spec fn joined_path(dir: Seq<char>, name: Seq<char>) -> Seq<char>;

/// `Path::join`: the path of `name` under `dir`, as the platform writes it.
/// The result depends on the two arguments alone.
#[verifier::external_body]
pub(crate) fn join_path(dir: &str, name: &str) -> (r: String)
    ensures
        r@ == joined_path(dir@, name@),
{
    std::path::Path::new(dir).join(name).to_string_lossy().into_owned()
}

/// What `Url::parse` makes of an address: the path of the parsed URL, or
/// the message of the parse error.
pub uninterp spec fn parsed_url_path(input: Seq<char>) -> Result<Seq<char>, Seq<char>>;

/// `url::Url::parse`, followed by `Url::path` on success and by the error's
/// `Display` text on failure. Parsing reads nothing but its argument.
#[verifier::external_body]
pub(crate) fn url_path(input: &str) -> (r: Result<String, String>)
    ensures
        match r {
            Ok(path) => parsed_url_path(input@) == Ok::<Seq<char>, Seq<char>>(path@),
            Err(message) => parsed_url_path(input@) == Err::<Seq<char>, Seq<char>>(message@),
        },
{
    match url::Url::parse(input) {
        Ok(parsed) => Ok(parsed.path().to_string()),
        Err(e) => Err(e.to_string()),
    }
}

/// `uuid::Uuid::new_v4`, written in the hyphenated form of its `Display`:
/// a random identifier of 36 characters. Two calls may differ.
#[verifier::external_body]
pub(crate) fn fresh_id() -> (id: String)
    ensures
        id@.len() == 36,
{
    uuid::Uuid::new_v4().to_string()
}

/// `StatusCode::is_success`: whether the status lies in 200..=299. A
/// number that is no status code at all is no success.
#[verifier::external_body]
pub(crate) fn status_is_success(code: u16) -> (r: bool)
    ensures
        r == (200 <= code < 300),
{
    match reqwest::StatusCode::from_u16(code) {
        Ok(status) => status.is_success(),
        Err(_) => false,
    }
}

/// How `StatusCode` displays a status: the number and its canonical reason.
pub uninterp spec fn status_line(code: u16) -> Seq<char>;

/// The detail of the error for an answer with a status that is no success.
pub open spec fn status_failure(code: u16) -> Seq<char> {
    "HTTP错误: "@ + status_line(code)
}

/// The `Display` text of `StatusCode`, or that of the error of
/// `StatusCode::from_u16` for a number outside 100..=999.
#[verifier::external_body]
pub(crate) fn status_text(code: u16) -> (r: String)
    ensures
        r@ == status_line(code),
{
    match reqwest::StatusCode::from_u16(code) {
        Ok(status) => status.to_string(),
        Err(e) => e.to_string(),
    }
}

/// Whether a header value may hold `c`: anything but the control
/// characters other than the tab.
pub open spec fn header_char(c: char) -> bool {
    (c as int >= 32 && c as int != 127) || c as int == 9
}

/// Whether every character of `text` may stand in a header value.
pub open spec fn header_text(text: Seq<char>) -> bool {
    forall|i: int| 0 <= i < text.len() ==> header_char(#[trigger] text[i])
}

/// The message of `InvalidHeaderValue`.
pub open spec fn invalid_header_message() -> Seq<char> {
    "failed to parse header value"@
}

/// `HeaderValue::from_str`: accepts `text` unless one of its bytes is a
/// control character other than the tab. Returns the message of the
/// error, `None` where the value was accepted.
#[verifier::external_body]
pub(crate) fn header_value_error(text: &str) -> (r: Option<String>)
    ensures
        r is None <==> header_text(text@),
        r matches Some(message) ==> message@ == invalid_header_message(),
{
    match reqwest::header::HeaderValue::from_str(text) {
        Ok(_) => None,
        Err(e) => Some(e.to_string()),
    }
}

/// A failed request of `reqwest`.
#[verifier::external_type_specification]
#[verifier::external_body]
pub struct ExTransportError(reqwest::Error);

/// `reqwest::Error::is_timeout`: whether the request ran out of time.
pub assume_specification[ reqwest::Error::is_timeout ](err: &reqwest::Error) -> bool;

/// `reqwest::Error::is_connect`: whether no connection could be made.
pub assume_specification[ reqwest::Error::is_connect ](err: &reqwest::Error) -> bool;

/// `reqwest::Error::is_decode`: whether the body could not be decoded.
pub assume_specification[ reqwest::Error::is_decode ](err: &reqwest::Error) -> bool;

/// `reqwest::Error::is_status`: whether the answer was refused for its status.
pub assume_specification[ reqwest::Error::is_status ](err: &reqwest::Error) -> bool;

/// The `Display` text of a failed request. Nothing is claimed of it.
#[verifier::external_body]
pub(crate) fn transport_message(err: &reqwest::Error) -> (r: String) {
    err.to_string()
}

} // verus!
