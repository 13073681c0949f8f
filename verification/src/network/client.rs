//! Checks that a plain HTTP client makes before and after a request.

use crate::bridge::{
    header_text, header_value_error, invalid_header_message, status_failure, status_is_success,
    status_text,
};
use crate::network::error::{NetworkError, NetworkErrorView};
use vstd::prelude::*;
use vstd::string::StringExecFns;

verus! {

/// The user agent that a client sends where none is chosen.
pub open spec fn default_user_agent() -> Seq<char> {
    "NovaCL/1.0"@
}

/// Seconds that a client waits for an answer where nothing else is chosen.
pub const DEFAULT_TIMEOUT_SECS: u64 = 30;

/// Judges the status of an answer: anything outside 200..=299 is an error.
pub fn ensure_success(status: u16) -> (r: Result<(), NetworkError>)
    ensures
        200 <= status < 300 ==> r is Ok,
        !(200 <= status < 300) ==> r is Err && r.unwrap_err()@ == NetworkErrorView::HttpError(
            status_failure(status),
        ),
{
    if status_is_success(status) {
        Ok(())
    } else {
        Err(
            NetworkError::HttpError(
                String::from_str("HTTP错误: ").concat(status_text(status).as_str()),
            ),
        )
    }
}

/// The detail of the error for a header value that is refused.
pub open spec fn header_failure() -> Seq<char> {
    "无效的请求头: "@ + invalid_header_message()
}

/// The user agent to send as a header, if one is chosen. A text that no
/// header value can hold is refused.
pub fn user_agent_header(user_agent: Option<&str>) -> (r: Result<Option<String>, NetworkError>)
    ensures
        match user_agent {
            None => r is Ok && r.unwrap() is None,
            Some(text) => if header_text(text@) {
                r is Ok && r.unwrap() is Some && r.unwrap().unwrap()@ == text@
            } else {
                r is Err && r.unwrap_err()@ == NetworkErrorView::Other(header_failure())
            },
        },
{
    match user_agent {
        None => Ok(None),
        Some(text) => match header_value_error(text) {
            None => Ok(Some(String::from_str(text))),
            Some(message) => Err(
                NetworkError::Other(String::from_str("无效的请求头: ").concat(message.as_str())),
            ),
        },
    }
}

} // verus!
