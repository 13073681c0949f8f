//! What can go wrong with a plain HTTP request.

use crate::bridge::transport_message;
use vstd::prelude::*;
use vstd::string::StringExecFns;

verus! {

/// Errors of a plain HTTP request. Variants with a `String` carry the
/// detail that follows the fixed prefix of the message.
#[derive(Debug)]
pub enum NetworkError {
    /// Reading or writing failed.
    IoError(String),
    /// The request was answered with a non-success status.
    HttpError(String),
    /// The address could not be parsed.
    InvalidUrl(String),
    /// The request took too long.
    Timeout,
    /// No connection could be made.
    ConnectionError(String),
    /// The body of the answer could not be decoded.
    ResponseParseError(String),
    /// Anything else.
    Other(String),
}

/// A network error with its detail as a character sequence.
pub enum NetworkErrorView {
    IoError(Seq<char>),
    HttpError(Seq<char>),
    InvalidUrl(Seq<char>),
    Timeout,
    ConnectionError(Seq<char>),
    ResponseParseError(Seq<char>),
    Other(Seq<char>),
}

impl View for NetworkError {
    type V = NetworkErrorView;

    open spec fn view(&self) -> NetworkErrorView {
        match self {
            NetworkError::IoError(s) => NetworkErrorView::IoError(s@),
            NetworkError::HttpError(s) => NetworkErrorView::HttpError(s@),
            NetworkError::InvalidUrl(s) => NetworkErrorView::InvalidUrl(s@),
            NetworkError::Timeout => NetworkErrorView::Timeout,
            NetworkError::ConnectionError(s) => NetworkErrorView::ConnectionError(s@),
            NetworkError::ResponseParseError(s) => NetworkErrorView::ResponseParseError(s@),
            NetworkError::Other(s) => NetworkErrorView::Other(s@),
        }
    }
}

impl NetworkErrorView {
    /// The message shown to the user: a fixed prefix, then the detail.
    pub open spec fn message(self) -> Seq<char> {
        match self {
            NetworkErrorView::IoError(s) => "IO错误: "@ + s,
            NetworkErrorView::HttpError(s) => "HTTP请求错误: "@ + s,
            NetworkErrorView::InvalidUrl(s) => "无效的URL: "@ + s,
            NetworkErrorView::Timeout => "请求超时"@,
            NetworkErrorView::ConnectionError(s) => "连接错误: "@ + s,
            NetworkErrorView::ResponseParseError(s) => "响应解析错误: "@ + s,
            NetworkErrorView::Other(s) => "其他错误: "@ + s,
        }
    }
}

/// What a failed request tells of itself: whether it ran out of time,
/// could not connect, could not decode the body or was refused for its
/// status, and its message.
#[derive(Debug)]
pub struct TransportFault {
    pub timeout: bool,
    pub connect: bool,
    pub decode: bool,
    pub status: bool,
    pub message: String,
}

/// The detail of the error for a request refused for its status.
pub open spec fn status_error(message: Seq<char>) -> Seq<char> {
    "状态码错误: "@ + message
}

/// The error that a fault stands for. The first trait that holds
/// decides, in this order: timeout, connection, decoding, status.
pub open spec fn classified(fault: TransportFault) -> NetworkErrorView {
    if fault.timeout {
        NetworkErrorView::Timeout
    } else if fault.connect {
        NetworkErrorView::ConnectionError(fault.message@)
    } else if fault.decode {
        NetworkErrorView::ResponseParseError(fault.message@)
    } else if fault.status {
        NetworkErrorView::HttpError(status_error(fault.message@))
    } else {
        NetworkErrorView::Other(fault.message@)
    }
}

/// Sorts a failed request into the error it stands for.
pub fn classify(fault: TransportFault) -> (e: NetworkError)
    ensures
        e@ == classified(fault),
{
    if fault.timeout {
        NetworkError::Timeout
    } else if fault.connect {
        NetworkError::ConnectionError(fault.message)
    } else if fault.decode {
        NetworkError::ResponseParseError(fault.message)
    } else if fault.status {
        NetworkError::HttpError(String::from_str("状态码错误: ").concat(fault.message.as_str()))
    } else {
        NetworkError::Other(fault.message)
    }
}

impl NetworkError {
    /// Renders the message shown to the user.
    pub fn to_string(&self) -> (text: String)
        ensures
            text@ == self@.message(),
    {
        match self {
            NetworkError::IoError(s) => String::from_str("IO错误: ").concat(s.as_str()),
            NetworkError::HttpError(s) => String::from_str("HTTP请求错误: ").concat(s.as_str()),
            NetworkError::InvalidUrl(s) => String::from_str("无效的URL: ").concat(s.as_str()),
            NetworkError::Timeout => String::from_str("请求超时"),
            NetworkError::ConnectionError(s) => String::from_str("连接错误: ").concat(s.as_str()),
            NetworkError::ResponseParseError(s) => String::from_str("响应解析错误: ").concat(
                s.as_str(),
            ),
            NetworkError::Other(s) => String::from_str("其他错误: ").concat(s.as_str()),
        }
    }

    /// The error that a failed request of `reqwest` stands for: the
    /// classification of what the request tells of itself.
    pub fn from_transport(err: &reqwest::Error) -> (e: NetworkError)
        ensures
            exists|fault: TransportFault| e@ == #[trigger] classified(fault),
            e is Timeout || e is ConnectionError || e is ResponseParseError || e is HttpError
                || e is Other,
    {
        let fault = TransportFault {
            timeout: err.is_timeout(),
            connect: err.is_connect(),
            decode: err.is_decode(),
            status: err.is_status(),
            message: transport_message(err),
        };
        classify(fault)
    }
}

} // verus!
