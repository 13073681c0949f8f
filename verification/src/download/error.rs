//! What can go wrong while a download is set up or run.

use vstd::prelude::*;
use vstd::string::StringExecFns;

verus! {

/// Errors of the download manager. Variants with a `String` carry the
/// detail that follows the fixed prefix of the message.
#[derive(Debug)]
pub enum DownloadError {
    /// A file-system operation failed.
    IoError(String),
    /// A request failed or was answered with a non-success status.
    HttpError(String),
    /// The address could not be parsed.
    InvalidUrl(String),
    /// The server did not report the size of the resource.
    ContentLengthError,
    /// The server does not serve byte ranges.
    RangeNotSupported,
    /// A task with this identifier is already registered.
    TaskAlreadyExists(String),
    /// No task with this identifier is registered.
    TaskNotFound(String),
    /// Shared state could not be locked.
    LockError,
    /// Writing to the destination failed.
    WriteError(String),
    /// Anything else.
    Other(String),
}

/// An error with its detail as a character sequence.
pub enum ErrorView {
    IoError(Seq<char>),
    HttpError(Seq<char>),
    InvalidUrl(Seq<char>),
    ContentLengthError,
    RangeNotSupported,
    TaskAlreadyExists(Seq<char>),
    TaskNotFound(Seq<char>),
    LockError,
    WriteError(Seq<char>),
    Other(Seq<char>),
}

impl View for DownloadError {
    type V = ErrorView;

    open spec fn view(&self) -> ErrorView {
        match self {
            DownloadError::IoError(s) => ErrorView::IoError(s@),
            DownloadError::HttpError(s) => ErrorView::HttpError(s@),
            DownloadError::InvalidUrl(s) => ErrorView::InvalidUrl(s@),
            DownloadError::ContentLengthError => ErrorView::ContentLengthError,
            DownloadError::RangeNotSupported => ErrorView::RangeNotSupported,
            DownloadError::TaskAlreadyExists(s) => ErrorView::TaskAlreadyExists(s@),
            DownloadError::TaskNotFound(s) => ErrorView::TaskNotFound(s@),
            DownloadError::LockError => ErrorView::LockError,
            DownloadError::WriteError(s) => ErrorView::WriteError(s@),
            DownloadError::Other(s) => ErrorView::Other(s@),
        }
    }
}

impl ErrorView {
    /// The message shown to the user: a fixed prefix, then the detail.
    pub open spec fn message(self) -> Seq<char> {
        match self {
            ErrorView::IoError(s) => "IO错误: "@ + s,
            ErrorView::HttpError(s) => "HTTP请求错误: "@ + s,
            ErrorView::InvalidUrl(s) => "无效的URL: "@ + s,
            ErrorView::ContentLengthError => "无法获取文件大小"@,
            ErrorView::RangeNotSupported => "服务器不支持断点续传"@,
            ErrorView::TaskAlreadyExists(s) => "任务已存在: "@ + s,
            ErrorView::TaskNotFound(s) => "任务不存在: "@ + s,
            ErrorView::LockError => "锁定错误"@,
            ErrorView::WriteError(s) => "文件写入错误: "@ + s,
            ErrorView::Other(s) => "其他错误: "@ + s,
        }
    }
}

impl DownloadError {
    /// Renders the message shown to the user.
    pub fn to_string(&self) -> (text: String)
        ensures
            text@ == self@.message(),
    {
        match self {
            DownloadError::IoError(s) => String::from_str("IO错误: ").concat(s.as_str()),
            DownloadError::HttpError(s) => String::from_str("HTTP请求错误: ").concat(s.as_str()),
            DownloadError::InvalidUrl(s) => String::from_str("无效的URL: ").concat(s.as_str()),
            DownloadError::ContentLengthError => String::from_str("无法获取文件大小"),
            DownloadError::RangeNotSupported => String::from_str("服务器不支持断点续传"),
            DownloadError::TaskAlreadyExists(s) => String::from_str("任务已存在: ").concat(
                s.as_str(),
            ),
            DownloadError::TaskNotFound(s) => String::from_str("任务不存在: ").concat(s.as_str()),
            DownloadError::LockError => String::from_str("锁定错误"),
            DownloadError::WriteError(s) => String::from_str("文件写入错误: ").concat(s.as_str()),
            DownloadError::Other(s) => String::from_str("其他错误: ").concat(s.as_str()),
        }
    }
}

} // verus!
