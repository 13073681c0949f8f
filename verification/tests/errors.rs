use novacl::download::DownloadError;

#[test]
fn download_error_messages() {
    let cases = [
        (DownloadError::IoError("disk full".to_string()), "IO错误: disk full"),
        (DownloadError::HttpError("HTTP错误: 404 Not Found".to_string()), "HTTP请求错误: HTTP错误: 404 Not Found"),
        (DownloadError::InvalidUrl("empty host".to_string()), "无效的URL: empty host"),
        (DownloadError::ContentLengthError, "无法获取文件大小"),
        (DownloadError::RangeNotSupported, "服务器不支持断点续传"),
        (DownloadError::TaskAlreadyExists("abc".to_string()), "任务已存在: abc"),
        (DownloadError::TaskNotFound("abc".to_string()), "任务不存在: abc"),
        (DownloadError::LockError, "锁定错误"),
        (DownloadError::WriteError("short write".to_string()), "文件写入错误: short write"),
        (DownloadError::Other("oops".to_string()), "其他错误: oops"),
    ];
    for (error, expected) in cases {
        assert_eq!(error.to_string(), expected);
    }
}

#[test]
fn download_error_message_with_empty_detail() {
    assert_eq!(DownloadError::Other(String::new()).to_string(), "其他错误: ");
}
