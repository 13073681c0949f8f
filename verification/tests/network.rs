use novacl::network::client::{ensure_success, user_agent_header, DEFAULT_TIMEOUT_SECS};
use novacl::network::error::{classify, TransportFault};
use novacl::network::NetworkError;

fn fault(timeout: bool, connect: bool, decode: bool, status: bool) -> TransportFault {
    TransportFault { timeout, connect, decode, status, message: "details".to_string() }
}

#[test]
fn network_error_messages() {
    let cases = [
        (NetworkError::IoError("broken pipe".to_string()), "IO错误: broken pipe"),
        (NetworkError::HttpError("HTTP错误: 404 Not Found".to_string()), "HTTP请求错误: HTTP错误: 404 Not Found"),
        (NetworkError::InvalidUrl("empty host".to_string()), "无效的URL: empty host"),
        (NetworkError::Timeout, "请求超时"),
        (NetworkError::ConnectionError("refused".to_string()), "连接错误: refused"),
        (NetworkError::ResponseParseError("eof".to_string()), "响应解析错误: eof"),
        (NetworkError::Other("oops".to_string()), "其他错误: oops"),
    ];
    for (error, expected) in cases {
        assert_eq!(error.to_string(), expected);
    }
}

#[test]
fn timeout_comes_first() {
    assert!(matches!(classify(fault(true, true, true, true)), NetworkError::Timeout));
    assert!(matches!(classify(fault(true, false, false, false)), NetworkError::Timeout));
}

#[test]
fn connection_comes_before_decoding_and_status() {
    match classify(fault(false, true, true, true)) {
        NetworkError::ConnectionError(text) => assert_eq!(text, "details"),
        other => panic!("unexpected: {:?}", other),
    }
}

#[test]
fn decoding_comes_before_status() {
    match classify(fault(false, false, true, true)) {
        NetworkError::ResponseParseError(text) => assert_eq!(text, "details"),
        other => panic!("unexpected: {:?}", other),
    }
}

#[test]
fn status_fault_is_an_http_error() {
    match classify(fault(false, false, false, true)) {
        NetworkError::HttpError(text) => assert_eq!(text, "状态码错误: details"),
        other => panic!("unexpected: {:?}", other),
    }
}

#[test]
fn fault_without_traits_is_other() {
    match classify(fault(false, false, false, false)) {
        NetworkError::Other(text) => assert_eq!(text, "details"),
        other => panic!("unexpected: {:?}", other),
    }
}

#[test]
fn request_that_cannot_be_built_is_other() {
    let err = reqwest::Client::new().get("no scheme here").build().unwrap_err();
    let expected = err.to_string();
    assert!(!expected.is_empty());
    match NetworkError::from_transport(&err) {
        NetworkError::Other(text) => assert_eq!(text, expected),
        other => panic!("unexpected: {:?}", other),
    }
}

#[test]
fn ensure_success_accepts_the_two_hundreds() {
    assert!(ensure_success(200).is_ok());
    assert!(ensure_success(299).is_ok());
}

#[test]
fn ensure_success_refuses_other_statuses() {
    match ensure_success(403) {
        Err(NetworkError::HttpError(text)) => assert_eq!(text, "HTTP错误: 403 Forbidden"),
        other => panic!("unexpected: {:?}", other),
    }
    assert!(matches!(ensure_success(199), Err(NetworkError::HttpError(_))));
    assert!(matches!(ensure_success(300), Err(NetworkError::HttpError(_))));
}

#[test]
fn user_agent_header_passes_a_plain_text() {
    assert_eq!(user_agent_header(Some("NovaCL/1.0")).unwrap(), Some("NovaCL/1.0".to_string()));
    assert_eq!(user_agent_header(Some("tab\tinside")).unwrap(), Some("tab\tinside".to_string()));
    assert_eq!(user_agent_header(Some("浏览器")).unwrap(), Some("浏览器".to_string()));
    assert_eq!(user_agent_header(Some("")).unwrap(), Some(String::new()));
    assert_eq!(user_agent_header(None).unwrap(), None);
}

#[test]
fn user_agent_header_refuses_control_characters() {
    for text in ["line\nbreak", "carriage\rreturn", "nul\0", "del\u{7f}"] {
        match user_agent_header(Some(text)) {
            Err(NetworkError::Other(detail)) => {
                assert_eq!(detail, "无效的请求头: failed to parse header value")
            }
            other => panic!("unexpected: {:?}", other),
        }
    }
}

#[test]
fn default_timeout_is_thirty_seconds() {
    assert_eq!(DEFAULT_TIMEOUT_SECS, 30);
}
