use novacl::download::plan::plan_segments;
use novacl::download::event::EVENT_QUEUE_CAPACITY;
use novacl::download::manager::{DEFAULT_CONCURRENT_DOWNLOADS, DEFAULT_SEGMENTS};
use novacl::download::transfer::{
    all_segments_done, check_range_status, check_status, content_length, range_header,
    ProgressAggregator, RetryStep, SegmentRetry, PARTIAL_CONTENT, REPORT_QUEUE_CAPACITY,
    REQUEST_TIMEOUT_SECS, RETRY_DELAY_SECS, SEGMENT_ATTEMPTS,
};
use novacl::download::{DownloadError, SegmentRange};

#[test]
fn range_header_names_first_and_last_byte() {
    let r = SegmentRange { index: 1, start: 250, len: 250 };
    assert_eq!(range_header(&r).unwrap(), Some("bytes=250-499".to_string()));
    let first = SegmentRange { index: 0, start: 0, len: 1 };
    assert_eq!(range_header(&first).unwrap(), Some("bytes=0-0".to_string()));
}

#[test]
fn range_header_of_an_empty_segment_is_absent() {
    let r = SegmentRange { index: 0, start: 0, len: 0 };
    assert_eq!(range_header(&r).unwrap(), None);
}

#[test]
fn range_headers_of_a_plan() {
    let headers: Vec<Option<String>> =
        plan_segments(1000, 4).iter().map(|r| range_header(r).unwrap()).collect();
    assert_eq!(
        headers,
        vec![
            Some("bytes=0-249".to_string()),
            Some("bytes=250-499".to_string()),
            Some("bytes=500-749".to_string()),
            Some("bytes=750-999".to_string()),
        ]
    );
}

#[test]
fn range_header_reaches_the_last_offset() {
    let r = SegmentRange { index: 0, start: u64::MAX - 1, len: 1 };
    assert_eq!(
        range_header(&r).unwrap(),
        Some("bytes=18446744073709551614-18446744073709551614".to_string())
    );
}

#[test]
fn success_statuses_pass() {
    assert!(check_status(200).is_ok());
    assert!(check_status(206).is_ok());
    assert!(check_status(299).is_ok());
}

#[test]
fn other_statuses_are_http_errors() {
    match check_status(404) {
        Err(DownloadError::HttpError(text)) => assert_eq!(text, "HTTP错误: 404 Not Found"),
        other => panic!("unexpected: {:?}", other),
    }
    match check_status(500) {
        Err(DownloadError::HttpError(text)) => {
            assert_eq!(text, "HTTP错误: 500 Internal Server Error")
        }
        other => panic!("unexpected: {:?}", other),
    }
    match check_status(199) {
        Err(DownloadError::HttpError(text)) => {
            assert_eq!(text, "HTTP错误: 199 <unknown status code>")
        }
        other => panic!("unexpected: {:?}", other),
    }
    assert!(matches!(check_status(300), Err(DownloadError::HttpError(_))));
    assert!(matches!(check_status(0), Err(DownloadError::HttpError(_))));
}

#[test]
fn content_length_reads_the_header() {
    assert_eq!(content_length(200, Some("1000")).unwrap(), 1000);
    assert_eq!(content_length(200, Some("0")).unwrap(), 0);
    assert_eq!(content_length(204, Some("+5")).unwrap(), 5);
    assert_eq!(content_length(200, Some("007")).unwrap(), 7);
    assert_eq!(content_length(200, Some("18446744073709551615")).unwrap(), u64::MAX);
}

#[test]
fn content_length_missing_or_malformed() {
    for header in [
        None,
        Some(""),
        Some("+"),
        Some("-1"),
        Some("12a"),
        Some(" 12"),
        Some("1_000"),
        Some("18446744073709551616"),
    ] {
        assert!(
            matches!(content_length(200, header), Err(DownloadError::ContentLengthError)),
            "{:?}",
            header
        );
    }
}

#[test]
fn content_length_checks_the_status_first() {
    match content_length(404, Some("1000")) {
        Err(DownloadError::HttpError(text)) => assert_eq!(text, "HTTP错误: 404 Not Found"),
        other => panic!("unexpected: {:?}", other),
    }
    assert!(matches!(content_length(503, None), Err(DownloadError::HttpError(_))));
}

#[test]
fn worker_gives_up_after_three_attempts() {
    assert_eq!(SEGMENT_ATTEMPTS, 3);
    assert_eq!(RETRY_DELAY_SECS, 1);
    let mut retry = SegmentRetry::new();
    assert_eq!(retry.failures, 0);
    assert_eq!(retry.on_failure(), RetryStep::Retry(1));
    assert_eq!(retry.on_failure(), RetryStep::Retry(1));
    assert_eq!(retry.on_failure(), RetryStep::GiveUp);
    assert_eq!(retry.failures, 3);
    assert_eq!(retry.on_failure(), RetryStep::GiveUp);
    assert_eq!(retry.failures, 3);
}

#[test]
fn aggregator_sums_the_reports() {
    let mut sum = ProgressAggregator::new();
    assert_eq!(sum.total_downloaded, 0);
    assert_eq!(sum.record(2, 100), 100);
    assert_eq!(sum.record(0, 50), 150);
    assert_eq!(sum.record(2, 0), 150);
    assert_eq!(sum.record(1, 850), 1000);
    assert_eq!(sum.total_downloaded, 1000);
}

#[test]
fn aggregator_sum_does_not_depend_on_the_order() {
    let reports = [(0usize, 10u64), (1, 20), (2, 30), (3, 40)];
    let mut forward = ProgressAggregator::new();
    for (id, bytes) in reports {
        forward.record(id, bytes);
    }
    let mut backward = ProgressAggregator::new();
    for (id, bytes) in reports.iter().rev() {
        backward.record(*id, *bytes);
    }
    assert_eq!(forward.total_downloaded, 100);
    assert_eq!(backward.total_downloaded, 100);
}

#[test]
fn limits_and_defaults() {
    assert_eq!(REQUEST_TIMEOUT_SECS, 30);
    assert_eq!(REPORT_QUEUE_CAPACITY, 100);
    assert_eq!(EVENT_QUEUE_CAPACITY, 100);
    assert_eq!(DEFAULT_SEGMENTS, 4);
    assert_eq!(DEFAULT_CONCURRENT_DOWNLOADS, 5);
}

#[test]
fn range_answer_with_partial_content_passes() {
    assert_eq!(PARTIAL_CONTENT, 206);
    assert!(check_range_status(206).is_ok());
}

#[test]
fn range_answer_with_the_whole_resource_is_refused() {
    for status in [200u16, 201, 204, 205, 207, 299] {
        assert!(
            matches!(check_range_status(status), Err(DownloadError::RangeNotSupported)),
            "{}",
            status
        );
    }
    assert_eq!(DownloadError::RangeNotSupported.to_string(), "服务器不支持断点续传");
}

#[test]
fn range_answer_without_success_is_an_http_error() {
    match check_range_status(404) {
        Err(DownloadError::HttpError(text)) => assert_eq!(text, "HTTP错误: 404 Not Found"),
        other => panic!("unexpected: {:?}", other),
    }
    match check_range_status(416) {
        Err(DownloadError::HttpError(text)) => {
            assert_eq!(text, "HTTP错误: 416 Range Not Satisfiable")
        }
        other => panic!("unexpected: {:?}", other),
    }
    assert!(matches!(check_range_status(199), Err(DownloadError::HttpError(_))));
    assert!(matches!(check_range_status(300), Err(DownloadError::HttpError(_))));
}

#[test]
fn segments_are_done_when_every_worker_says_so() {
    assert!(all_segments_done(&vec![]));
    assert!(all_segments_done(&vec![true]));
    assert!(all_segments_done(&vec![true, true, true]));
    assert!(!all_segments_done(&vec![false]));
    assert!(!all_segments_done(&vec![true, false, true]));
    assert!(!all_segments_done(&vec![true, true, false]));
}
