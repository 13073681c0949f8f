//! Decisions of the units that talk to the server: what a worker asks
//! for, how an answer is judged, when a failed segment is tried again,
//! and how the bytes that the workers report add up.

use crate::bridge::{
    header_char, header_text, header_value_error, status_failure, status_is_success, status_text,
};
use crate::download::error::{DownloadError, ErrorView};
use crate::download::plan::SegmentRange;
use crate::download::task::{capped, DownloadProgress};
use crate::text::{
    decimal, decimal_text, is_digit, lemma_decimal_value, parse_decimal, parsed_u64,
};
use vstd::prelude::*;
use vstd::string::StringExecFns;

verus! {

/// The value of the `Range` header that asks for the bytes from `first`
/// to `last`, both included.
pub open spec fn range_request(first: u64, last: u64) -> Seq<char> {
    "bytes="@ + decimal_text(first as nat) + "-"@ + decimal_text(last as nat)
}

/// Every range request may stand in a header value.
pub proof fn lemma_range_request_is_header_text(first: u64, last: u64)
    ensures
        header_text(range_request(first, last)),
{
    reveal_strlit("bytes=");
    reveal_strlit("-");
    lemma_decimal_value(first as nat);
    lemma_decimal_value(last as nat);
    let a = "bytes="@;
    let b = decimal_text(first as nat);
    let c = "-"@;
    let d = decimal_text(last as nat);
    let text = range_request(first, last);
    assert forall|i: int| 0 <= i < text.len() implies header_char(#[trigger] text[i]) by {
        if i < a.len() {
            assert(text[i] == a[i]);
        } else if i < a.len() + b.len() {
            assert(text[i] == b[i - a.len()]);
            assert(is_digit(b[i - a.len()]));
        } else if i < a.len() + b.len() + c.len() {
            assert(text[i] == c[i - a.len() - b.len()]);
        } else {
            assert(text[i] == d[i - a.len() - b.len() - c.len()]);
            assert(is_digit(d[i - a.len() - b.len() - c.len()]));
        }
    }
}

/// The value of the `Range` header for a segment; `None` for a segment
/// without bytes, which asks for nothing. The value is always one that a
/// header accepts.
pub fn range_header(range: &SegmentRange) -> (r: Result<Option<String>, DownloadError>)
    requires
        range.end() <= u64::MAX,
    ensures
        r is Ok,
        range.len == 0 ==> r.unwrap() is None,
        range.len > 0 ==> r.unwrap() is Some && r.unwrap().unwrap()@ == range_request(
            range.start,
            (range.start + range.len - 1) as u64,
        ),
{
    let last = match range.last_byte() {
        Some(last) => last,
        None => {
            return Ok(None);
        },
    };
    let mut text = String::from_str("bytes=");
    text.append(decimal(range.start).as_str());
    text.append("-");
    text.append(decimal(last).as_str());
    proof {
        lemma_range_request_is_header_text(range.start, last);
    }
    match header_value_error(text.as_str()) {
        Some(message) => Err(DownloadError::HttpError(message)),
        None => Ok(Some(text)),
    }
}

/// Judges the status of an answer: anything outside 200..=299 is an error.
pub fn check_status(status: u16) -> (r: Result<(), DownloadError>)
    ensures
        200 <= status < 300 ==> r is Ok,
        !(200 <= status < 300) ==> r is Err && r.unwrap_err()@ == ErrorView::HttpError(
            status_failure(status),
        ),
{
    if status_is_success(status) {
        Ok(())
    } else {
        Err(
            DownloadError::HttpError(
                String::from_str("HTTP错误: ").concat(status_text(status).as_str()),
            ),
        )
    }
}

/// The status of an answer that holds the bytes that were asked for, and
/// no others.
pub const PARTIAL_CONTENT: u16 = 206;

/// Judges the status of the answer to a range request. Only an answer
/// with partial content holds the range that was asked for. Any other
/// success means that the server passed over the range and sent the whole
/// resource, which must not be written into the segment.
pub fn check_range_status(status: u16) -> (r: Result<(), DownloadError>)
    ensures
        status == 206 ==> r is Ok,
        200 <= status < 300 && status != 206 ==> r is Err && r.unwrap_err()@
            == ErrorView::RangeNotSupported,
        !(200 <= status < 300) ==> r is Err && r.unwrap_err()@ == ErrorView::HttpError(
            status_failure(status),
        ),
{
    match check_status(status) {
        Ok(()) => {},
        Err(e) => {
            return Err(e);
        },
    }
    if status == PARTIAL_CONTENT {
        Ok(())
    } else {
        Err(DownloadError::RangeNotSupported)
    }
}

/// The size that the answer to a size request reports: the status has to
/// be a success, and the length header has to be there and hold a number.
pub open spec fn reported_length(status: u16, length: Option<Seq<char>>) -> Result<u64, ErrorView> {
    if !(200 <= status < 300) {
        Err(ErrorView::HttpError(status_failure(status)))
    } else if length is Some && parsed_u64(length.unwrap()) is Some {
        Ok(parsed_u64(length.unwrap()).unwrap())
    } else {
        Err(ErrorView::ContentLengthError)
    }
}

/// Reads the size of the resource from the answer to a size request,
/// given its status and the text of its length header, if it has one.
pub fn content_length(status: u16, length: Option<&str>) -> (r: Result<u64, DownloadError>)
    ensures
        match r {
            Ok(size) => reported_length(
                status,
                match length {
                    Some(text) => Some(text@),
                    None => None,
                },
            ) == Ok::<u64, ErrorView>(size),
            Err(e) => reported_length(
                status,
                match length {
                    Some(text) => Some(text@),
                    None => None,
                },
            ) == Err::<u64, ErrorView>(e@),
        },
{
    match check_status(status) {
        Ok(()) => {},
        Err(e) => {
            return Err(e);
        },
    }
    let parsed = match length {
        Some(text) => parse_decimal(text),
        None => None,
    };
    match parsed {
        Some(size) => Ok(size),
        None => Err(DownloadError::ContentLengthError),
    }
}

/// Seconds that a request may take before it counts as failed.
pub const REQUEST_TIMEOUT_SECS: u64 = 30;

/// How many reports of the workers may wait for the aggregator.
pub const REPORT_QUEUE_CAPACITY: usize = 100;

/// How often a worker tries its segment before it gives up.
pub const SEGMENT_ATTEMPTS: usize = 3;

/// Seconds that a worker waits before it tries again.
pub const RETRY_DELAY_SECS: u64 = 1;

/// What a worker does after a failed attempt.
#[derive(Debug, Clone, Copy, PartialEq, Eq, Structural)]
pub enum RetryStep {
    /// Wait this many seconds, then fetch the whole range again.
    Retry(u64),
    /// Stop; the segment stays incomplete.
    GiveUp,
}

/// What follows the failure of an attempt that `failures` failed ones preceded.
pub open spec fn step_after(failures: nat) -> RetryStep {
    if failures + 1 >= SEGMENT_ATTEMPTS {
        RetryStep::GiveUp
    } else {
        RetryStep::Retry(RETRY_DELAY_SECS)
    }
}

/// Counts the failed attempts of one worker.
#[derive(Debug, Clone, Copy, PartialEq, Eq, Structural)]
pub struct SegmentRetry {
    /// Failed attempts so far, never more than `SEGMENT_ATTEMPTS`.
    pub failures: usize,
}

impl SegmentRetry {
    /// A worker that has not failed yet.
    pub fn new() -> (r: Self)
        ensures
            r.failures == 0,
    {
        SegmentRetry { failures: 0 }
    }

    /// Records a failed attempt and decides what follows.
    pub fn on_failure(&mut self) -> (step: RetryStep)
        ensures
            step == step_after(old(self).failures as nat),
            final(self).failures == if old(self).failures < SEGMENT_ATTEMPTS {
                old(self).failures + 1
            } else {
                old(self).failures as int
            },
    {
        if self.failures < SEGMENT_ATTEMPTS {
            self.failures = self.failures + 1;
        }
        if self.failures >= SEGMENT_ATTEMPTS {
            RetryStep::GiveUp
        } else {
            RetryStep::Retry(RETRY_DELAY_SECS)
        }
    }
}

/// Whether every worker fetched its segment in full, given one outcome
/// for each worker: `true` for a segment that was fetched, `false` for one
/// that was given up.
pub fn all_segments_done(outcomes: &Vec<bool>) -> (done: bool)
    ensures
        done == (forall|i: int| 0 <= i < outcomes@.len() ==> outcomes@[i]),
{
    let mut i: usize = 0;
    while i < outcomes.len()
        invariant
            i <= outcomes.len(),
            forall|k: int| 0 <= k < i ==> outcomes@[k],
        decreases outcomes.len() - i,
    {
        if !outcomes[i] {
            return false;
        }
        i = i + 1;
    }
    true
}

/// Adds up the bytes that the workers of one task report.
#[derive(Debug, Clone, Copy, PartialEq, Eq, Structural)]
pub struct ProgressAggregator {
    /// Bytes reported so far.
    pub total_downloaded: u64,
}

impl ProgressAggregator {
    /// An aggregator that has heard of no bytes.
    pub fn new() -> (r: Self)
        ensures
            r.total_downloaded == 0,
    {
        ProgressAggregator { total_downloaded: 0 }
    }

    /// Adds the `bytes` that the worker of segment `segment_id` reports
    /// and returns the new sum. The sum goes by the bytes alone, whichever
    /// worker reports them and in whatever order.
    pub fn record(&mut self, segment_id: usize, bytes: u64) -> (total: u64)
        requires
            old(self).total_downloaded + bytes <= u64::MAX,
        ensures
            final(self).total_downloaded == old(self).total_downloaded + bytes,
            total == final(self).total_downloaded,
    {
        self.total_downloaded = self.total_downloaded + bytes;
        self.total_downloaded
    }
}

/// While an aggregator feeds a progress that shows its sum, the count of
/// downloaded bytes never falls, and neither the total nor the state
/// changes.
pub proof fn lemma_downloaded_never_falls(
    progress: DownloadProgress,
    sum: u64,
    bytes: u64,
    millis: u64,
)
    requires
        progress.downloaded == capped(sum, progress.total),
        sum + bytes <= u64::MAX,
    ensures
        progress.updated((sum + bytes) as u64, millis).downloaded >= progress.downloaded,
        progress.updated((sum + bytes) as u64, millis).downloaded == capped(
            (sum + bytes) as u64,
            progress.total,
        ),
        progress.updated((sum + bytes) as u64, millis).total == progress.total,
        progress.updated((sum + bytes) as u64, millis).status == progress.status,
{
}

} // verus!
