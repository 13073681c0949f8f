//! Progress accounting and the per-download task record.

use crate::bridge::{join_path, joined_path, unix_millis};
use crate::download::error::{DownloadError, ErrorView};
use vstd::prelude::*;
use vstd::string::StringExecFns;

verus! {

/// Life-cycle state of a download.
#[derive(Debug, Clone, Copy, PartialEq, Eq, Structural)]
pub enum DownloadStatus {
    /// Registered, or queued because too many downloads are running.
    Pending,
    /// Segments are being fetched.
    Downloading,
    /// Stopped by the user; can be resumed.
    Paused,
    /// All segments done and the file moved into place.
    Completed,
    /// Given up.
    Failed,
    /// Stopped by the user for good.
    Cancelled,
}

impl DownloadStatus {
    /// The states that the workers of a task never leave again.
    pub open spec fn is_terminal(self) -> bool {
        self == DownloadStatus::Completed || self == DownloadStatus::Failed || self
            == DownloadStatus::Cancelled
    }

    /// The name of the state.
    pub open spec fn spec_name(self) -> Seq<char> {
        match self {
            DownloadStatus::Pending => "Pending"@,
            DownloadStatus::Downloading => "Downloading"@,
            DownloadStatus::Paused => "Paused"@,
            DownloadStatus::Completed => "Completed"@,
            DownloadStatus::Failed => "Failed"@,
            DownloadStatus::Cancelled => "Cancelled"@,
        }
    }

    /// The name of the state.
    pub fn name(&self) -> (text: &'static str)
        ensures
            text@ == self.spec_name(),
    {
        match self {
            DownloadStatus::Pending => "Pending",
            DownloadStatus::Downloading => "Downloading",
            DownloadStatus::Paused => "Paused",
            DownloadStatus::Completed => "Completed",
            DownloadStatus::Failed => "Failed",
            DownloadStatus::Cancelled => "Cancelled",
        }
    }

    /// Whether the state is one that the workers of a task never leave.
    pub fn terminal(&self) -> (r: bool)
        ensures
            r == self.is_terminal(),
    {
        match self {
            DownloadStatus::Completed | DownloadStatus::Failed | DownloadStatus::Cancelled => true,
            _ => false,
        }
    }
}

/// Byte counters, rate and state of one download.
#[derive(Debug, Clone, Copy, PartialEq, Eq, Structural)]
pub struct DownloadProgress {
    /// Bytes received so far.
    pub downloaded: u64,
    /// Size of the resource; zero while it is unknown.
    pub total: u64,
    /// Bytes per second since the download started.
    pub speed: u64,
    /// Estimated seconds until the download is complete.
    pub eta: u64,
    /// Life-cycle state.
    pub status: DownloadStatus,
}

/// `downloaded`, held to `total` once the total is known.
pub open spec fn capped(downloaded: u64, total: u64) -> u64 {
    if total > 0 && downloaded > total {
        total
    } else {
        downloaded
    }
}

/// Bytes per second for `downloaded` bytes in `millis` milliseconds,
/// rounded down and held to the range of `u64`.
pub open spec fn rate(downloaded: u64, millis: u64) -> u64
    recommends
        millis > 0,
{
    let exact = downloaded * 1000 / (millis as int);
    if exact > u64::MAX {
        u64::MAX
    } else {
        exact as u64
    }
}

/// Whole seconds that the rest of the download takes at `speed`.
pub open spec fn remaining_seconds(downloaded: u64, total: u64, speed: u64) -> u64 {
    if speed > 0 && downloaded < total {
        ((total - downloaded) / (speed as int)) as u64
    } else {
        0
    }
}

/// Milliseconds from `start` to `now`; zero while the start is not stamped
/// or the clock stands before it.
pub open spec fn elapsed_between(start: u64, now: u64) -> u64 {
    if start > 0 && now > start {
        (now - start) as u64
    } else {
        0
    }
}

impl DownloadProgress {
    /// Once the total is known, no more than the total counts as downloaded.
    pub open spec fn wf(self) -> bool {
        self.total > 0 ==> self.downloaded <= self.total
    }

    /// The progress after `downloaded` bytes have arrived within `millis`
    /// milliseconds: the count is capped at the total, the speed is
    /// recomputed unless no time has passed, and the estimate follows both.
    pub open spec fn updated(self, downloaded: u64, millis: u64) -> DownloadProgress {
        let count = capped(downloaded, self.total);
        let speed = if millis > 0 {
            rate(count, millis)
        } else {
            self.speed
        };
        DownloadProgress {
            downloaded: count,
            total: self.total,
            speed,
            eta: remaining_seconds(count, self.total, speed),
            status: self.status,
        }
    }

    /// The progress after the size of the resource has become known.
    pub open spec fn with_total(self, size: u64) -> DownloadProgress {
        DownloadProgress { downloaded: capped(self.downloaded, size), total: size, ..self }
    }

    /// Whole percent of the resource received so far, rounded down: zero
    /// while the size is unknown, and never more than a hundred.
    pub open spec fn percent(self) -> nat {
        if self.total == 0 {
            0
        } else if self.downloaded >= self.total {
            100
        } else {
            (self.downloaded * 100 / (self.total as int)) as nat
        }
    }

    /// A download of `total` bytes that has not begun.
    pub fn new(total: u64) -> (p: Self)
        ensures
            p == (DownloadProgress {
                downloaded: 0,
                total,
                speed: 0,
                eta: 0,
                status: DownloadStatus::Pending,
            }),
            p.wf(),
    {
        DownloadProgress { downloaded: 0, total, speed: 0, eta: 0, status: DownloadStatus::Pending }
    }

    /// Records that `downloaded` bytes have arrived `elapsed_millis`
    /// milliseconds after the start.
    pub fn update(&mut self, downloaded: u64, elapsed_millis: u64)
        ensures
            *final(self) == old(self).updated(downloaded, elapsed_millis),
            final(self).wf(),
    {
        let count: u64 = if self.total > 0 && downloaded > self.total {
            self.total
        } else {
            downloaded
        };
        self.downloaded = count;
        if elapsed_millis > 0 {
            let exact: u128 = (count as u128) * 1000 / (elapsed_millis as u128);
            self.speed = if exact > u64::MAX as u128 {
                u64::MAX
            } else {
                exact as u64
            };
        }
        if self.speed > 0 && self.downloaded < self.total {
            self.eta = (self.total - self.downloaded) / self.speed;
        } else {
            self.eta = 0;
        }
    }

    /// Whole percent of the resource received so far; zero while the size
    /// is unknown.
    pub fn percentage(&self) -> (r: u64)
        ensures
            r == self.percent(),
            r <= 100,
            self.total == 0 ==> r == 0,
    {
        if self.total == 0 {
            return 0;
        }
        if self.downloaded >= self.total {
            return 100;
        }
        let scaled: u128 = (self.downloaded as u128) * 100;
        let r: u128 = scaled / (self.total as u128);
        assert(r <= 100) by (nonlinear_arith)
            requires
                r == scaled / (self.total as u128),
                scaled <= 100 * self.total,
                self.total > 0,
        ;
        r as u64
    }
}

/// One download: where it comes from, where it goes, and how far it is.
#[derive(Debug)]
pub struct DownloadTask {
    /// Identifier, unique within a manager.
    pub id: String,
    /// Address of the resource.
    pub url: String,
    /// Directory that receives the file.
    pub save_path: String,
    /// Name of the file within `save_path`.
    pub filename: String,
    /// Counters and state.
    pub progress: DownloadProgress,
    /// Milliseconds since the Unix epoch at the latest start; zero before the first.
    pub start_time: u64,
    /// Number of byte ranges fetched side by side.
    pub segments: usize,
    /// Retries used so far.
    pub retry_count: usize,
    /// Retries allowed.
    pub max_retries: usize,
}

/// The text that opens the error of a clock that cannot be read.
pub open spec fn clock_error_prefix() -> Seq<char> {
    "获取系统时间失败: "@
}

/// The error of a clock that cannot be read opens with its prefix,
/// whatever the reason.
pub proof fn lemma_clock_error_prefix(reason: Seq<char>)
    ensures
        clock_error_prefix().is_prefix_of(clock_error_prefix() + reason),
{
    let text = clock_error_prefix() + reason;
    assert(text.subrange(0, clock_error_prefix().len() as int) =~= clock_error_prefix());
}

/// What is added to the name of a file while it is incomplete.
pub open spec fn partial_suffix() -> Seq<char> {
    ".part"@
}

impl DownloadTask {
    /// A task has at least one segment and consistent counters.
    pub open spec fn wf(self) -> bool {
        self.segments >= 1 && self.progress.wf()
    }

    /// The location of the finished file.
    pub open spec fn spec_full_path(self) -> Seq<char> {
        joined_path(self.save_path@, self.filename@)
    }

    /// The location of the file while it is incomplete: the location of
    /// the finished file, followed by `.part`.
    pub open spec fn spec_temp_path(self) -> Seq<char> {
        self.spec_full_path() + partial_suffix()
    }

    /// Whether the task is as `new` makes it from these texts.
    pub open spec fn is_new(
        self,
        id: Seq<char>,
        url: Seq<char>,
        save_path: Seq<char>,
        filename: Seq<char>,
        segments: usize,
    ) -> bool {
        &&& self.id@ == id
        &&& self.url@ == url
        &&& self.save_path@ == save_path
        &&& self.filename@ == filename
        &&& self.segments == segments
        &&& self.progress == (DownloadProgress {
            downloaded: 0,
            total: 0,
            speed: 0,
            eta: 0,
            status: DownloadStatus::Pending,
        })
        &&& self.start_time == 0
        &&& self.retry_count == 0
        &&& self.max_retries == 3
    }

    /// The task moved to `status`.
    pub open spec fn with_status(self, status: DownloadStatus) -> DownloadTask {
        DownloadTask { progress: DownloadProgress { status, ..self.progress }, ..self }
    }

    /// The task once the size of the resource is known.
    pub open spec fn sized(self, size: u64) -> DownloadTask {
        DownloadTask { progress: self.progress.with_total(size), ..self }
    }

    /// The task at the moment its segments begin: size known, start
    /// stamped, downloading.
    pub open spec fn begun(self, size: u64, now: u64) -> DownloadTask {
        DownloadTask { start_time: now, ..self.sized(size).with_status(DownloadStatus::Downloading) }
    }

    /// The task after `downloaded` bytes have arrived by `now`.
    pub open spec fn advanced(self, downloaded: u64, now: u64) -> DownloadTask {
        DownloadTask {
            progress: self.progress.updated(downloaded, elapsed_between(self.start_time, now)),
            ..self
        }
    }

    /// A task that has not begun: nothing downloaded, size unknown, pending.
    pub fn new(id: String, url: String, save_path: String, filename: String, segments: usize) -> (t:
        Self)
        requires
            segments >= 1,
        ensures
            t == (DownloadTask {
                id,
                url,
                save_path,
                filename,
                progress: DownloadProgress {
                    downloaded: 0,
                    total: 0,
                    speed: 0,
                    eta: 0,
                    status: DownloadStatus::Pending,
                },
                start_time: 0,
                segments,
                retry_count: 0,
                max_retries: 3,
            }),
            t.wf(),
    {
        DownloadTask {
            id,
            url,
            save_path,
            filename,
            progress: DownloadProgress::new(0),
            start_time: 0,
            segments,
            retry_count: 0,
            max_retries: 3,
        }
    }

    /// The location of the finished file: `filename` under `save_path`.
    pub fn full_path(&self) -> (path: String)
        ensures
            path@ == self.spec_full_path(),
    {
        join_path(self.save_path.as_str(), self.filename.as_str())
    }

    /// The location of the file while it is incomplete: the full path
    /// followed by `.part`, so that files that differ in their extension
    /// alone never share a partial file.
    pub fn temp_path(&self) -> (path: String)
        ensures
            path@ == self.spec_temp_path(),
    {
        self.full_path().concat(".part")
    }

    /// Records the size of the resource.
    pub fn set_total_size(&mut self, size: u64)
        ensures
            *final(self) == old(self).sized(size),
            final(self).progress.wf(),
    {
        self.progress.total = size;
        if size > 0 && self.progress.downloaded > size {
            self.progress.downloaded = size;
        }
    }

    /// Records that `downloaded` bytes have arrived by `now`, given in
    /// milliseconds since the Unix epoch.
    pub fn update_progress_at(&mut self, downloaded: u64, now: u64)
        ensures
            *final(self) == old(self).advanced(downloaded, now),
            final(self).progress.wf(),
    {
        let elapsed: u64 = if self.start_time > 0 && now > self.start_time {
            now - self.start_time
        } else {
            0
        };
        self.progress.update(downloaded, elapsed);
    }

    /// Records that `downloaded` bytes have arrived by now. A clock that
    /// cannot be read counts as no time passed.
    pub fn update_progress(&mut self, downloaded: u64)
        ensures
            exists|now: u64| *final(self) == #[trigger] old(self).advanced(downloaded, now),
            final(self).progress.downloaded == capped(downloaded, old(self).progress.total),
            final(self).progress.total == old(self).progress.total,
            final(self).progress.status == old(self).progress.status,
            final(self).progress.wf(),
    {
        let now: u64 = match unix_millis() {
            Ok(ms) => ms,
            Err(_) => 0,
        };
        self.update_progress_at(downloaded, now);
    }

    /// Moves the task to `status`.
    pub fn set_status(&mut self, status: DownloadStatus)
        ensures
            *final(self) == old(self).with_status(status),
    {
        self.progress.status = status;
    }

    /// A snapshot of the counters and the state.
    pub fn get_progress(&self) -> (p: DownloadProgress)
        ensures
            p == self.progress,
    {
        self.progress
    }

    /// Stamps the start with a clock reading: the milliseconds since the
    /// Unix epoch, or the reason why the clock could not be read.
    pub fn stamp_start(&mut self, clock: Result<u64, String>) -> (r: Result<(), DownloadError>)
        ensures
            match clock {
                Ok(now) => r is Ok && *final(self) == (DownloadTask {
                    start_time: now,
                    ..*old(self)
                }),
                Err(reason) => *final(self) == *old(self) && r is Err && r.unwrap_err()@
                    == ErrorView::Other(clock_error_prefix() + reason@),
            },
    {
        match clock {
            Ok(now) => {
                self.start_time = now;
                Ok(())
            },
            Err(reason) => Err(
                DownloadError::Other(String::from_str("获取系统时间失败: ").concat(reason.as_str())),
            ),
        }
    }

    /// Stamps the start with the current time. Fails, and changes nothing,
    /// when the clock stands before the Unix epoch.
    pub fn set_start_time(&mut self) -> (r: Result<(), DownloadError>)
        ensures
            match r {
                Ok(()) => *final(self) == (DownloadTask {
                    start_time: final(self).start_time,
                    ..*old(self)
                }),
                Err(e) => *final(self) == *old(self) && e@ is Other && clock_error_prefix().is_prefix_of(
                    e@->Other_0,
                ),
            },
    {
        let clock = unix_millis();
        proof {
            if clock is Err {
                lemma_clock_error_prefix(clock->Err_0@);
            }
        }
        self.stamp_start(clock)
    }
}

} // verus!
