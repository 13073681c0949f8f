use novacl::download::{DownloadProgress, DownloadStatus};

#[test]
fn new_progress_is_pending_and_empty() {
    let p = DownloadProgress::new(1000);
    assert_eq!(
        p,
        DownloadProgress {
            downloaded: 0,
            total: 1000,
            speed: 0,
            eta: 0,
            status: DownloadStatus::Pending
        }
    );
}

#[test]
fn update_computes_speed_and_eta() {
    let mut p = DownloadProgress::new(1000);
    p.update(500, 1000);
    assert_eq!(p.downloaded, 500);
    assert_eq!(p.speed, 500);
    assert_eq!(p.eta, 1);
    assert_eq!(p.total, 1000);
    assert_eq!(p.status, DownloadStatus::Pending);
}

#[test]
fn speed_is_bytes_per_second_rounded_down() {
    let mut p = DownloadProgress::new(10_000);
    p.update(1000, 500);
    assert_eq!(p.speed, 2000);
    assert_eq!(p.eta, 4);
    p.update(1000, 3000);
    assert_eq!(p.speed, 333);
    assert_eq!(p.eta, 9000 / 333);
}

#[test]
fn update_without_elapsed_time_keeps_the_speed() {
    let mut p = DownloadProgress::new(1000);
    p.update(100, 0);
    assert_eq!(p.downloaded, 100);
    assert_eq!(p.speed, 0);
    assert_eq!(p.eta, 0);
    p.update(200, 1000);
    assert_eq!(p.speed, 200);
    p.update(300, 0);
    assert_eq!(p.speed, 200);
    assert_eq!(p.eta, 700 / 200);
}

#[test]
fn eta_is_zero_when_done_or_stalled() {
    let mut p = DownloadProgress::new(1000);
    p.update(1000, 2000);
    assert_eq!(p.speed, 500);
    assert_eq!(p.eta, 0);
    let mut q = DownloadProgress::new(1000);
    q.update(0, 2000);
    assert_eq!(q.speed, 0);
    assert_eq!(q.eta, 0);
}

#[test]
fn downloaded_is_held_to_the_total() {
    let mut p = DownloadProgress::new(1000);
    p.update(4000, 1000);
    assert_eq!(p.downloaded, 1000);
    assert_eq!(p.speed, 1000);
    assert_eq!(p.eta, 0);
    assert_eq!(p.percentage(), 100);
}

#[test]
fn downloaded_is_free_while_the_total_is_unknown() {
    let mut p = DownloadProgress::new(0);
    p.update(4000, 1000);
    assert_eq!(p.downloaded, 4000);
    assert_eq!(p.speed, 4000);
    assert_eq!(p.eta, 0);
    assert_eq!(p.percentage(), 0);
}

#[test]
fn speed_saturates() {
    let mut p = DownloadProgress::new(0);
    p.update(u64::MAX, 1);
    assert_eq!(p.speed, u64::MAX);
    p.update(u64::MAX, 1000);
    assert_eq!(p.speed, u64::MAX);
    p.update(u64::MAX, 2000);
    assert_eq!(p.speed, u64::MAX / 2);
}

#[test]
fn percentage_is_zero_without_total() {
    let p = DownloadProgress::new(0);
    assert_eq!(p.percentage(), 0);
}

#[test]
fn percentage_stays_within_hundred() {
    let mut p = DownloadProgress::new(3);
    assert_eq!(p.percentage(), 0);
    p.update(1, 10);
    assert_eq!(p.percentage(), 33);
    p.update(2, 20);
    assert_eq!(p.percentage(), 66);
    p.update(3, 30);
    assert_eq!(p.percentage(), 100);
    let mut big = DownloadProgress::new(u64::MAX);
    big.update(u64::MAX, 1);
    assert_eq!(big.percentage(), 100);
    big.update(u64::MAX / 2, 1);
    assert_eq!(big.percentage(), 49);
}

#[test]
fn percentage_of_an_overfull_progress_is_hundred() {
    let p = DownloadProgress {
        downloaded: 2000,
        total: 1000,
        speed: 0,
        eta: 0,
        status: DownloadStatus::Downloading,
    };
    assert_eq!(p.percentage(), 100);
}

#[test]
fn status_names_and_terminal_states() {
    let all = [
        (DownloadStatus::Pending, "Pending", false),
        (DownloadStatus::Downloading, "Downloading", false),
        (DownloadStatus::Paused, "Paused", false),
        (DownloadStatus::Completed, "Completed", true),
        (DownloadStatus::Failed, "Failed", true),
        (DownloadStatus::Cancelled, "Cancelled", true),
    ];
    for (status, name, terminal) in all {
        assert_eq!(status.name(), name);
        assert_eq!(format!("{:?}", status), name);
        assert_eq!(status.terminal(), terminal);
    }
}
