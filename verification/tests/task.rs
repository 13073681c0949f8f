use novacl::download::{DownloadError, DownloadProgress, DownloadStatus, DownloadTask};

fn sample() -> DownloadTask {
    DownloadTask::new(
        "id-1".to_string(),
        "http://mock/f".to_string(),
        "/tmp/dl".to_string(),
        "f.bin".to_string(),
        4,
    )
}

#[test]
fn new_task_has_not_begun() {
    let t = sample();
    assert_eq!(t.id, "id-1");
    assert_eq!(t.url, "http://mock/f");
    assert_eq!(t.save_path, "/tmp/dl");
    assert_eq!(t.filename, "f.bin");
    assert_eq!(t.segments, 4);
    assert_eq!(t.start_time, 0);
    assert_eq!(t.retry_count, 0);
    assert_eq!(t.max_retries, 3);
    assert_eq!(t.get_progress(), DownloadProgress::new(0));
}

#[test]
fn full_path_joins_directory_and_name() {
    let t = sample();
    let expected = std::path::Path::new("/tmp/dl").join("f.bin");
    assert_eq!(t.full_path(), expected.to_string_lossy());
    assert_ne!(t.full_path(), "/tmp/dl");
    assert_ne!(t.full_path(), "f.bin");
}

#[test]
fn temp_path_appends_part_to_the_full_path() {
    let t = sample();
    assert_eq!(t.temp_path(), format!("{}.part", t.full_path()));
    let expected = std::path::Path::new("/tmp/dl").join("f.bin.part");
    assert_eq!(t.temp_path(), expected.to_string_lossy());
    let bare = DownloadTask::new(
        "id-2".to_string(),
        "http://mock/archive".to_string(),
        "/tmp/dl".to_string(),
        "archive".to_string(),
        1,
    );
    let expected = std::path::Path::new("/tmp/dl").join("archive.part");
    assert_eq!(bare.temp_path(), expected.to_string_lossy());
}

#[test]
fn files_that_differ_in_extension_have_their_own_partial_files() {
    let zip = DownloadTask::new(
        "id-3".to_string(),
        "http://mock/a.zip".to_string(),
        "/tmp/dl".to_string(),
        "a.zip".to_string(),
        1,
    );
    let iso = DownloadTask::new(
        "id-4".to_string(),
        "http://mock/a.iso".to_string(),
        "/tmp/dl".to_string(),
        "a.iso".to_string(),
        1,
    );
    assert_ne!(zip.temp_path(), iso.temp_path());
    assert!(zip.temp_path().ends_with("a.zip.part"));
    assert!(iso.temp_path().ends_with("a.iso.part"));
}

#[test]
fn set_total_size_records_the_size() {
    let mut t = sample();
    t.set_total_size(1000);
    assert_eq!(t.get_progress().total, 1000);
    assert_eq!(t.get_progress().downloaded, 0);
    assert_eq!(t.get_progress().status, DownloadStatus::Pending);
}

#[test]
fn set_total_size_holds_the_count_to_the_new_total() {
    let mut t = sample();
    t.set_total_size(1000);
    t.update_progress_at(900, 0);
    t.set_total_size(500);
    assert_eq!(t.get_progress().total, 500);
    assert_eq!(t.get_progress().downloaded, 500);
    t.set_total_size(0);
    assert_eq!(t.get_progress().downloaded, 500);
}

#[test]
fn set_status_changes_only_the_status() {
    let mut t = sample();
    t.set_total_size(10);
    t.set_status(DownloadStatus::Downloading);
    let p = t.get_progress();
    assert_eq!(p.status, DownloadStatus::Downloading);
    assert_eq!(p.total, 10);
    assert_eq!(t.segments, 4);
}

#[test]
fn stamp_start_records_the_clock() {
    let mut t = sample();
    assert!(t.stamp_start(Ok(1_700_000_000_000)).is_ok());
    assert_eq!(t.start_time, 1_700_000_000_000);
}

#[test]
fn stamp_start_reports_an_unreadable_clock() {
    let mut t = sample();
    let r = t.stamp_start(Err("second time provided was later than self".to_string()));
    match r {
        Err(DownloadError::Other(text)) => {
            assert_eq!(text, "获取系统时间失败: second time provided was later than self")
        }
        other => panic!("unexpected: {:?}", other),
    }
    assert_eq!(t.start_time, 0);
}

#[test]
fn set_start_time_reads_the_clock() {
    let mut t = sample();
    assert!(t.set_start_time().is_ok());
    // Any date after 2020 and well before the year 2286.
    assert!(t.start_time > 1_577_836_800_000);
    assert!(t.start_time < 10_000_000_000_000);
}

#[test]
fn update_progress_at_measures_from_the_start() {
    let mut t = sample();
    t.set_total_size(10_000);
    t.stamp_start(Ok(5_000)).unwrap();
    t.update_progress_at(2_000, 7_000);
    let p = t.get_progress();
    assert_eq!(p.downloaded, 2_000);
    assert_eq!(p.speed, 1_000);
    assert_eq!(p.eta, 8);
}

#[test]
fn update_progress_at_counts_no_time_before_the_start() {
    let mut t = sample();
    t.set_total_size(10_000);
    t.update_progress_at(2_000, 7_000);
    assert_eq!(t.get_progress().downloaded, 2_000);
    assert_eq!(t.get_progress().speed, 0);
    t.stamp_start(Ok(9_000)).unwrap();
    t.update_progress_at(3_000, 7_000);
    assert_eq!(t.get_progress().downloaded, 3_000);
    assert_eq!(t.get_progress().speed, 0);
    t.update_progress_at(3_000, 9_000);
    assert_eq!(t.get_progress().speed, 0);
}

#[test]
fn update_progress_uses_the_current_time() {
    let mut t = sample();
    t.set_total_size(1_000);
    t.stamp_start(Ok(1)).unwrap();
    t.update_progress(400);
    let p = t.get_progress();
    assert_eq!(p.downloaded, 400);
    assert_eq!(p.total, 1_000);
    // Decades have passed since the stamped start: the rate rounds to zero.
    assert_eq!(p.speed, 0);
    assert_eq!(p.eta, 0);
}
