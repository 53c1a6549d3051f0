use swiss_knife::compare::{FileComparison, HeadOutcome, RemoteObject};
use swiss_knife::multipart::TransferStrategy;
use swiss_knife::report::{account_for, format_size, sort_results, Outcome, ProcessResult, Stats};
use swiss_knife::upload::UploadResult;
use swiss_knife::worker::{
    dry_run_action, run_complete, DryRunAction, Job, JobAction, JobStage, Worker, WorkerState,
};

/// What the store does for one file in these scenarios.
struct Script {
    comparison: Result<FileComparison, String>,
    transfer: Result<UploadResult, String>,
    sign: Result<String, String>,
}

/// Runs one file through its job; returns the outcome and the number of transfers made.
fn run_upload(name: &str, size: u64, script: Script) -> (ProcessResult, u32) {
    let mut job = Job::upload(name.to_string(), size);
    assert_eq!(job.stage(), JobStage::Comparing);
    let mut transfers = 0;
    let mut action = job.compared(script.comparison);
    loop {
        match action {
            JobAction::Transfer(strategy) => {
                transfers += 1;
                assert_eq!(
                    strategy,
                    if size >= 100 * 1024 * 1024 {
                        TransferStrategy::Multipart
                    } else {
                        TransferStrategy::SingleShot
                    }
                );
                action = job.transferred(script.transfer.clone());
            }
            JobAction::Sign => {
                let result = job.signed(script.sign.clone());
                assert_eq!(job.stage(), JobStage::Finished);
                return (result, transfers);
            }
            JobAction::Emit(result) => {
                assert_eq!(job.stage(), JobStage::Finished);
                return (result, transfers);
            }
        }
    }
}

fn fine(comparison: FileComparison, url: &str) -> Script {
    Script {
        comparison: Ok(comparison),
        transfer: Ok(UploadResult::Uploaded),
        sign: Ok(url.to_string()),
    }
}

#[test]
fn three_new_files_are_uploaded_and_linked() {
    let mut stats = Stats::new();
    let mut results = Vec::new();
    for (name, size) in [("c.mp4", 3u64), ("a.mp4", 2048), ("b.mov", 5 * 1024 * 1024)] {
        let (result, transfers) =
            run_upload(name, size, fine(FileComparison::NotFound, &format!("https://s/{}", name)));
        assert_eq!(transfers, 1);
        assert!(stats.can_record(result.kind(), size));
        stats.record(result.kind(), size);
        results.push(result);
    }
    assert_eq!(stats.uploaded, 3);
    assert_eq!(stats.skipped, 0);
    assert_eq!(stats.failed, 0);
    assert_eq!(stats.total_bytes_uploaded, 3 + 2048 + 5 * 1024 * 1024);
    sort_results(&mut results);
    let mut urls = 0;
    let expected = [("a.mp4", "2.00 KB"), ("b.mov", "5.00 MB"), ("c.mp4", "3 B")];
    for (result, (name, size_text)) in results.iter().zip(expected) {
        match result {
            ProcessResult::Uploaded { filename, size, url } => {
                assert_eq!(filename, name);
                assert_eq!(size, size_text);
                assert_eq!(url, &format!("https://s/{}", name));
                urls += 1;
            }
            other => panic!("expected an upload, got {:?}", other),
        }
    }
    assert_eq!(urls, 3);
    assert_eq!(stats.upload_summary(), "Summary: 3 uploaded, 0 skipped, 0 failed");
    assert_eq!(
        stats.bytes_summary(),
        Some("Total uploaded: 5.00 MB (5244931 bytes)".to_string())
    );
}

#[test]
fn an_identical_file_is_skipped_and_linked() {
    let mut stats = Stats::new();
    let (result, transfers) = run_upload("same.mp4", 11, fine(FileComparison::Identical, "u"));
    assert_eq!(transfers, 0);
    stats.record(result.kind(), 11);
    assert_eq!(stats.skipped, 1);
    assert_eq!(stats.uploaded, 0);
    assert_eq!(stats.total_bytes_uploaded, 0);
    match result {
        ProcessResult::Skipped { filename, size, url } => {
            assert_eq!(filename, "same.mp4");
            assert_eq!(size, "11 B");
            assert_eq!(url, "u");
        }
        other => panic!("expected a skip, got {:?}", other),
    }
    assert_eq!(stats.bytes_summary(), None);
}

#[test]
fn a_different_file_is_replaced_in_parts_when_large() {
    let (result, transfers) =
        run_upload("big.mp4", 150 * 1024 * 1024, fine(FileComparison::Different, "u"));
    assert_eq!(transfers, 1);
    assert_eq!(result.kind(), Outcome::Uploaded);
    assert_eq!(result.filename(), "big.mp4");
}

#[test]
fn failures_become_the_outcome_of_the_file() {
    let failed_compare = Script {
        comparison: Err("stat failed".to_string()),
        transfer: Ok(UploadResult::Uploaded),
        sign: Ok("u".to_string()),
    };
    let (result, transfers) = run_upload("x", 1, failed_compare);
    assert_eq!(transfers, 0);
    assert!(
        matches!(result, ProcessResult::Failed { ref filename, ref error } if filename == "x" && error == "stat failed")
    );
    let failed_transfer = Script {
        comparison: Ok(FileComparison::NotFound),
        transfer: Err("Upload failed after 3 retries: timeout".to_string()),
        sign: Ok("u".to_string()),
    };
    let (result, _) = run_upload("y", 1, failed_transfer);
    assert!(
        matches!(result, ProcessResult::Failed { ref error, .. } if error == "Upload failed after 3 retries: timeout")
    );
    let failed_sign = Script {
        comparison: Ok(FileComparison::NotFound),
        transfer: Ok(UploadResult::Uploaded),
        sign: Err("no credentials".to_string()),
    };
    let (result, transfers) = run_upload("z", 1, failed_sign);
    assert_eq!(transfers, 1);
    assert_eq!(result.kind(), Outcome::Failed);
    let mut stats = Stats::new();
    stats.record(result.kind(), 1);
    assert_eq!(stats.failed, 1);
    assert_eq!(stats.total_bytes_uploaded, 0);
}

#[test]
fn a_transfer_that_was_left_out_is_a_skip() {
    let script = Script {
        comparison: Ok(FileComparison::Different),
        transfer: Ok(UploadResult::Skipped),
        sign: Ok("u".to_string()),
    };
    let (result, _) = run_upload("s", 1, script);
    assert_eq!(result.kind(), Outcome::Skipped);
}

#[test]
fn links_are_made_for_objects_that_exist() {
    let mut stats = Stats::new();
    let found =
        HeadOutcome::Found(RemoteObject { content_length: Some(1), e_tag: None });
    let mut job = Job::link("a.mp4".to_string());
    assert_eq!(job.stage(), JobStage::Probing);
    assert!(matches!(job.probed(found), JobAction::Sign));
    let result = job.signed(Ok("https://s/a".to_string()));
    assert!(
        matches!(result, ProcessResult::UrlGenerated { ref filename, ref url } if filename == "a.mp4" && url == "https://s/a")
    );
    stats.record(result.kind(), 0);

    let mut missing = Job::link("b.mp4".to_string());
    match missing.probed(HeadOutcome::Absent) {
        JobAction::Emit(result) => {
            assert!(matches!(result, ProcessResult::NotFound { ref filename } if filename == "b.mp4"));
            stats.record(result.kind(), 0);
        }
        other => panic!("expected an outcome, got {:?}", other),
    }
    let mut broken = Job::link("c.mp4".to_string());
    match broken.probed(HeadOutcome::Failed("dns".to_string())) {
        JobAction::Emit(result) => assert_eq!(result.kind(), Outcome::Failed),
        other => panic!("expected an outcome, got {:?}", other),
    }
    assert_eq!(stats.urls_generated, 1);
    assert_eq!(stats.not_found, 1);
    assert_eq!(stats.url_summary(), "Summary: 1 URL(s) generated, 1 not found");
}

#[test]
fn counters_only_rise() {
    let mut stats = Stats::new();
    let kinds = [
        Outcome::Uploaded,
        Outcome::Skipped,
        Outcome::Failed,
        Outcome::UrlGenerated,
        Outcome::NotFound,
        Outcome::Uploaded,
    ];
    for kind in kinds {
        let before = stats;
        stats.record(kind, 10);
        assert!(stats.uploaded >= before.uploaded);
        assert!(stats.skipped >= before.skipped);
        assert!(stats.failed >= before.failed);
        assert!(stats.urls_generated >= before.urls_generated);
        assert!(stats.not_found >= before.not_found);
        assert!(stats.total_bytes_uploaded >= before.total_bytes_uploaded);
    }
    assert_eq!(stats.uploaded, 2);
    assert_eq!(stats.total_bytes_uploaded, 20);
    let full = Stats { uploaded: u64::MAX, total_bytes_uploaded: u64::MAX - 1, ..Stats::new() };
    assert!(!full.can_record(Outcome::Uploaded, 0));
    assert!(full.can_record(Outcome::Skipped, 5));
    let nearly = Stats { total_bytes_uploaded: u64::MAX - 1, ..Stats::new() };
    assert!(nearly.can_record(Outcome::Uploaded, 1));
    assert!(!nearly.can_record(Outcome::Uploaded, 2));
}

fn failed(name: &str) -> ProcessResult {
    ProcessResult::Failed { filename: name.to_string(), error: "e".to_string() }
}

#[test]
fn the_report_is_sorted_by_name_whatever_the_order_of_completion() {
    let names = ["b", "a/z", "a", "", "B", "a/b", "\u{e9}", "a", "ab"];
    let mut results: Vec<ProcessResult> = names.iter().map(|name| failed(name)).collect();
    sort_results(&mut results);
    let sorted: Vec<&str> = results.iter().map(|result| result.filename().as_str()).collect();
    let mut expected = names.to_vec();
    expected.sort();
    assert_eq!(sorted, expected);
    let mut none: Vec<ProcessResult> = Vec::new();
    sort_results(&mut none);
    assert!(none.is_empty());
}

#[test]
fn a_file_without_outcome_is_accounted_as_failed() {
    let files: Vec<String> = ["a", "b", "c", "b"].iter().map(|name| name.to_string()).collect();
    let mut results = vec![failed("c")];
    account_for(&files, &mut results);
    let names: Vec<&str> = results.iter().map(|result| result.filename().as_str()).collect();
    assert_eq!(names, vec!["c", "a", "b"]);
    assert!(
        matches!(&results[1], ProcessResult::Failed { error, .. } if error == "worker ended before reporting an outcome")
    );
    let before = results.len();
    account_for(&files, &mut results);
    assert_eq!(results.len(), before);
}

#[test]
fn a_worker_reports_every_file_it_took() {
    let mut worker = Worker::new();
    for _ in 0..3 {
        assert_eq!(worker.state, WorkerState::Idle);
        worker.claim(true);
        assert_eq!(worker.state, WorkerState::Running);
        assert_eq!(worker.claimed, worker.emitted + 1);
        worker.emitted();
    }
    worker.claim(false);
    assert_eq!(worker.state, WorkerState::Done);
    assert_eq!(worker.claimed, 3);
    assert_eq!(worker.emitted, 3);
}

#[test]
fn dry_run_tells_what_would_be_done() {
    assert_eq!(dry_run_action(FileComparison::NotFound), DryRunAction::WouldUpload);
    assert_eq!(dry_run_action(FileComparison::Different), DryRunAction::WouldUpdate);
    assert_eq!(dry_run_action(FileComparison::Identical), DryRunAction::WouldSkip);
    assert_eq!(DryRunAction::WouldUpload.label(), "WOULD UPLOAD");
    assert_eq!(DryRunAction::WouldUpdate.label(), "WOULD UPDATE");
    assert_eq!(DryRunAction::WouldSkip.label(), "WOULD SKIP");
    assert_eq!(
        DryRunAction::WouldUpload.detail("a/b.mp4", "bkt", "up/a/b.mp4", "1.00 KB"),
        "a/b.mp4 \u{2192} s3://bkt/up/a/b.mp4 (1.00 KB)"
    );
    assert_eq!(
        DryRunAction::WouldSkip.detail("a/b.mp4", "bkt", "up/a/b.mp4", "1.00 KB"),
        "a/b.mp4 (1.00 KB)"
    );
}

#[test]
fn sizes_in_the_words_of_the_report() {
    assert_eq!(format_size(0), "0 B");
    assert_eq!(format_size(1023), "1023 B");
    assert_eq!(format_size(1024), "1.00 KB");
    assert_eq!(format_size(1536), "1.50 KB");
    assert_eq!(format_size(1024 * 1024 - 1), "1024.00 KB");
    assert_eq!(format_size(1024 * 1024), "1.00 MB");
    assert_eq!(format_size(150 * 1024 * 1024), "150.00 MB");
    assert_eq!(format_size(1024 * 1024 * 1024), "1.00 GB");
    assert_eq!(format_size(5 * 1024 * 1024 * 1024 + 512 * 1024 * 1024), "5.50 GB");
    assert_eq!(format_size(u64::MAX), "17179869184.00 GB");
}

#[test]
fn report_sizes_agree_with_float_formatting() {
    let sizes: [u64; 14] = [
        1024, 1029, 1034, 1039, 1285, 1_000_000, 1_048_576, 1_053_819, 1_059_062, 123_456_789,
        1_073_741_824, 1_079_110_533, 9_999_999_999_999, (1 << 53) - 1,
    ];
    for bytes in sizes {
        let expected = if bytes >= 1 << 30 {
            format!("{:.2} GB", bytes as f64 / (1u64 << 30) as f64)
        } else if bytes >= 1 << 20 {
            format!("{:.2} MB", bytes as f64 / (1u64 << 20) as f64)
        } else {
            format!("{:.2} KB", bytes as f64 / 1024f64)
        };
        assert_eq!(format_size(bytes), expected);
    }
}

#[test]
fn a_run_is_over_when_every_worker_has_ended() {
    let mut first = Worker::new();
    let mut second = Worker::new();
    first.claim(true);
    assert!(!run_complete(&vec![first, second], true));
    first.emitted();
    first.claim(false);
    assert!(!run_complete(&vec![first, second], true));
    second.claim(false);
    assert!(!run_complete(&vec![first, second], false));
    assert!(run_complete(&vec![first, second], true));
    assert!(run_complete(&vec![], true));
    assert_eq!(first.claimed + second.claimed, first.emitted + second.emitted);
}

#[test]
fn huge_sizes_are_measured_in_double_precision() {
    let sizes: [u64; 12] = [
        1 << 53,
        (1 << 53) + 1,
        (1 << 53) + 3,
        (1 << 60) + 127,
        (1 << 60) + 128,
        (1 << 60) + 129,
        9_007_199_308_425_953,
        12_345_678_901_234_567_890,
        u64::MAX - 1023,
        u64::MAX - 1024,
        u64::MAX - 2048,
        u64::MAX,
    ];
    for bytes in sizes {
        let expected = format!("{:.2} GB", bytes as f64 / (1u64 << 30) as f64);
        assert_eq!(format_size(bytes), expected);
        let paged = format!("{:.1} MB", bytes as f64 / (1u64 << 20) as f64);
        assert_eq!(swiss_knife::pdf::format_size(bytes), paged);
    }
}
