use blueflame::downloads::{
    download_filename, filename_from_url, list_limit, numbered_name, sanitize_filename, temp_file_name,
    ActiveDownloads, DownloadEntry, DownloadFailure, DownloadsLog, StreamAction, StreamEvent, StreamState,
    CAPACITY,
};

#[test]
fn sanitize_blocks_traversal() {
    let cleaned = sanitize_filename("../../etc/passwd");
    assert!(!cleaned.contains('/'));
    assert!(!cleaned.contains('\\'));
    assert!(!cleaned.starts_with('.'));
    assert_eq!(sanitize_filename("ok.zip"), "ok.zip");
    assert_eq!(sanitize_filename(".."), "download");
    assert_eq!(sanitize_filename(""), "download");
}

#[test]
fn filename_from_url_handles_encoding() {
    assert_eq!(
        filename_from_url("https://x.example/path/foo%20bar.zip?q=1"),
        Some("foo bar.zip".to_string())
    );
    assert_eq!(filename_from_url("https://x.example/"), None);
}

#[test]
fn active_downloads_cancel_flips_flag_and_reports_unknown() {
    let mut active = ActiveDownloads::default();
    active.register(9);
    assert!(!active.is_cancelled(9));
    assert!(active.cancel(9));
    assert!(active.is_cancelled(9));
    assert!(!active.cancel(404));
    active.unregister(9);
    assert!(!active.cancel(9));
}

#[test]
fn numbered_name_places_counter_before_extension() {
    assert_eq!(numbered_name("a.zip", 2), "a (2).zip");
    assert_eq!(numbered_name("archive.tar.gz", 3), "archive.tar (3).gz");
    assert_eq!(numbered_name("README", 2), "README (2)");
    assert_eq!(numbered_name(".bashrc", 2), ".bashrc (2)");
}

#[test]
fn sanitize_replaces_forbidden_and_trims() {
    assert_eq!(sanitize_filename("a:b*c?.txt"), "a_b_c_.txt");
    assert_eq!(sanitize_filename("  name.txt. "), "name.txt");
    let long: String = std::iter::repeat('x').take(300).collect();
    assert_eq!(sanitize_filename(&long).chars().count(), 200);
}

#[test]
fn download_filename_prefers_disposition_then_url() {
    assert_eq!(download_filename(Some("report.pdf"), Some("x.bin")), "report.pdf");
    assert_eq!(download_filename(None, Some("x.bin")), "x.bin");
    assert_eq!(download_filename(None, None), "download");
}

#[test]
fn temp_file_name_is_hidden_part_file() {
    assert_eq!(temp_file_name(5), ".blueflame-download-5.part");
}

#[test]
fn list_limit_defaults_and_caps() {
    assert_eq!(list_limit(None), 100);
    assert_eq!(list_limit(Some(3)), 3);
    assert_eq!(list_limit(Some(10_000)), CAPACITY);
}

fn entry(id: u64) -> DownloadEntry {
    DownloadEntry {
        id,
        url: format!("https://x.example/{id}"),
        filename: format!("f{id}"),
        path: format!("/tmp/f{id}"),
        size: 1,
        ts: 0,
    }
}

#[test]
fn downloads_log_is_newest_first_and_bounded() {
    let mut log = DownloadsLog::default();
    for i in 0..(CAPACITY as u64 + 5) {
        log.add(entry(i));
    }
    let r = log.recent(usize::MAX);
    assert_eq!(r.len(), CAPACITY);
    assert_eq!(r[0].id, CAPACITY as u64 + 4);
    log.clear();
    assert!(log.recent(10).is_empty());
    assert_eq!(log.issue_id(), 1);
    assert_eq!(log.issue_id(), 2);
}

#[test]
fn stream_steps_accumulate_and_report() {
    let mut s = StreamState::new(Some(10));
    assert!(matches!(s.step(StreamEvent::Wrote(4)), StreamAction::Progress(4, Some(10))));
    assert!(matches!(s.step(StreamEvent::Trailer), StreamAction::ReadNext));
    assert!(matches!(s.step(StreamEvent::Wrote(6)), StreamAction::Progress(10, Some(10))));
    assert!(matches!(s.step(StreamEvent::BodyEnded), StreamAction::Finalize));
    assert_eq!(s.bytes_written, 10);
}

#[test]
fn stream_failures_name_the_step() {
    let mut s = StreamState::new(None);
    match s.step(StreamEvent::ReadFailed("boom".to_string())) {
        StreamAction::Abort(DownloadFailure::Failed(m)) => assert_eq!(m, "read body: boom"),
        _ => panic!("expected abort"),
    }
    match s.step(StreamEvent::RenameFailed("busy".to_string())) {
        StreamAction::Abort(f) => assert_eq!(f.message(), "finalize file: busy"),
        _ => panic!("expected abort"),
    }
    match s.step(StreamEvent::CancelSeen) {
        StreamAction::Abort(f) => {
            assert_eq!(f, DownloadFailure::Cancelled);
            assert_eq!(f.message(), "download cancelled");
        }
        _ => panic!("expected abort"),
    }
}

#[test]
fn recent_after_many_adds_lists_newest_kept_first() {
    let mut log = DownloadsLog::default();
    log.add(entry(999));
    log.clear();
    for id in 1..=(CAPACITY as u64 + 5) {
        log.add(entry(id));
    }
    let r = log.recent(3);
    let ids: Vec<u64> = r.iter().map(|e| e.id).collect();
    assert_eq!(ids, vec![CAPACITY as u64 + 5, CAPACITY as u64 + 4, CAPACITY as u64 + 3]);
    let all = log.recent(usize::MAX);
    assert_eq!(all.len(), CAPACITY);
    assert_eq!(all[CAPACITY - 1].id, 6);
}

#[test]
fn active_downloads_flags_follow_register_cancel_unregister() {
    let mut a = ActiveDownloads::default();
    assert!(!a.cancel(3));
    a.register(3);
    a.register(4);
    assert!(!a.is_cancelled(3));
    assert!(a.cancel(3));
    assert!(a.is_cancelled(3));
    assert!(!a.is_cancelled(4));
    a.unregister(3);
    assert!(!a.is_cancelled(3));
    assert!(!a.cancel(3));
    assert!(a.cancel(4));
}
