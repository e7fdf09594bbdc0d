use nebula_dm::model::{DownloadKind, DownloadStatus, QueueView};
use nebula_dm::queue::{
    active_count, load_snapshot_or_sample, sample_snapshot, total_downloaded_bytes, AppSnapshot, DownloadRecord,
    QueueManager,
};

fn find(manager: &QueueManager, id: u64) -> Option<DownloadRecord> {
    manager.snapshot().queue.iter().find(|item| item.id == id).cloned()
}

#[test]
fn add_download_inserts_new_queued_item() {
    let mut manager = QueueManager::new(sample_snapshot("Downloads"));
    let id = manager.add_download(
        "archlinux.iso".to_owned(),
        "https://example.com/archlinux.iso".to_owned(),
        DownloadKind::Direct,
        true,
    );

    let item = find(&manager, id).expect("new item should exist");

    assert_eq!(item.status, DownloadStatus::Queued);
    assert!(item.added_from_browser);
}

#[test]
fn pause_and_resume_update_status() {
    let mut manager = QueueManager::new(sample_snapshot("Downloads"));

    manager.pause(1);
    let paused = find(&manager, 1).expect("sample item should exist");
    assert_eq!(paused.status, DownloadStatus::Paused);

    manager.resume(1);
    let resumed = find(&manager, 1).expect("sample item should exist");
    assert_eq!(resumed.status, DownloadStatus::Downloading);
}

#[test]
fn start_next_queued_direct_promotes_waiting_job() {
    let mut manager = QueueManager::new(sample_snapshot("Downloads"));

    let id = manager.start_next_queued_direct().expect("queued job should start");
    let started = find(&manager, id).expect("started item should exist");

    assert_eq!(started.status, DownloadStatus::Downloading);
    assert_eq!(started.eta_text, "Connecting");
}

#[test]
fn apply_download_progress_updates_metrics() {
    let mut manager = QueueManager::new(sample_snapshot("Downloads"));

    manager.apply_download_progress(1, 5 * 1024 * 1024, Some(10 * 1024 * 1024), 2_000_000);
    let item = manager.get_record(1).expect("sample item should exist");

    assert_eq!(item.progress_basis_points as f32 / 100.0, 50.0);
    assert!(item.speed_bytes_per_sec as f64 / (1024.0 * 1024.0) > 1.0);
}

#[test]
fn start_next_queued_torrent_promotes_waiting_torrent() {
    let mut manager = QueueManager::new(sample_snapshot("Downloads"));
    let id = manager.add_download(
        "archlinux.torrent".to_owned(),
        "magnet:?xt=urn:btih:arch".to_owned(),
        DownloadKind::Torrent,
        false,
    );

    let started = manager.start_next_queued_torrent().expect("torrent job should start");
    assert_eq!(started, id);
    assert_eq!(manager.get_record(id).expect("torrent item should exist").status, DownloadStatus::Downloading);
}

#[test]
fn remove_deletes_item_from_queue() {
    let mut manager = QueueManager::new(sample_snapshot("Downloads"));

    assert!(manager.remove(2));
    assert!(manager.get_record(2).is_none());
    assert!(!manager.remove(999));
}

#[test]
fn sample_queue_has_four_jobs_and_one_running() {
    let snapshot = sample_snapshot("Downloads");
    let ids: Vec<u64> = snapshot.queue.iter().map(|r| r.id).collect();
    assert_eq!(ids, vec![1, 2, 3, 4]);
    assert_eq!(snapshot.downloads_root, "Downloads");
    assert_eq!(active_count(&snapshot), 1);
    assert_eq!(total_downloaded_bytes(&snapshot), 3030384640u128 + 674234368 + 15309209);
    assert_eq!(snapshot.categories.len(), 6);
}

#[test]
fn new_ids_follow_the_largest_id() {
    let mut manager = QueueManager::new(sample_snapshot("Downloads"));
    let first = manager.add_download("a.zip".to_owned(), "https://x/a.zip".to_owned(), DownloadKind::Direct, false);
    let second = manager.add_download("b.zip".to_owned(), "https://x/b.zip".to_owned(), DownloadKind::Direct, false);
    assert_eq!(first, 5);
    assert_eq!(second, 6);
    assert_eq!(manager.snapshot().queue[0].id, 6);
    assert_eq!(manager.snapshot().queue[1].id, 5);
    assert_eq!(manager.snapshot().queue[0].eta_text, "Waiting");
}

#[test]
fn empty_queue_starts_numbering_at_one() {
    let snapshot = AppSnapshot { downloads_root: "D".to_owned(), categories: Vec::new(), queue: Vec::new() };
    let mut manager = QueueManager::new(snapshot);
    let id = manager.add_download("a".to_owned(), "b".to_owned(), DownloadKind::Direct, false);
    assert_eq!(id, 1);
}

#[test]
fn pause_only_touches_running_jobs() {
    let mut manager = QueueManager::new(sample_snapshot("Downloads"));
    manager.pause(3);
    assert_eq!(manager.get_record(3).unwrap().status, DownloadStatus::Completed);
    manager.pause(1);
    let paused = manager.get_record(1).unwrap().clone();
    assert_eq!(paused.speed_bytes_per_sec, 0);
    assert_eq!(paused.eta_text, "Paused");
    manager.resume(1);
    let resumed = manager.get_record(1).unwrap();
    assert_eq!(resumed.speed_bytes_per_sec, 8912896);
    assert_eq!(resumed.eta_text, "Resuming");
    assert_eq!(resumed.progress_basis_points, paused.progress_basis_points);
    assert_eq!(resumed.downloaded_bytes, paused.downloaded_bytes);
}

#[test]
fn completing_fills_the_file() {
    let mut manager = QueueManager::new(sample_snapshot("Downloads"));
    manager.mark_completed(1);
    let item = manager.get_record(1).unwrap();
    assert_eq!(item.status, DownloadStatus::Completed);
    assert_eq!(item.progress_basis_points, 10000);
    assert_eq!(item.downloaded_bytes, 4935647232);
    assert_eq!(item.speed_bytes_per_sec, 0);
    assert_eq!(item.eta_text, "Done");
}

#[test]
fn failing_keeps_the_reason() {
    let mut manager = QueueManager::new(sample_snapshot("Downloads"));
    manager.fail(2, "disk full");
    let item = manager.get_record(2).unwrap();
    assert_eq!(item.status, DownloadStatus::Failed);
    assert_eq!(item.eta_text, "disk full");
}

#[test]
fn progress_reports_time_left() {
    let mut manager = QueueManager::new(sample_snapshot("Downloads"));
    manager.apply_download_progress(1, 100, Some(1100), 400);
    assert_eq!(manager.get_record(1).unwrap().eta_text, "2s remaining");
    manager.apply_download_progress(1, 100, Some(1100), 0);
    assert_eq!(manager.get_record(1).unwrap().eta_text, "Calculating");
    manager.apply_download_progress(1, 100, None, 10);
    assert_eq!(manager.get_record(1).unwrap().eta_text, "Streaming");
}

#[test]
fn set_total_bytes_marks_the_job_started() {
    let mut manager = QueueManager::new(sample_snapshot("Downloads"));
    manager.set_total_bytes(2, Some(42));
    let item = manager.get_record(2).unwrap();
    assert_eq!(item.total_bytes, 42);
    assert_eq!(item.status, DownloadStatus::Downloading);
    assert_eq!(item.eta_text, "Starting");
}

#[test]
fn torrent_progress_is_capped_and_names_peers() {
    let mut manager = QueueManager::new(sample_snapshot("Downloads"));
    manager.apply_torrent_progress(3, 12000, 10, 20, 5, 7, "1m");
    let item = manager.get_record(3).unwrap();
    assert_eq!(item.progress_basis_points, 10000);
    assert_eq!(item.eta_text, "1m | 7 peers");
    assert_eq!(item.status, DownloadStatus::Downloading);
}

#[test]
fn clearing_history_empties_the_queue() {
    let mut manager = QueueManager::new(sample_snapshot("Downloads"));
    manager.clear_all_history();
    assert!(manager.snapshot().queue.is_empty());
    assert_eq!(manager.snapshot().downloads_root, "Downloads");
}

#[test]
fn metadata_scrubbing_touches_only_its_job() {
    let mut manager = QueueManager::new(sample_snapshot("Downloads"));
    manager.redact_torrent_source(3);
    assert_eq!(manager.get_record(3).unwrap().request.source, "[magnet redacted]");
    manager.redact_torrent_source(4);
    assert_eq!(manager.get_record(4).unwrap().request.source, "https://example.com/spec.pdf");
    manager.clear_browser_metadata(1);
    assert_eq!(manager.get_record(1).unwrap().request.referrer, None);
}

#[test]
fn demo_tick_advances_and_completes() {
    let mut manager = QueueManager::new(sample_snapshot("Downloads"));
    manager.tick_demo_progress();
    let running = manager.get_record(1).unwrap();
    assert_eq!(running.progress_basis_points, 6380);
    assert_eq!(running.eta_text, "Updating");
    assert_eq!(manager.get_record(2).unwrap().eta_text, "Waiting");
    for _ in 0..20 {
        manager.tick_demo_progress();
    }
    let done = manager.get_record(1).unwrap();
    assert_eq!(done.status, DownloadStatus::Completed);
    assert_eq!(done.progress_basis_points, 10000);
}

#[test]
fn visibility_follows_the_filter() {
    let snapshot = sample_snapshot("Downloads");
    let running = &snapshot.queue[0];
    assert!(running.is_visible_in(QueueView::Active));
    assert!(running.is_visible_in(QueueView::BrowserCapture));
    assert!(!running.is_visible_in(QueueView::Completed));
    let torrent = &snapshot.queue[2];
    assert!(torrent.is_visible_in(QueueView::Torrents));
    assert!(torrent.is_visible_in(QueueView::Completed));
    assert!(snapshot.queue[1].is_visible_in(QueueView::Queued));
}

#[test]
fn loading_settles_seeding_torrents() {
    let mut snapshot = sample_snapshot("Saved");
    snapshot.queue[2].status = DownloadStatus::Seeding;
    snapshot.queue[2].speed_bytes_per_sec = 77;
    snapshot.queue[2].eta_text = "Seeding".to_owned();
    let restored = load_snapshot_or_sample(Some(snapshot), "Elsewhere");
    assert_eq!(restored.downloads_root, "Saved");
    assert_eq!(restored.queue[2].status, DownloadStatus::Completed);
    assert_eq!(restored.queue[2].speed_bytes_per_sec, 0);
    assert_eq!(restored.queue[2].eta_text, "Done");
    assert_eq!(restored.queue[0].status, DownloadStatus::Downloading);
}

#[test]
fn nothing_saved_gives_the_sample_queue() {
    let restored = load_snapshot_or_sample(None, "Fresh");
    assert_eq!(restored, sample_snapshot("Fresh"));
}

#[test]
fn completed_jobs_stay_completed() {
    let mut manager = QueueManager::new(sample_snapshot("Downloads"));
    let before = manager.get_record(4).unwrap().clone();
    manager.pause(4);
    manager.resume(4);
    manager.tick_demo_progress();
    assert_eq!(manager.get_record(4).unwrap(), &before);
}

#[test]
fn removing_a_new_job_restores_the_queue() {
    let mut manager = QueueManager::new(sample_snapshot("Downloads"));
    let before = manager.snapshot().clone();
    let id = manager.add_download("x.iso".to_owned(), "https://x/x.iso".to_owned(), DownloadKind::Direct, false);
    assert!(manager.remove(id));
    assert_eq!(manager.snapshot(), &before);
}

#[test]
fn an_operation_leaves_other_jobs_alone() {
    let mut manager = QueueManager::new(sample_snapshot("Downloads"));
    let before = manager.snapshot().clone();
    manager.pause(1);
    manager.fail(3, "x");
    let after = &manager.snapshot().queue;
    assert_eq!(after[1], before.queue[1]);
    assert_eq!(after[3], before.queue[3]);
}

#[test]
fn loading_twice_settles_the_same_way() {
    let mut snapshot = sample_snapshot("Saved");
    snapshot.queue[2].status = DownloadStatus::Seeding;
    let once = load_snapshot_or_sample(Some(snapshot), "x");
    let twice = load_snapshot_or_sample(Some(once.clone()), "y");
    assert_eq!(once, twice);
    assert!(twice.queue.iter().all(|r| r.status != DownloadStatus::Seeding));
}

#[test]
fn progress_never_passes_one_hundred_percent() {
    let mut manager = QueueManager::new(sample_snapshot("Downloads"));
    manager.apply_download_progress(1, 700, Some(700), 1);
    assert_eq!(manager.get_record(1).unwrap().progress_basis_points, 10000);
    manager.apply_download_progress(1, 699, Some(700), 1);
    assert_eq!(manager.get_record(1).unwrap().progress_basis_points, 9985);
    manager.apply_torrent_progress(1, 40000, 1, 1, 1, 1, "x");
    assert_eq!(manager.get_record(1).unwrap().progress_basis_points, 10000);
}

#[test]
fn one_tick_completes_only_jobs_reaching_the_end() {
    let mut snapshot = sample_snapshot("Downloads");
    snapshot.queue[0].progress_basis_points = 9900;
    snapshot.queue[1].status = DownloadStatus::Downloading;
    snapshot.queue[1].progress_basis_points = 100;
    let mut manager = QueueManager::new(snapshot);
    manager.tick_demo_progress();
    let first = manager.get_record(1).unwrap();
    assert_eq!(first.status, DownloadStatus::Completed);
    assert_eq!(first.eta_text, "Done");
    let second = manager.get_record(2).unwrap();
    assert_eq!(second.status, DownloadStatus::Downloading);
    assert_eq!(second.progress_basis_points, 340);
    assert_eq!(second.downloaded_bytes, 327155712 * 340 / 10000);
}
