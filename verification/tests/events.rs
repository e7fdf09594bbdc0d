use nebula_dm::direct::DirectDownloadEvent;
use nebula_dm::events::{
    apply_direct_event, apply_torrent_event, scrub_completed_direct_metadata, scrub_completed_torrent_metadata,
    tick_simulated_torrent, total_file_size,
};
use nebula_dm::model::{DownloadKind, DownloadStatus, PrivacySettings, TorrentFileEntry, TorrentSessionSnapshot};
use nebula_dm::queue::{sample_snapshot, QueueManager};
use nebula_dm::rqbit::RqbitTorrentEvent;

fn manager() -> QueueManager {
    QueueManager::new(sample_snapshot("Downloads"))
}

#[test]
fn direct_start_sets_the_size() {
    let mut m = manager();
    let out = apply_direct_event(&mut m, 2, &DirectDownloadEvent::Started { total_bytes: Some(900) });
    assert_eq!(out.status_message, "Direct job #2 connected");
    assert!(!out.finished);
    assert_eq!(m.get_record(2).unwrap().total_bytes, 900);
    assert_eq!(m.get_record(2).unwrap().status, DownloadStatus::Downloading);
}

#[test]
fn direct_progress_updates_the_job() {
    let mut m = manager();
    let event = DirectDownloadEvent::Progress { downloaded_bytes: 50, total_bytes: Some(100), bytes_per_second: 10 };
    let out = apply_direct_event(&mut m, 1, &event);
    assert_eq!(out.status_message, "Downloading job #1");
    let item = m.get_record(1).unwrap();
    assert_eq!(item.progress_basis_points, 5000);
    assert_eq!(item.eta_text, "5s remaining");
}

#[test]
fn direct_retry_only_reports() {
    let mut m = manager();
    let before = m.snapshot().clone();
    let event = DirectDownloadEvent::Retrying {
        attempt: 2,
        max_attempts: 4,
        wait_ms: 2400,
        message: "timed out".to_owned(),
    };
    let out = apply_direct_event(&mut m, 1, &event);
    assert_eq!(out.status_message, "Retrying direct job #1 (2/4) in 2s: timed out");
    assert_eq!(m.snapshot(), &before);
}

#[test]
fn direct_completion_fills_and_finishes() {
    let mut m = manager();
    let event = DirectDownloadEvent::Completed { final_file_path: "D/Programs/b.exe".to_owned(), total_bytes: 777 };
    let out = apply_direct_event(&mut m, 2, &event);
    assert_eq!(out.status_message, "Completed job #2 -> D/Programs/b.exe");
    assert!(out.finished);
    assert_eq!(out.completed_file_path.as_deref(), Some("D/Programs/b.exe"));
    let item = m.get_record(2).unwrap();
    assert_eq!(item.status, DownloadStatus::Completed);
    assert_eq!(item.downloaded_bytes, 777);
    assert_eq!(item.progress_basis_points, 10000);
}

#[test]
fn direct_failure_keeps_the_message() {
    let mut m = manager();
    let out = apply_direct_event(&mut m, 1, &DirectDownloadEvent::Failed { message: "boom".to_owned() });
    assert_eq!(out.status_message, "Direct job #1 failed: boom");
    assert_eq!(out.failed_message.as_deref(), Some("boom"));
    assert!(out.finished);
    assert_eq!(m.get_record(1).unwrap().status, DownloadStatus::Failed);
}

#[test]
fn direct_pause_records_progress_then_pauses() {
    let mut m = manager();
    let out = apply_direct_event(&mut m, 1, &DirectDownloadEvent::Paused { downloaded_bytes: 10, total_bytes: Some(40) });
    assert_eq!(out.status_message, "Paused direct job #1");
    let item = m.get_record(1).unwrap();
    assert_eq!(item.status, DownloadStatus::Paused);
    assert_eq!(item.downloaded_bytes, 10);
    assert_eq!(item.progress_basis_points, 2500);
    assert_eq!(item.speed_bytes_per_sec, 0);
}

#[test]
fn torrent_events_drive_the_job() {
    let mut m = manager();
    let out = apply_torrent_event(&mut m, 3, &RqbitTorrentEvent::SessionStarted);
    assert_eq!(out.status_message, "Torrent job #3 session started");
    assert_eq!(m.get_record(3).unwrap().eta_text, "Session started | 0 peers");
    let progress = RqbitTorrentEvent::Progress {
        progress_basis_points: 4200,
        downloaded_bytes: 42,
        total_bytes: 100,
        download_rate_bytes_per_sec: 9,
        upload_rate_bytes_per_sec: 1,
        peers: 5,
        eta_text: "3m".to_owned(),
    };
    let out = apply_torrent_event(&mut m, 3, &progress);
    assert_eq!(out.peer_count, Some(5));
    assert!(out.save_state);
    assert_eq!(m.get_record(3).unwrap().eta_text, "3m | 5 peers");
    let out = apply_torrent_event(&mut m, 3, &RqbitTorrentEvent::Paused);
    assert_eq!(out.status_message, "Paused torrent job #3 via rqbit");
    assert_eq!(m.get_record(3).unwrap().status, DownloadStatus::Paused);
    let out = apply_torrent_event(&mut m, 3, &RqbitTorrentEvent::Completed);
    assert!(out.finished && out.scrub_metadata);
    assert_eq!(
        out.notification,
        Some(("Torrent completed".to_owned(), "Torrent job #3 finished".to_owned()))
    );
    assert_eq!(m.get_record(3).unwrap().status, DownloadStatus::Completed);
}

#[test]
fn torrent_removal_and_failure() {
    let mut m = manager();
    let out = apply_torrent_event(&mut m, 3, &RqbitTorrentEvent::Failed("tracker down".to_owned()));
    assert_eq!(out.status_message, "Torrent job #3 failed via rqbit: tracker down");
    assert_eq!(
        out.notification,
        Some(("Torrent failed".to_owned(), "Torrent job #3 failed: tracker down".to_owned()))
    );
    assert!(out.clear_pending_delete);
    let out = apply_torrent_event(&mut m, 3, &RqbitTorrentEvent::Deleted);
    assert_eq!(out.status_message, "Deleted torrent job #3 and its files via rqbit");
    assert!(m.get_record(3).is_none());
}

#[test]
fn torrent_metadata_is_reported() {
    let mut m = manager();
    let event = RqbitTorrentEvent::MetadataResolved {
        display_name: "Ubuntu".to_owned(),
        info_hash: "abc".to_owned(),
        output_folder: "D/Torrents/Ubuntu".to_owned(),
        file_count: 1,
        files: vec![TorrentFileEntry { path: "u.iso".to_owned(), size_bytes: 1 }],
    };
    let out = apply_torrent_event(&mut m, 3, &event);
    assert_eq!(out.status_message, "Torrent job #3 resolved metadata for Ubuntu");
    assert!(!out.finished);
}

#[test]
fn scrubbing_follows_privacy_mode() {
    let mut m = manager();
    scrub_completed_torrent_metadata(&mut m, &PrivacySettings { privacy_mode: false }, 3);
    assert_eq!(m.get_record(3).unwrap().request.source, "magnet:?xt=urn:btih:abcdef123456");
    scrub_completed_torrent_metadata(&mut m, &PrivacySettings { privacy_mode: true }, 3);
    assert_eq!(m.get_record(3).unwrap().request.source, "[magnet redacted]");
    scrub_completed_direct_metadata(&mut m, &PrivacySettings { privacy_mode: true }, 1);
    assert_eq!(m.get_record(1).unwrap().request.cookie_header, None);
}

fn small_session() -> TorrentSessionSnapshot {
    TorrentSessionSnapshot {
        info_hash: "h".to_owned(),
        display_name: "s".to_owned(),
        save_path: "D/Torrents/s".to_owned(),
        magnet_uri: "magnet:?xt=urn:btih:h".to_owned(),
        files: vec![
            TorrentFileEntry { path: "s/a".to_owned(), size_bytes: 10 },
            TorrentFileEntry { path: "s/b".to_owned(), size_bytes: 5 },
        ],
        piece_count: 20,
        completed_pieces: 0,
        downloaded_bytes: 0,
        uploaded_bytes: 0,
        connected_peers: 0,
        trackers: Vec::new(),
    }
}

#[test]
fn simulated_engine_completes_the_job() {
    let mut m = manager();
    let id = m.add_download("s.torrent".to_owned(), "magnet:?xt=urn:btih:h".to_owned(), DownloadKind::Torrent, false);
    let mut session = small_session();
    assert_eq!(total_file_size(&session.files), 15);
    assert!(!tick_simulated_torrent(&mut m, &PrivacySettings::default(), id, &mut session));
    let item = m.get_record(id).unwrap();
    assert_eq!(item.progress_basis_points, 6000);
    assert_eq!(item.total_bytes, 15);
    assert_eq!(item.eta_text, "8 pieces left | 18 peers");
    assert!(tick_simulated_torrent(&mut m, &PrivacySettings::default(), id, &mut session));
    let item = m.get_record(id).unwrap();
    assert_eq!(item.status, DownloadStatus::Completed);
    assert_eq!(item.request.source, "[magnet redacted]");
    assert_eq!(session.completed_pieces, 20);
}

#[test]
fn direct_reports_leave_other_jobs_alone() {
    let mut m = manager();
    let before = m.snapshot().clone();
    apply_direct_event(&mut m, 2, &DirectDownloadEvent::Completed { final_file_path: "p".to_owned(), total_bytes: 1 });
    let after = &m.snapshot().queue;
    assert_eq!(after[0], before.queue[0]);
    assert_eq!(after[2], before.queue[2]);
    assert_eq!(after[3], before.queue[3]);
}
