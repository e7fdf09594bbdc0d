use nebula_dm::desktop::{
    accept_browser_capture, capture_arrival, has_active_transfers, history_deletion_step, history_metadata_files,
    numbered_file_name, persisted_rqbit_state, remember_recent_download, restore_decision, status_tone,
    push_notification, toggled_details, HistoryDeletionStep, RestoreAction, StatusTone,
};
use nebula_dm::model::{BrowserCapturePayload, DownloadKind, DownloadStatus, PrivacySettings, RqbitPersistedState};
use nebula_dm::queue::{sample_snapshot, DownloadRecord};

fn payload() -> BrowserCapturePayload {
    BrowserCapturePayload {
        file_name: "clip.mp4".to_owned(),
        source: "https://example.com/clip.mp4".to_owned(),
        kind: DownloadKind::Direct,
        referrer: Some("https://example.com".to_owned()),
        user_agent: Some("UA".to_owned()),
        cookie_header: Some("session=1".to_owned()),
    }
}

#[test]
fn privacy_mode_strips_capture_context() {
    let request = accept_browser_capture(payload(), &PrivacySettings { privacy_mode: true });
    assert_eq!(request.referrer, None);
    assert_eq!(request.user_agent, None);
    assert_eq!(request.cookie_header, None);
    assert_eq!(request.source, "https://example.com/clip.mp4");
    let kept = accept_browser_capture(payload(), &PrivacySettings { privacy_mode: false });
    assert_eq!(kept.cookie_header.as_deref(), Some("session=1"));
}

#[test]
fn arriving_capture_is_previewed_once() {
    let snapshot = sample_snapshot("Downloads");
    let (folder, message) = capture_arrival(false, &payload(), &snapshot);
    assert_eq!(folder.as_deref(), Some("Downloads/Videos"));
    assert_eq!(message, "Browser download is waiting for confirmation");
    let (folder, message) = capture_arrival(true, &payload(), &snapshot);
    assert_eq!(folder, None);
    assert_eq!(message, "Another browser download arrived while a confirmation was already open");
}

#[test]
fn active_transfers_include_running_workers_and_records() {
    let snapshot = sample_snapshot("Downloads");
    assert!(has_active_transfers(false, false, &snapshot));
    let mut idle = snapshot.clone();
    idle.queue.retain(|r| r.status != DownloadStatus::Downloading);
    assert!(!has_active_transfers(false, false, &idle));
    assert!(has_active_transfers(true, false, &idle));
    assert!(has_active_transfers(false, true, &idle));
}

fn torrent_record() -> DownloadRecord {
    sample_snapshot("Downloads").queue[2].clone()
}

#[test]
fn torrent_job_is_saved_only_outside_privacy_mode() {
    let record = torrent_record();
    let saved = persisted_rqbit_state(
        &PrivacySettings { privacy_mode: false },
        Some(3),
        Some(&record),
        &Some("Debian".to_owned()),
        &None,
        &None,
        Some(1),
        &Vec::new(),
        4,
    )
    .expect("torrent job should be saved");
    assert_eq!(saved.queue_job_id, 3);
    assert_eq!(saved.magnet_uri, "magnet:?xt=urn:btih:abcdef123456");
    assert_eq!(saved.peer_count, 4);
    let hidden = persisted_rqbit_state(
        &PrivacySettings { privacy_mode: true },
        Some(3),
        Some(&record),
        &None,
        &None,
        &None,
        None,
        &Vec::new(),
        0,
    );
    assert!(hidden.is_none());
}

#[test]
fn saved_torrent_job_is_restored_when_it_still_matches() {
    let record = torrent_record();
    let saved = RqbitPersistedState {
        queue_job_id: 3,
        magnet_uri: record.request.source.clone(),
        torrent_name: None,
        info_hash: None,
        output_folder: None,
        file_count: None,
        files: Vec::new(),
        peer_count: 0,
    };
    let open = PrivacySettings { privacy_mode: false };
    assert_eq!(restore_decision(&open, false, Some(&saved), Some(&record)), RestoreAction::Restore(3));
    assert_eq!(restore_decision(&open, true, Some(&saved), Some(&record)), RestoreAction::Wait);
    assert_eq!(restore_decision(&PrivacySettings::default(), false, Some(&saved), Some(&record)), RestoreAction::Discard);
    assert_eq!(restore_decision(&open, false, None, Some(&record)), RestoreAction::Nothing);
    assert_eq!(restore_decision(&open, false, Some(&saved), None), RestoreAction::Forget);
    let other = sample_snapshot("Downloads").queue[0].clone();
    assert_eq!(restore_decision(&open, false, Some(&saved), Some(&other)), RestoreAction::Forget);
}

#[test]
fn recent_downloads_keep_five_newest_without_repeats() {
    let mut recent: Vec<String> = Vec::new();
    for name in ["a", "b", "c", "d", "e", "f"] {
        remember_recent_download(&mut recent, name);
    }
    assert_eq!(recent, vec!["f", "e", "d", "c", "b"]);
    remember_recent_download(&mut recent, "c");
    assert_eq!(recent, vec!["c", "f", "e", "d", "b"]);
}

#[test]
fn duplicate_names_are_numbered() {
    assert_eq!(numbered_file_name("report", Some("pdf"), 2), "report (2).pdf");
    assert_eq!(numbered_file_name("report", Some(""), 3), "report (3)");
    assert_eq!(numbered_file_name("report", None, 1), "report (1)");
}

#[test]
fn deleting_history_takes_two_clicks() {
    let (step, pending, message) = history_deletion_step(false, false);
    assert_eq!(step, HistoryDeletionStep::AskConfirmation);
    assert!(pending);
    assert_eq!(message, "Click again to permanently delete history and saved metadata");
    let (step, pending, message) = history_deletion_step(true, true);
    assert_eq!(step, HistoryDeletionStep::BlockedByActiveTransfers);
    assert!(!pending);
    assert_eq!(message, "Pause or remove active transfers before deleting history and metadata");
    let (step, pending, message) = history_deletion_step(true, false);
    assert_eq!(step, HistoryDeletionStep::Delete);
    assert!(!pending);
    assert_eq!(message, "Deleted history and saved metadata");
}

#[test]
fn history_metadata_files_follow_the_plans() {
    let files = history_metadata_files(&sample_snapshot("Downloads"));
    assert_eq!(
        files,
        vec![
            "Downloads/Other/ubuntu-24.04.iso.json".to_owned(),
            "Downloads/Programs/blender-setup.exe.json".to_owned(),
            "Downloads/Torrents/debian-netinst.torrent-session.json".to_owned(),
            "Downloads/Documents/project-spec.pdf.json".to_owned(),
        ]
    );
}

#[test]
fn details_toggle_per_job() {
    assert_eq!(toggled_details(None, 4), Some(4));
    assert_eq!(toggled_details(Some(4), 4), None);
    assert_eq!(toggled_details(Some(2), 4), Some(4));
}

#[test]
fn status_text_picks_its_tone() {
    assert_eq!(status_tone("Completed"), StatusTone::Success);
    assert_eq!(status_tone("FAILED"), StatusTone::Danger);
    assert_eq!(status_tone("Deleted files"), StatusTone::Danger);
    assert_eq!(status_tone("Paused"), StatusTone::Warm);
    assert_eq!(status_tone("Downloading"), StatusTone::Accent);
}

#[test]
fn only_the_five_newest_notifications_are_kept() {
    let mut notifications = Vec::new();
    let mut serial = 0u64;
    for n in 0..7 {
        push_notification(&mut notifications, &mut serial, format!("t{n}"), format!("b{n}"));
    }
    assert_eq!(serial, 7);
    let ids: Vec<u64> = notifications.iter().map(|n| n.id).collect();
    assert_eq!(ids, vec![3, 4, 5, 6, 7]);
    assert_eq!(notifications[4].title, "t6");
    assert_eq!(notifications[0].body, "b2");
}
