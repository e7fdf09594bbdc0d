use nebula_dm::model::{
    BrowserCapturePayload, DesktopPersistedState, DownloadKind, DownloadRequest, DownloadStatus, PrivacySettings,
    QueueView, RqbitPersistedState, TorrentFileEntry,
};

#[test]
fn rqbit_state_matches_same_magnet_torrent() {
    let state = RqbitPersistedState {
        queue_job_id: 7,
        magnet_uri: "magnet:?xt=urn:btih:123".to_owned(),
        torrent_name: Some("ubuntu".to_owned()),
        info_hash: Some("123".to_owned()),
        output_folder: Some("Downloads/Torrents/ubuntu".to_owned()),
        file_count: Some(3),
        files: vec![TorrentFileEntry { path: "ubuntu/file.iso".to_owned(), size_bytes: 1024 }],
        peer_count: 14,
    };
    let request = DownloadRequest::new(
        "ubuntu.torrent".to_owned(),
        "magnet:?xt=urn:btih:123".to_owned(),
        DownloadKind::Torrent,
    );

    assert!(state.matches_torrent_job(&request));
}

#[test]
fn rqbit_state_rejects_changed_source() {
    let state = RqbitPersistedState {
        queue_job_id: 7,
        magnet_uri: "magnet:?xt=urn:btih:123".to_owned(),
        torrent_name: None,
        info_hash: None,
        output_folder: None,
        file_count: None,
        files: Vec::new(),
        peer_count: 0,
    };
    let request = DownloadRequest::new(
        "ubuntu.torrent".to_owned(),
        "magnet:?xt=urn:btih:456".to_owned(),
        DownloadKind::Torrent,
    );

    assert!(!state.matches_torrent_job(&request));
}

#[test]
fn rqbit_state_rejects_direct_job() {
    let state = RqbitPersistedState {
        queue_job_id: 1,
        magnet_uri: "magnet:?xt=urn:btih:1".to_owned(),
        torrent_name: None,
        info_hash: None,
        output_folder: None,
        file_count: None,
        files: Vec::new(),
        peer_count: 0,
    };
    let request = DownloadRequest::new("x".to_owned(), "magnet:?xt=urn:btih:1".to_owned(), DownloadKind::Direct);
    assert!(!state.matches_torrent_job(&request));
}

#[test]
fn request_context_can_be_attached_and_cleared() {
    let request = DownloadRequest::new("a.zip".to_owned(), "https://x/a.zip".to_owned(), DownloadKind::Direct)
        .with_browser_context(Some("https://ref".to_owned()), Some("UA".to_owned()), Some("c=1".to_owned()));
    assert_eq!(request.referrer.as_deref(), Some("https://ref"));
    assert_eq!(request.user_agent.as_deref(), Some("UA"));
    assert_eq!(request.cookie_header.as_deref(), Some("c=1"));
    let mut cleared = request.clone();
    cleared.clear_browser_context();
    assert_eq!(cleared, DownloadRequest::new("a.zip".to_owned(), "https://x/a.zip".to_owned(), DownloadKind::Direct));
}

#[test]
fn only_torrent_sources_are_redacted() {
    let mut torrent = DownloadRequest::new("t".to_owned(), "magnet:?xt=urn:btih:1".to_owned(), DownloadKind::Torrent);
    torrent.redact_source_for_history();
    assert_eq!(torrent.source, "[magnet redacted]");
    let again = torrent.clone();
    torrent.redact_source_for_history();
    assert_eq!(torrent, again);
    let mut direct = DownloadRequest::new("d".to_owned(), "https://x/d".to_owned(), DownloadKind::Direct);
    direct.redact_source_for_history();
    assert_eq!(direct.source, "https://x/d");
}

#[test]
fn capture_payload_becomes_a_request() {
    let payload = BrowserCapturePayload {
        file_name: "ubuntu.iso".to_owned(),
        source: "https://example.com/ubuntu.iso".to_owned(),
        kind: DownloadKind::Direct,
        referrer: None,
        user_agent: Some("UA".to_owned()),
        cookie_header: None,
    };
    let request = payload.into_request();
    assert_eq!(request.file_name, "ubuntu.iso");
    assert_eq!(request.source, "https://example.com/ubuntu.iso");
    assert_eq!(request.user_agent.as_deref(), Some("UA"));
    assert_eq!(request.referrer, None);
}

#[test]
fn privacy_mode_is_on_by_default_and_drives_every_policy() {
    let privacy = PrivacySettings::default();
    assert!(privacy.privacy_mode);
    assert!(privacy.auto_stop_on_completion());
    assert!(privacy.no_seeding());
    assert!(privacy.disable_peer_discovery_extras());
    assert!(privacy.minimize_browser_metadata_retention());
    assert!(privacy.minimize_logging());
    assert!(privacy.minimize_torrent_metadata_retention());
    let open = PrivacySettings { privacy_mode: false };
    assert!(!open.auto_stop_on_completion());
    assert!(!open.no_seeding());
    assert!(!open.minimize_torrent_metadata_retention());
}

#[test]
fn desktop_state_defaults() {
    let state = DesktopPersistedState::default();
    assert_eq!(state.expanded_details_job_id, None);
    assert!(state.privacy.privacy_mode);
    assert!(state.rqbit.is_none());
}

#[test]
fn labels_and_names() {
    assert_eq!(DownloadKind::Direct.as_str(), "Direct");
    assert_eq!(DownloadKind::Torrent.as_str(), "Torrent");
    assert_eq!(DownloadStatus::Seeding.as_str(), "Seeding");
    assert_eq!(DownloadStatus::Failed.as_str(), "Failed");
    let labels: Vec<&str> = QueueView::ALL.iter().map(|v| v.label()).collect();
    assert_eq!(labels, vec!["Active", "Queued", "Completed", "Torrents", "Browser Capture"]);
}
