use nebula_dm::categories::default_download_categories;
use nebula_dm::model::{DownloadKind, DownloadRequest};
use nebula_dm::torrent::{
    build_torrent_task_plan, create_torrent_session_snapshot, default_trackers, extract_info_hash,
    sanitize_torrent_name, simulate_torrent_progress,
};

#[test]
fn torrent_plan_routes_to_torrent_folder() {
    let categories = default_download_categories();
    let request = DownloadRequest::new(
        "debian-netinst.torrent".to_owned(),
        "magnet:?xt=urn:btih:abcdef123456".to_owned(),
        DownloadKind::Torrent,
    );

    let plan = build_torrent_task_plan(&request, "Downloads", &categories);

    assert_eq!(plan.target.category_name, "Torrents");
    assert!(plan.session_file_path.contains("torrent-session"));
}

#[test]
fn torrent_progress_moves_session_forward() {
    let categories = default_download_categories();
    let request = DownloadRequest::new(
        "ubuntu.torrent".to_owned(),
        "magnet:?xt=urn:btih:123456".to_owned(),
        DownloadKind::Torrent,
    );

    let plan = build_torrent_task_plan(&request, "Downloads", &categories);
    let mut session = create_torrent_session_snapshot(&plan);
    let progress = simulate_torrent_progress(&mut session, 64, 18);

    assert!(progress.progress_basis_points as f32 / 100.0 > 0.0);
    assert_eq!(session.connected_peers, 18);
    assert_eq!(session.completed_pieces, 64);
}

#[test]
fn torrent_plan_names_its_folders() {
    let categories = default_download_categories();
    let request = DownloadRequest::new(
        "my:file.torrent.torrent".to_owned(),
        "magnet:?xt=urn:btih:ff".to_owned(),
        DownloadKind::Torrent,
    );
    let plan = build_torrent_task_plan(&request, "D", &categories);
    assert_eq!(plan.suggested_name, "my_file");
    assert_eq!(plan.data_root, "D/Torrents/my_file");
    assert_eq!(plan.session_file_path, "D/Torrents/my_file.torrent-session.json");
    assert_eq!(plan.magnet_uri, "magnet:?xt=urn:btih:ff");
}

#[test]
fn new_session_has_two_parts_and_the_trackers() {
    let categories = default_download_categories();
    let request = DownloadRequest::new(
        "ubuntu.torrent".to_owned(),
        "magnet:?xt=urn:btih:abc&dn=x".to_owned(),
        DownloadKind::Torrent,
    );
    let plan = build_torrent_task_plan(&request, "D", &categories);
    let session = create_torrent_session_snapshot(&plan);
    assert_eq!(session.info_hash, "abc");
    assert_eq!(session.piece_count, 768);
    assert_eq!(session.files.len(), 2);
    assert_eq!(session.files[0].path, "ubuntu/part-1.bin");
    assert_eq!(session.files[0].size_bytes, 512 * 1024 * 1024);
    assert_eq!(session.files[1].size_bytes, 256 * 1024 * 1024);
    assert_eq!(session.trackers, default_trackers());
    assert_eq!(default_trackers().len(), 3);
}

#[test]
fn info_hash_is_the_btih_value() {
    assert_eq!(extract_info_hash("magnet:?xt=urn:btih:ABCDEF&dn=name"), "ABCDEF");
    assert_eq!(extract_info_hash("magnet:?dn=name"), "pending-info-hash");
}

#[test]
fn torrent_name_drops_suffixes_and_reserved_characters() {
    assert_eq!(sanitize_torrent_name("a/b.torrent"), "a_b");
    assert_eq!(sanitize_torrent_name("plain"), "plain");
}

#[test]
fn simulated_progress_stops_at_the_piece_count() {
    let categories = default_download_categories();
    let request = DownloadRequest::new("u.torrent".to_owned(), "magnet:?xt=urn:btih:1".to_owned(), DownloadKind::Torrent);
    let plan = build_torrent_task_plan(&request, "D", &categories);
    let mut session = create_torrent_session_snapshot(&plan);
    let first = simulate_torrent_progress(&mut session, 384, 10);
    assert_eq!(first.progress_basis_points, 5000);
    assert_eq!(first.eta_text, "384 pieces left");
    assert_eq!(first.download_rate_bytes_per_sec, 10 * 4194304 / 5);
    assert_eq!(session.downloaded_bytes, 384 * 1024 * 1024);
    assert_eq!(session.uploaded_bytes, 10 * 256 * 1024);
    let last = simulate_torrent_progress(&mut session, 1000, 10);
    assert_eq!(session.completed_pieces, 768);
    assert_eq!(last.progress_basis_points, 10000);
    assert_eq!(last.eta_text, "Seeding");
}
