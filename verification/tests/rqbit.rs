use nebula_dm::model::PrivacySettings;
use nebula_dm::rqbit::{
    command_outcome, progress_eta_text, progress_report, resolved_display_name, torrent_file_path, CommandNotice,
    RqbitTorrentCommand, RqbitTorrentEngine, RqbitTorrentEvent,
};
use std::path::PathBuf;

#[test]
fn privacy_mode_turns_off_peer_discovery() {
    let engine = RqbitTorrentEngine::new(PathBuf::from("D/Torrents"), PrivacySettings::default());
    let flags = engine.session_flags();
    assert!(flags.disable_dht);
    assert!(flags.disable_dht_persistence);
    assert!(!flags.enable_upnp_port_forwarding);
    assert_eq!(engine.download_root(), &PathBuf::from("D/Torrents"));
    let open = RqbitTorrentEngine::new(PathBuf::from("D"), PrivacySettings { privacy_mode: false });
    assert!(open.session_flags().enable_upnp_port_forwarding);
}

#[test]
fn commands_report_their_outcome() {
    assert_eq!(command_outcome(RqbitTorrentCommand::Pause, None, false), (CommandNotice::Paused, false, true));
    assert_eq!(command_outcome(RqbitTorrentCommand::Resume, None, true), (CommandNotice::Resumed, false, false));
    assert_eq!(command_outcome(RqbitTorrentCommand::Remove, None, true), (CommandNotice::Removed, true, true));
    assert_eq!(
        command_outcome(RqbitTorrentCommand::DeleteFiles, Some("locked"), false),
        (CommandNotice::Failed("delete failed: locked".to_owned()), true, false)
    );
}

#[test]
fn paused_torrents_show_paused() {
    assert_eq!(progress_eta_text(true, "3m".to_owned()), "Paused");
    assert_eq!(progress_eta_text(false, "3m".to_owned()), "3m");
}

#[test]
fn file_paths_join_components() {
    assert_eq!(torrent_file_path("name", &Vec::new()), "name");
    assert_eq!(torrent_file_path("name", &vec!["dir".to_owned(), "file.iso".to_owned()]), "dir/file.iso");
    assert_eq!(resolved_display_name(None), "Unnamed torrent");
    assert_eq!(resolved_display_name(Some("Ubuntu".to_owned())), "Ubuntu");
}

#[test]
fn polled_stats_become_a_progress_report() {
    assert_eq!(
        progress_report(250, 1000, 7, 3, 2, false, "1m".to_owned()),
        RqbitTorrentEvent::Progress {
            progress_basis_points: 2500,
            downloaded_bytes: 250,
            total_bytes: 1000,
            download_rate_bytes_per_sec: 7,
            upload_rate_bytes_per_sec: 3,
            peers: 2,
            eta_text: "1m".to_owned(),
        }
    );
    match progress_report(0, 0, 0, 0, 0, true, "1m".to_owned()) {
        RqbitTorrentEvent::Progress { progress_basis_points, eta_text, .. } => {
            assert_eq!(progress_basis_points, 0);
            assert_eq!(eta_text, "Paused");
        }
        other => panic!("unexpected event: {other:?}"),
    }
}
