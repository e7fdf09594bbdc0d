use nebula_dm::model::{DownloadKind, DownloadStatus};
use nebula_dm::queue::{sample_snapshot, QueueManager};
use nebula_dm::quick_add::{
    add_manual_download, clipboard_pick, import_batch_downloads, open_launch_argument, quick_add_hint, ClipboardPick,
};

#[test]
fn manual_add_trims_and_detects_the_kind() {
    let mut manager = QueueManager::new(sample_snapshot("Downloads"));
    let added = add_manual_download(&mut manager, "  arch.torrent ", " magnet:?xt=urn:btih:a ").expect("job should be added");
    assert_eq!(added.id, 5);
    assert_eq!(added.kind, DownloadKind::Torrent);
    assert_eq!(added.status_message, "Added job #5 to the queue");
    let item = manager.get_record(5).unwrap();
    assert_eq!(item.request.file_name, "arch.torrent");
    assert_eq!(item.request.source, "magnet:?xt=urn:btih:a");
    assert_eq!(item.status, DownloadStatus::Queued);
    assert!(!item.added_from_browser);
}

#[test]
fn manual_add_needs_both_fields() {
    let mut manager = QueueManager::new(sample_snapshot("Downloads"));
    let before = manager.snapshot().clone();
    let refused = add_manual_download(&mut manager, "   ", "https://x/a.zip");
    assert_eq!(refused, Err("Enter both a file name and a source URL or magnet link".to_owned()));
    assert_eq!(manager.snapshot(), &before);
    assert!(add_manual_download(&mut manager, "a.zip", "").is_err());
}

#[test]
fn batch_import_queues_each_nonblank_line() {
    let mut manager = QueueManager::new(sample_snapshot("Downloads"));
    let text = "https://example.com/files/a.zip?x=1\r\n\n   \nmagnet:?xt=urn:btih:0123456789abcdef&dn=My+Show\n";
    let message = import_batch_downloads(&mut manager, text).expect("batch should import");
    assert_eq!(message, "Imported 2 downloads into the queue");
    let queue = &manager.snapshot().queue;
    assert_eq!(queue[0].id, 6);
    assert_eq!(queue[0].request.kind, DownloadKind::Torrent);
    assert_eq!(queue[0].request.file_name, "My Show");
    assert_eq!(queue[1].id, 5);
    assert_eq!(queue[1].request.kind, DownloadKind::Direct);
    assert_eq!(queue[1].request.file_name, "a.zip");
    assert_eq!(queue[1].request.source, "https://example.com/files/a.zip?x=1");
    assert_eq!(queue.len(), 6);
}

#[test]
fn empty_batch_is_refused() {
    let mut manager = QueueManager::new(sample_snapshot("Downloads"));
    assert_eq!(
        import_batch_downloads(&mut manager, " \n\t\n"),
        Err("Paste one or more URLs or magnet links to import".to_owned())
    );
    assert_eq!(manager.snapshot().queue.len(), 4);
}

#[test]
fn clipboard_links_fill_the_panel_once() {
    let pick = clipboard_pick("  https://example.com/video.mp4  ", None);
    assert_eq!(
        pick,
        ClipboardPick::Fill {
            text: "https://example.com/video.mp4".to_owned(),
            kind: DownloadKind::Direct,
            file_name: "video.mp4".to_owned(),
        }
    );
    assert_eq!(clipboard_pick("https://example.com/video.mp4\n", Some("https://example.com/video.mp4")), ClipboardPick::Unchanged);
    assert_eq!(clipboard_pick("   ", None), ClipboardPick::Unchanged);
    assert_eq!(clipboard_pick("hello world", None), ClipboardPick::Remember("hello world".to_owned()));
    match clipboard_pick("magnet:?xt=urn:btih:abcdefabcdefabcdef", None) {
        ClipboardPick::Fill { kind, file_name, .. } => {
            assert_eq!(kind, DownloadKind::Torrent);
            assert_eq!(file_name, "magnet-abcdefabcdef.torrent");
        },
        other => panic!("unexpected pick: {other:?}"),
    }
}

#[test]
fn hints_follow_the_kind() {
    assert!(quick_add_hint(DownloadKind::Direct).starts_with("Direct mode"));
    assert!(quick_add_hint(DownloadKind::Torrent).contains("Downloads/NebulaDM/Torrents"));
}

#[test]
fn launch_argument_opens_a_torrent_job() {
    let mut manager = QueueManager::new(sample_snapshot("Downloads"));
    let (id, message) = open_launch_argument(&mut manager, " magnet:?xt=urn:btih:abc&dn=Film ".to_owned()).expect("magnet should open");
    assert_eq!(id, 5);
    assert_eq!(message, "Opened magnet link as job #5");
    let item = manager.get_record(5).unwrap();
    assert_eq!(item.request.file_name, "Film");
    assert_eq!(item.request.kind, DownloadKind::Torrent);
    assert_eq!(item.status, DownloadStatus::Queued);
    let before = manager.snapshot().clone();
    assert_eq!(open_launch_argument(&mut manager, "https://x/a.zip".to_owned()), None);
    assert_eq!(manager.snapshot(), &before);
}
