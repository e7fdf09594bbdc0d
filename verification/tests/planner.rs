use nebula_dm::categories::default_download_categories;
use nebula_dm::model::{DownloadCategory, DownloadKind, DownloadRequest};
use nebula_dm::planner::plan_download;

#[test]
fn routes_programs_to_program_folder() {
    let categories = default_download_categories();
    let request = DownloadRequest::new(
        "installer.exe".to_owned(),
        "https://example.com/installer.exe".to_owned(),
        DownloadKind::Direct,
    );

    let plan = plan_download(&request, "Downloads", &categories);

    assert_eq!(plan.category_name, "Programs");
    assert_eq!(plan.target_folder, "Downloads/Programs");
}

#[test]
fn routes_torrents_to_torrent_folder() {
    let categories = default_download_categories();
    let request = DownloadRequest::new(
        "ubuntu.torrent".to_owned(),
        "magnet:?xt=urn:btih:123".to_owned(),
        DownloadKind::Torrent,
    );

    let plan = plan_download(&request, "Downloads", &categories);

    assert_eq!(plan.category_name, "Torrents");
    assert_eq!(plan.target_folder, "Downloads/Torrents");
}

#[test]
fn default_categories_are_listed_in_order() {
    let categories = default_download_categories();
    let names: Vec<&str> = categories.iter().map(|c| c.name.as_str()).collect();
    assert_eq!(names, vec!["Videos", "Music", "Documents", "Programs", "Torrents", "Other"]);
    assert_eq!(categories[0].folder_name, "Videos");
    assert_eq!(categories[3].extensions, vec!["exe", "msi", "zip", "rar", "7z"]);
    assert!(categories[5].extensions.is_empty());
}

#[test]
fn extension_match_ignores_case() {
    let categories = default_download_categories();
    let request = DownloadRequest::new("Song.MP3".to_owned(), "https://x/Song.MP3".to_owned(), DownloadKind::Direct);
    let plan = plan_download(&request, "Root", &categories);
    assert_eq!(plan.category_name, "Music");
    assert_eq!(plan.target_folder, "Root/Music");
}

#[test]
fn unknown_extension_goes_to_other() {
    let categories = default_download_categories();
    let request = DownloadRequest::new("data.xyz".to_owned(), "https://x/data.xyz".to_owned(), DownloadKind::Direct);
    let plan = plan_download(&request, "Root", &categories);
    assert_eq!(plan.category_name, "Other");
    assert_eq!(plan.target_folder, "Root/Other");
}

#[test]
fn torrent_kind_wins_over_extension() {
    let categories = default_download_categories();
    let request = DownloadRequest::new("movie.mp4".to_owned(), "magnet:?xt=urn:btih:1".to_owned(), DownloadKind::Torrent);
    let plan = plan_download(&request, "Root", &categories);
    assert_eq!(plan.category_name, "Torrents");
}

#[test]
fn empty_category_list_falls_back_to_other() {
    let categories: Vec<DownloadCategory> = Vec::new();
    let request = DownloadRequest::new("a.mp4".to_owned(), "https://x/a.mp4".to_owned(), DownloadKind::Direct);
    let plan = plan_download(&request, "Root", &categories);
    assert_eq!(plan.category_name, "Other");
    assert_eq!(plan.target_folder, "Root/Other");
}
