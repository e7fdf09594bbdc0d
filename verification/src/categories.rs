//! The built-in routing table: which extensions go to which folder.
use vstd::prelude::*;
use crate::model::DownloadCategory;

verus! {

/// A category as mathematical values.
pub struct CategoryView {
    pub name: Seq<char>,
    pub folder_name: Seq<char>,
    pub extensions: Seq<Seq<char>>,
}

pub open spec fn category_view(c: DownloadCategory) -> CategoryView {
    CategoryView {
        name: c.name@,
        folder_name: c.folder_name@,
        extensions: c.extensions@.map_values(|e: String| e@),
    }
}

pub open spec fn categories_view(cs: Seq<DownloadCategory>) -> Seq<CategoryView> {
    cs.map_values(|c: DownloadCategory| category_view(c))
}

pub open spec fn category_of(name: &str, exts: Seq<&str>) -> CategoryView {
    CategoryView { name: name@, folder_name: name@, extensions: exts.map_values(|e: &str| e@) }
}

/// The six built-in categories, in the order in which the planner tries them.
pub open spec fn default_categories_view() -> Seq<CategoryView> {
    seq![
        category_of("Videos", seq!["mp4", "mkv", "avi", "mov"]),
        category_of("Music", seq!["mp3", "wav", "flac", "aac"]),
        category_of("Documents", seq!["pdf", "docx", "xlsx", "pptx", "txt"]),
        category_of("Programs", seq!["exe", "msi", "zip", "rar", "7z"]),
        category_of("Torrents", seq!["torrent"]),
        category_of("Other", Seq::empty()),
    ]
}

fn owned_strings(items: &[&str]) -> (r: Vec<String>)
    ensures
        r@.map_values(|e: String| e@) == items@.map_values(|e: &str| e@),
{
    let mut r: Vec<String> = Vec::new();
    let mut i: usize = 0;
    while i < items.len()
        invariant
            i <= items.len(),
            r@.map_values(|e: String| e@) == items@.take(i as int).map_values(|e: &str| e@),
        decreases items.len() - i,
    {
        r.push(items[i].to_owned());
        assert(items@.take(i + 1).map_values(|e: &str| e@) =~= items@.take(i as int).map_values(
            |e: &str| e@,
        ).push(items@[i as int]@));
        assert(r@.map_values(|e: String| e@) =~= items@.take(i + 1).map_values(|e: &str| e@));
        i += 1;
    }
    assert(items@.take(items.len() as int) =~= items@);
    r
}

fn category(name: &str, exts: &[&str]) -> (r: DownloadCategory)
    ensures
        category_view(r) == category_of(name, exts@),
{
    DownloadCategory { name: name.to_owned(), folder_name: name.to_owned(), extensions: owned_strings(exts) }
}

pub fn default_download_categories() -> (r: Vec<DownloadCategory>)
    ensures
        categories_view(r@) == default_categories_view(),
{
    let videos = ["mp4", "mkv", "avi", "mov"];
    let music = ["mp3", "wav", "flac", "aac"];
    let documents = ["pdf", "docx", "xlsx", "pptx", "txt"];
    let programs = ["exe", "msi", "zip", "rar", "7z"];
    let torrents = ["torrent"];
    let other: [&str; 0] = [];
    assert(videos@ == seq!["mp4", "mkv", "avi", "mov"]);
    assert(music@ == seq!["mp3", "wav", "flac", "aac"]);
    assert(documents@ == seq!["pdf", "docx", "xlsx", "pptx", "txt"]);
    assert(programs@ == seq!["exe", "msi", "zip", "rar", "7z"]);
    assert(torrents@ == seq!["torrent"]);
    assert(other@ == Seq::<&str>::empty());
    let mut r: Vec<DownloadCategory> = Vec::new();
    r.push(category("Videos", &videos));
    r.push(category("Music", &music));
    r.push(category("Documents", &documents));
    r.push(category("Programs", &programs));
    r.push(category("Torrents", &torrents));
    r.push(category("Other", &other));
    assert(categories_view(r@) =~= default_categories_view());
    r
}

} // verus!
