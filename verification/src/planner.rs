//! Routing a request to a category folder.
use vstd::prelude::*;
use crate::categories::{CategoryView, category_view, categories_view, default_categories_view};
use crate::model::{
    request_new, DownloadCategory, DownloadKind, DownloadPlan, DownloadPlanView, DownloadRequest, DownloadRequestView,
};
use crate::text::{
    chars_eq, chars_of, concat3, find_last, last_index_of, lemma_last_index_of, lower_chars, lower_seq,
    string_from_range,
};

verus! {

/// The first position in `s` whose element satisfies `p`.
pub open spec fn first_where<T>(s: Seq<T>, p: spec_fn(T) -> bool) -> Option<int>
    decreases s.len(),
{
    if s.len() == 0 {
        None
    } else if p(s[0]) {
        Some(0)
    } else {
        match first_where(s.drop_first(), p) {
            Some(i) => Some(i + 1),
            None => None,
        }
    }
}

/// `first_where` is `k` when nothing before position `k` satisfies `p` and
/// position `k` does (or `k` is the length).
pub proof fn lemma_first_where<T>(s: Seq<T>, p: spec_fn(T) -> bool, k: int)
    requires
        0 <= k <= s.len(),
        forall|j: int| 0 <= j < k ==> !p(#[trigger] s[j]),
        k < s.len() ==> p(s[k]),
    ensures
        first_where(s, p) == (if k < s.len() {
            Some(k)
        } else {
            None::<int>
        }),
    decreases s.len(),
{
    if s.len() > 0 && k > 0 {
        assert(!p(s[0]));
        assert forall|j: int| 0 <= j < k - 1 implies !p(#[trigger] s.drop_first()[j]) by {
            assert(s.drop_first()[j] == s[j + 1]);
        }
        if k < s.len() {
            assert(s.drop_first()[k - 1] == s[k]);
        }
        lemma_first_where(s.drop_first(), p, k - 1);
    }
}

/// A file's extension as the planner compares it: what follows the last `.`
/// (the whole name where there is none), in ASCII lower case.
pub open spec fn extension_of(file_name: Seq<char>) -> Seq<char> {
    lower_seq(file_name.subrange(last_index_of(file_name, '.') + 1, file_name.len() as int))
}

pub open spec fn is_named(name: Seq<char>) -> spec_fn(CategoryView) -> bool {
    |c: CategoryView| c.name == name
}

/// A category serves an extension when it lists some extensions and one of them
/// equals it up to ASCII case.
pub open spec fn serves(ext: Seq<char>) -> spec_fn(CategoryView) -> bool {
    |c: CategoryView|
        c.extensions.len() > 0 && exists|j: int|
            0 <= j < c.extensions.len() && lower_seq(#[trigger] c.extensions[j]) == ext
}

/// The category the planner routes a request to: for a torrent, `Torrents`, or
/// `Other` where there is none; for a direct download, the first category that
/// serves its extension, or `Other`. `None` where no category fits.
pub open spec fn chosen_category(r: DownloadRequestView, cats: Seq<CategoryView>) -> Option<int> {
    let primary = match r.kind {
        DownloadKind::Torrent => match first_where(cats, is_named("Torrents"@)) {
            Some(i) => Some(i),
            None => first_where(cats, is_named("Other"@)),
        },
        DownloadKind::Direct => first_where(cats, serves(extension_of(r.file_name))),
    };
    match primary {
        Some(i) => Some(i),
        None => first_where(cats, is_named("Other"@)),
    }
}

/// The plan for a request: the chosen category's name, and its folder under the
/// downloads root; `Other` under the root where no category fits.
pub open spec fn plan_view(r: DownloadRequestView, root: Seq<char>, cats: Seq<CategoryView>) -> DownloadPlanView {
    match chosen_category(r, cats) {
        Some(i) => DownloadPlanView {
            category_name: cats[i].name,
            target_folder: root + "/"@ + cats[i].folder_name,
        },
        None => DownloadPlanView { category_name: "Other"@, target_folder: root + "/"@ + "Other"@ },
    }
}

/// Every plan puts the download in a folder directly under the downloads root.
pub proof fn lemma_plan_under_root(r: DownloadRequestView, root: Seq<char>, cats: Seq<CategoryView>)
    ensures
        exists|folder: Seq<char>| plan_view(r, root, cats).target_folder == root + "/"@ + folder,
{
    let folder = match chosen_category(r, cats) {
        Some(i) => cats[i].folder_name,
        None => "Other"@,
    };
    assert(plan_view(r, root, cats).target_folder == root + "/"@ + folder);
}

/// With the built-in categories, every torrent goes to the `Torrents` folder.
pub proof fn lemma_torrents_go_to_torrents(r: DownloadRequestView, root: Seq<char>)
    requires
        r.kind == DownloadKind::Torrent,
    ensures
        plan_view(r, root, default_categories_view()).category_name == "Torrents"@,
        plan_view(r, root, default_categories_view()).target_folder == root + "/"@ + "Torrents"@,
{
    let cats = default_categories_view();
    reveal_strlit("Videos");
    reveal_strlit("Music");
    reveal_strlit("Documents");
    reveal_strlit("Programs");
    reveal_strlit("Torrents");
    assert("Torrents"@[0] == 'T');
    assert(cats[0].name[0] == 'V' && cats[0].name != "Torrents"@);
    assert(cats[1].name[0] == 'M' && cats[1].name != "Torrents"@);
    assert(cats[2].name[0] == 'D' && cats[2].name != "Torrents"@);
    assert(cats[3].name[0] == 'P' && cats[3].name != "Torrents"@);
    assert(cats[4].name == "Torrents"@);
    assert forall|j: int| 0 <= j < 4 implies !(is_named("Torrents"@))(#[trigger] cats[j]) by {
        assert(0 <= j < 4);
    }
    lemma_first_where(cats, is_named("Torrents"@), 4);
}

/// The extension the planner matches is what follows the LAST dot of the name,
/// in lower case: whatever the name holds before, dots included.
pub proof fn lemma_extension_after_last_dot(stem: Seq<char>, ext: Seq<char>)
    requires
        forall|i: int| 0 <= i < ext.len() ==> ext[i] != '.',
    ensures
        extension_of(stem + seq!['.'] + ext) == lower_seq(ext),
{
    let name = stem + seq!['.'] + ext;
    assert(name[stem.len() as int] == '.');
    assert forall|j: int| stem.len() < j < name.len() implies name[j] != '.' by {
        assert(name[j] == ext[j - stem.len() - 1]);
    }
    lemma_last_index_of(name, '.', stem.len() as int);
    assert(name.subrange(stem.len() as int + 1, name.len() as int) =~= ext);
}

/// With the built-in categories, a direct download whose name ends in `.mp4`
/// goes to `Videos`, whatever the name holds before (other dots included).
pub proof fn lemma_mp4_goes_to_videos(stem: Seq<char>, source: Seq<char>, root: Seq<char>)
    ensures
        plan_view(request_new(stem + ".mp4"@, source, DownloadKind::Direct), root, default_categories_view())
            == (DownloadPlanView { category_name: "Videos"@, target_folder: root + "/"@ + "Videos"@ }),
{
    reveal_strlit(".mp4");
    reveal_strlit("mp4");
    let ext = "mp4"@;
    assert(".mp4"@ =~= seq!['.'] + ext);
    assert(stem + ".mp4"@ =~= stem + seq!['.'] + ext);
    lemma_extension_after_last_dot(stem, ext);
    assert(lower_seq(ext) =~= ext);
    let cats = default_categories_view();
    assert(cats[0].extensions[0] == ext);
    assert(lower_seq(cats[0].extensions[0]) == ext);
    assert((serves(ext))(cats[0]));
    lemma_first_where(cats, serves(ext), 0);
}

fn find_named(categories: &[DownloadCategory], name: &str) -> (r: Option<usize>)
    ensures
        match r {
            Some(i) => i < categories.len() && first_where(categories_view(categories@), is_named(name@)) == Some(i as int),
            None => first_where(categories_view(categories@), is_named(name@)) is None,
        },
{
    let ghost cv = categories_view(categories@);
    let wanted = name.to_owned();
    let mut i: usize = 0;
    while i < categories.len()
        invariant
            i <= categories.len(),
            cv == categories_view(categories@),
            wanted@ == name@,
            forall|j: int| 0 <= j < i ==> !is_named(name@)(#[trigger] cv[j]),
        decreases categories.len() - i,
    {
        if categories[i].name == wanted {
            proof {
                lemma_first_where(cv, is_named(name@), i as int);
            }
            return Some(i);
        }
        assert(cv[i as int] == category_view(categories@[i as int]));
        i += 1;
    }
    proof {
        lemma_first_where(cv, is_named(name@), i as int);
    }
    None
}

fn serves_extension(category: &DownloadCategory, ext: &Vec<char>) -> (r: bool)
    ensures
        r == serves(ext@)(category_view(*category)),
{
    let ghost cv = category_view(*category);
    if category.extensions.len() == 0 {
        return false;
    }
    let mut j: usize = 0;
    while j < category.extensions.len()
        invariant
            j <= category.extensions.len(),
            cv == category_view(*category),
            forall|t: int| 0 <= t < j ==> lower_seq(#[trigger] cv.extensions[t]) != ext@,
        decreases category.extensions.len() - j,
    {
        let known = lower_chars(&chars_of(category.extensions[j].as_str()));
        assert(cv.extensions[j as int] == category.extensions@[j as int]@);
        if chars_eq(&known, ext) {
            return true;
        }
        j += 1;
    }
    false
}

fn find_serving(categories: &[DownloadCategory], ext: &Vec<char>) -> (r: Option<usize>)
    ensures
        match r {
            Some(i) => i < categories.len() && first_where(categories_view(categories@), serves(ext@)) == Some(i as int),
            None => first_where(categories_view(categories@), serves(ext@)) is None,
        },
{
    let ghost cv = categories_view(categories@);
    let mut i: usize = 0;
    while i < categories.len()
        invariant
            i <= categories.len(),
            cv == categories_view(categories@),
            forall|j: int| 0 <= j < i ==> !serves(ext@)(#[trigger] cv[j]),
        decreases categories.len() - i,
    {
        assert(cv[i as int] == category_view(categories@[i as int]));
        if serves_extension(&categories[i], ext) {
            proof {
                lemma_first_where(cv, serves(ext@), i as int);
            }
            return Some(i);
        }
        i += 1;
    }
    proof {
        lemma_first_where(cv, serves(ext@), i as int);
    }
    None
}

/// The extension of a file name, as `extension_of` describes it.
fn file_extension(file_name: &str) -> (r: Vec<char>)
    ensures
        r@ == extension_of(file_name@),
{
    let chars = chars_of(file_name);
    let from = match find_last(&chars, '.') {
        Some(k) => k + 1,
        None => 0,
    };
    let tail = string_from_range(&chars, from, chars.len());
    lower_chars(&chars_of(tail.as_str()))
}

pub fn plan_download(
    request: &DownloadRequest,
    downloads_root: &str,
    categories: &[DownloadCategory],
) -> (r: DownloadPlan)
    ensures
        r@ == plan_view(request@, downloads_root@, categories_view(categories@)),
{
    let ghost cv = categories_view(categories@);
    let primary = match request.kind {
        DownloadKind::Torrent => match find_named(categories, "Torrents") {
            Some(i) => Some(i),
            None => find_named(categories, "Other"),
        },
        DownloadKind::Direct => {
            let ext = file_extension(request.file_name.as_str());
            find_serving(categories, &ext)
        },
    };
    let chosen = match primary {
        Some(i) => Some(i),
        None => find_named(categories, "Other"),
    };
    match chosen {
        Some(i) => {
            assert(cv[i as int] == category_view(categories@[i as int]));
            DownloadPlan {
                category_name: categories[i].name.clone(),
                target_folder: concat3(downloads_root, "/", categories[i].folder_name.as_str()),
            }
        },
        None => DownloadPlan {
            category_name: "Other".to_owned(),
            target_folder: concat3(downloads_root, "/", "Other"),
        },
    }
}

} // verus!
