//! The desktop's quick-add panel: a typed job, a pasted batch of links, and a
//! link noticed on the clipboard.
use vstd::prelude::*;
use crate::launch::{
    display_name_view, download_kind_of, infer_display_name_from_source, infer_download_kind,
    launch_request_view, looks_like_download_source, looks_like_source_view, parse_launch_request, split_chars,
    split_on, trimmed_chars,
};
use crate::model::{request_new, DownloadKind, DownloadStatus};
use crate::queue::{QueueManager, RecordView};
use crate::text::{chars_of, decimal, decimal_string, push_str, string_from_chars, trim};

verus! {

/// The hint shown under the quick-add panel for the selected kind.
pub fn quick_add_hint(kind: DownloadKind) -> (r: &'static str)
    ensures
        r@ == (if kind == DownloadKind::Direct {
            "Direct mode: use standard HTTP/HTTPS file links. Magnet links switch to Torrent automatically."@
        } else {
            "Torrent mode: use a magnet link or a .torrent URL. The desktop app will save it under Downloads/NebulaDM/Torrents."@
        }),
{
    match kind {
        DownloadKind::Direct => {
            "Direct mode: use standard HTTP/HTTPS file links. Magnet links switch to Torrent automatically."
        },
        DownloadKind::Torrent => {
            "Torrent mode: use a magnet link or a .torrent URL. The desktop app will save it under Downloads/NebulaDM/Torrents."
        },
    }
}

/// A new job as the queue first holds it: waiting, with nothing transferred.
pub open spec fn waiting_record(id: u64, file_name: Seq<char>, source: Seq<char>, kind: DownloadKind) -> RecordView {
    RecordView {
        id,
        request: request_new(file_name, source, kind),
        status: DownloadStatus::Queued,
        progress: 0,
        downloaded: 0,
        total: 0,
        speed: 0,
        eta: "Waiting"@,
        added_from_browser: false,
    }
}

/// A job typed into the panel and queued.
#[derive(Debug, Clone, PartialEq, Eq)]
pub struct QuickAdded {
    pub id: u64,
    /// The kind read off the source, which the panel switches to.
    pub kind: DownloadKind,
    pub status_message: String,
}

/// Queues the job typed into the panel: both fields are trimmed and must be
/// non-empty, and the kind is read off the source.
pub fn add_manual_download(manager: &mut QueueManager, file_name: &str, source: &str) -> (r: Result<QuickAdded, String>)
    requires
        old(manager).wf(),
        old(manager).next_id_value() < u64::MAX,
    ensures
        final(manager).wf(),
        r is Err <==> (trim(file_name@).len() == 0 || trim(source@).len() == 0),
        r matches Err(e) ==> e@ == "Enter both a file name and a source URL or magnet link"@ && *final(manager)
            == *old(manager),
        r matches Ok(added) ==> {
            &&& added.id == old(manager).next_id_value()
            &&& added.kind == download_kind_of(trim(source@))
            &&& added.status_message@ == "Added job #"@ + decimal(added.id as nat) + " to the queue"@
            &&& final(manager).next_id_value() == added.id + 1
            &&& final(manager).records() == seq![
                waiting_record(added.id, trim(file_name@), trim(source@), added.kind),
            ] + old(manager).records()
            &&& final(manager).state().downloads_root == old(manager).state().downloads_root
            &&& final(manager).state().categories == old(manager).state().categories
        },
{
    let name_chars = trimmed_chars(file_name);
    let source_chars = trimmed_chars(source);
    if name_chars.len() == 0 || source_chars.len() == 0 {
        return Err("Enter both a file name and a source URL or magnet link".to_owned());
    }
    let name = string_from_chars(&name_chars);
    let trimmed_source = string_from_chars(&source_chars);
    let kind = infer_download_kind(trimmed_source.as_str());
    let id = manager.add_download(name, trimmed_source, kind, false);
    let mut message = "Added job #".to_owned();
    let number = decimal_string(id);
    push_str(&mut message, number.as_str());
    push_str(&mut message, " to the queue");
    Ok(QuickAdded { id, kind, status_message: message })
}

// ---------------------------------------------------------------- launch arguments

/// Queues the magnet link the app was launched with, as a torrent job that did
/// not come from the browser; gives its id and the status line, or nothing
/// (and no change) where the argument is no magnet link.
pub fn open_launch_argument(manager: &mut QueueManager, argument: String) -> (r: Option<(u64, String)>)
    requires
        old(manager).wf(),
        old(manager).next_id_value() < u64::MAX,
    ensures
        final(manager).wf(),
        r is None <==> launch_request_view(argument@) is None,
        r is None ==> *final(manager) == *old(manager),
        r matches Some(opened) ==> {
            let request = launch_request_view(argument@)->0;
            &&& opened.0 == old(manager).next_id_value()
            &&& opened.1@ == "Opened magnet link as job #"@ + decimal(opened.0 as nat)
            &&& final(manager).next_id_value() == opened.0 + 1
            &&& final(manager).records() == seq![
                RecordView {
                    id: opened.0,
                    request,
                    status: DownloadStatus::Queued,
                    progress: 0,
                    downloaded: 0,
                    total: 0,
                    speed: 0,
                    eta: "Waiting"@,
                    added_from_browser: false,
                },
            ] + old(manager).records()
            &&& final(manager).state().downloads_root == old(manager).state().downloads_root
            &&& final(manager).state().categories == old(manager).state().categories
        },
{
    match parse_launch_request(argument) {
        None => None,
        Some(request) => {
            let id = manager.add_download_request(request, false);
            let mut message = "Opened magnet link as job #".to_owned();
            let number = decimal_string(id);
            push_str(&mut message, number.as_str());
            Some((id, message))
        },
    }
}

// ---------------------------------------------------------------- batch import

/// The trimmed parts that are not blank, in order.
pub open spec fn nonblank_lines(parts: Seq<Seq<char>>) -> Seq<Seq<char>>
    decreases parts.len(),
{
    if parts.len() == 0 {
        Seq::empty()
    } else {
        let rest = nonblank_lines(parts.drop_last());
        if trim(parts.last()).len() > 0 {
            rest.push(trim(parts.last()))
        } else {
            rest
        }
    }
}

/// The sources of a pasted batch: its lines, trimmed, without the blank ones.
pub open spec fn batch_entries(text: Seq<char>) -> Seq<Seq<char>> {
    nonblank_lines(split_on(text, '\n'))
}

/// The job a batch source becomes: named and typed after its source.
pub open spec fn imported_record(source: Seq<char>, id: u64) -> RecordView {
    let kind = download_kind_of(source);
    waiting_record(id, display_name_view(source, kind), source, kind)
}

/// The jobs of a batch numbered from `first_id`, as the queue lists them: the
/// last added first.
pub open spec fn imported_records(entries: Seq<Seq<char>>, first_id: u64) -> Seq<RecordView>
    decreases entries.len(),
{
    if entries.len() == 0 {
        Seq::empty()
    } else {
        seq![imported_record(entries.last(), (first_id + entries.len() - 1) as u64)] + imported_records(
            entries.drop_last(),
            first_id,
        )
    }
}

fn batch_sources(text: &str) -> (r: Vec<String>)
    ensures
        r@.len() == batch_entries(text@).len(),
        forall|i: int| 0 <= i < r@.len() ==> (#[trigger] r@[i])@ == batch_entries(text@)[i],
{
    let chars = chars_of(text);
    let parts = split_chars(&chars, '\n');
    let ghost ps = split_on(text@, '\n');
    let mut entries: Vec<String> = Vec::new();
    let mut i: usize = 0;
    while i < parts.len()
        invariant
            chars@ == text@,
            ps == split_on(text@, '\n'),
            parts@.len() == ps.len(),
            forall|j: int| 0 <= j < parts@.len() ==> (#[trigger] parts@[j])@ == ps[j],
            i <= parts.len(),
            entries@.len() == nonblank_lines(ps.take(i as int)).len(),
            forall|j: int| 0 <= j < entries@.len() ==> (#[trigger] entries@[j])@ == nonblank_lines(
                ps.take(i as int),
            )[j],
        decreases parts.len() - i,
    {
        assert(ps.take(i + 1).drop_last() =~= ps.take(i as int));
        assert(ps.take(i + 1).last() == ps[i as int]);
        let part = string_from_chars(&parts[i]);
        let trimmed = trimmed_chars(part.as_str());
        if trimmed.len() > 0 {
            entries.push(string_from_chars(&trimmed));
        }
        i += 1;
    }
    assert(ps.take(parts.len() as int) =~= ps);
    entries
}

/// Queues every source of a pasted batch, each named and typed after itself;
/// a batch with no source is refused.
pub fn import_batch_downloads(manager: &mut QueueManager, text: &str) -> (r: Result<String, String>)
    requires
        old(manager).wf(),
        old(manager).next_id_value() + batch_entries(text@).len() <= u64::MAX,
    ensures
        final(manager).wf(),
        r is Err <==> batch_entries(text@).len() == 0,
        r matches Err(e) ==> e@ == "Paste one or more URLs or magnet links to import"@ && *final(manager)
            == *old(manager),
        r matches Ok(message) ==> {
            &&& message@ == "Imported "@ + decimal(batch_entries(text@).len()) + " downloads into the queue"@
            &&& final(manager).next_id_value() == old(manager).next_id_value() + batch_entries(text@).len()
            &&& final(manager).records() == imported_records(
                batch_entries(text@),
                old(manager).next_id_value(),
            ) + old(manager).records()
            &&& final(manager).state().downloads_root == old(manager).state().downloads_root
            &&& final(manager).state().categories == old(manager).state().categories
        },
{
    let sources = batch_sources(text);
    let ghost entries = batch_entries(text@);
    if sources.len() == 0 {
        return Err("Paste one or more URLs or magnet links to import".to_owned());
    }
    let ghost first_id = manager.next_id_value();
    let mut added: usize = 0;
    while added < sources.len()
        invariant
            sources@.len() == entries.len(),
            forall|j: int| 0 <= j < sources@.len() ==> (#[trigger] sources@[j])@ == entries[j],
            first_id == old(manager).next_id_value(),
            first_id + entries.len() <= u64::MAX,
            added <= sources.len(),
            manager.wf(),
            manager.next_id_value() == first_id + added,
            manager.records() == imported_records(entries.take(added as int), first_id) + old(
                manager,
            ).records(),
            manager.state().downloads_root == old(manager).state().downloads_root,
            manager.state().categories == old(manager).state().categories,
        decreases sources.len() - added,
    {
        let source = sources[added].clone();
        let kind = infer_download_kind(source.as_str());
        let file_name = infer_display_name_from_source(source.as_str(), kind);
        let ghost before = manager.records();
        manager.add_download(file_name, source, kind, false);
        assert(entries.take(added + 1).drop_last() =~= entries.take(added as int));
        assert(entries.take(added + 1).last() == entries[added as int]);
        assert(manager.records() =~= imported_records(entries.take(added + 1), first_id) + old(
            manager,
        ).records());
        added += 1;
    }
    assert(entries.take(sources.len() as int) =~= entries);
    let mut message = "Imported ".to_owned();
    let count = decimal_string(added as u64);
    push_str(&mut message, count.as_str());
    push_str(&mut message, " downloads into the queue");
    Ok(message)
}

// ---------------------------------------------------------------- the clipboard

/// What the panel does with the text found on the clipboard.
#[derive(Debug, Clone, PartialEq, Eq)]
pub enum ClipboardPick {
    /// Blank, or the text seen last time: nothing changes.
    Unchanged,
    /// New text that is no download link: it is remembered, nothing more.
    Remember(String),
    /// A new download link: remembered, and the panel filled with it.
    Fill { text: String, kind: DownloadKind, file_name: String },
}

/// Decides what the clipboard text `raw` leads to, given the text seen last time.
pub fn clipboard_pick(raw: &str, last_seen: Option<&str>) -> (r: ClipboardPick)
    ensures
        ({
            let t = trim(raw@);
            if t.len() == 0 || (last_seen matches Some(l) && l@ == t) {
                r is Unchanged
            } else if !looks_like_source_view(t) {
                r matches ClipboardPick::Remember(s) && s@ == t
            } else {
                r matches ClipboardPick::Fill { text, kind, file_name } && text@ == t && kind
                    == download_kind_of(t) && file_name@ == display_name_view(t, kind)
            }
        }),
{
    let chars = trimmed_chars(raw);
    let text = string_from_chars(&chars);
    if chars.len() == 0 {
        return ClipboardPick::Unchanged;
    }
    match last_seen {
        Some(l) => {
            let seen = chars_of(l);
            if crate::text::chars_eq(&seen, &chars) {
                return ClipboardPick::Unchanged;
            }
        },
        None => {},
    }
    if !looks_like_download_source(text.as_str()) {
        return ClipboardPick::Remember(text);
    }
    let kind = infer_download_kind(text.as_str());
    let file_name = infer_display_name_from_source(text.as_str(), kind);
    ClipboardPick::Fill { text, kind, file_name }
}

} // verus!
