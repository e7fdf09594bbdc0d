//! The desktop app's rules: what a browser capture keeps under the privacy
//! setting, which torrent job is saved and restored, the recent-downloads list,
//! and the names tried for a duplicate file.
use vstd::prelude::*;
use crate::model::{
    BrowserCapturePayload, DownloadKind, DownloadRequest, DownloadRequestView,
    PrivacySettings, RqbitPersistedState, TorrentFileEntry, opt_str, request_cleared,
    request_new, request_with_context,
};
use crate::categories::{categories_view, CategoryView};
use crate::direct::{build_direct_download_plan, final_path_view};
use crate::planner::plan_view;
use crate::queue::{AppSnapshot, DownloadRecord, RecordView, active_in, queue_view};
use crate::torrent::{build_torrent_task_plan, torrent_name_view};
use crate::text::{chars_of, decimal, decimal_string, find_first, first_occurrence, has_prefix, lower_chars, lower_seq, push_str, starts_with};

verus! {

// ---------------------------------------------------------------- browser captures

/// The request a browser capture becomes once accepted: under privacy mode its
/// referrer, user agent and cookies are dropped.
pub open spec fn accepted_capture_view(p: BrowserCapturePayload, privacy_mode: bool) -> DownloadRequestView {
    let r = request_with_context(
        request_new(p.file_name@, p.source@, p.kind),
        opt_str(p.referrer),
        opt_str(p.user_agent),
        opt_str(p.cookie_header),
    );
    if privacy_mode {
        request_cleared(r)
    } else {
        r
    }
}

pub fn accept_browser_capture(payload: BrowserCapturePayload, privacy: &PrivacySettings) -> (r: DownloadRequest)
    ensures
        r@ == accepted_capture_view(payload, privacy.privacy_mode),
{
    let mut request = payload.into_request();
    if privacy.minimize_browser_metadata_retention() {
        request.clear_browser_context();
    }
    request
}

/// A browser capture that arrives: with no capture awaiting confirmation, it
/// awaits confirmation, offered the folder the planner picks for it; otherwise
/// it is passed over. Gives that folder, if any, and the status line.
pub fn capture_arrival(confirmation_open: bool, payload: &BrowserCapturePayload, snapshot: &AppSnapshot) -> (r: (
    Option<String>,
    &'static str,
))
    ensures
        !confirmation_open ==> (r.0 matches Some(folder) && folder@ == plan_view(
            request_new(payload.file_name@, payload.source@, payload.kind),
            snapshot.downloads_root@,
            categories_view(snapshot.categories@),
        ).target_folder && r.1@ == "Browser download is waiting for confirmation"@),
        confirmation_open ==> r.0 is None && r.1@
            == "Another browser download arrived while a confirmation was already open"@,
{
    if confirmation_open {
        return (None, "Another browser download arrived while a confirmation was already open");
    }
    let request = DownloadRequest::new(payload.file_name.clone(), payload.source.clone(), payload.kind);
    let preview = crate::planner::plan_download(
        &request,
        snapshot.downloads_root.as_str(),
        snapshot.categories.as_slice(),
    );
    (Some(preview.target_folder), "Browser download is waiting for confirmation")
}

/// Under privacy mode an accepted capture keeps no browser context.
pub proof fn lemma_privacy_drops_browser_context(p: BrowserCapturePayload)
    ensures
        accepted_capture_view(p, true).referrer is None,
        accepted_capture_view(p, true).user_agent is None,
        accepted_capture_view(p, true).cookie_header is None,
        accepted_capture_view(p, true).source == p.source@,
        accepted_capture_view(p, true).file_name == p.file_name@,
{
}

// ---------------------------------------------------------------- transfers

/// Whether anything is transferring: a worker is running, or a record is downloading or paused.
pub fn has_active_transfers(direct_job_running: bool, torrent_job_running: bool, snapshot: &AppSnapshot) -> (r: bool)
    ensures
        r == (direct_job_running || torrent_job_running || active_in(queue_view(snapshot.queue@)) > 0),
{
    if direct_job_running || torrent_job_running {
        return true;
    }
    crate::queue::active_count(snapshot) > 0
}

// ---------------------------------------------------------------- the saved torrent job

fn clone_files(files: &Vec<TorrentFileEntry>) -> (r: Vec<TorrentFileEntry>)
    ensures
        r@.len() == files@.len(),
        forall|i: int| 0 <= i < r@.len() ==> (#[trigger] r@[i]).path@ == files@[i].path@ && r@[i].size_bytes == files@[i].size_bytes,
{
    let mut r: Vec<TorrentFileEntry> = Vec::new();
    let mut i: usize = 0;
    while i < files.len()
        invariant
            i <= files.len(),
            r@.len() == i,
            forall|j: int| 0 <= j < i ==> (#[trigger] r@[j]).path@ == files@[j].path@ && r@[j].size_bytes == files@[j].size_bytes,
        decreases files.len() - i,
    {
        r.push(TorrentFileEntry { path: files[i].path.clone(), size_bytes: files[i].size_bytes });
        i += 1;
    }
    r
}

/// Whether the active torrent job is saved: only outside privacy mode, and only
/// for a torrent record whose source is a magnet link.
pub open spec fn saves_torrent_job(privacy_mode: bool, job_id: Option<u64>, record: Option<DownloadRecord>) -> bool {
    &&& job_id is Some
    &&& !privacy_mode
    &&& record is Some
    &&& record->0.request.kind == DownloadKind::Torrent
    &&& starts_with(record->0.request.source@, "magnet:"@)
}

/// The torrent job to save with the desktop state, as `saves_torrent_job` decides.
pub fn persisted_rqbit_state(
    privacy: &PrivacySettings,
    job_id: Option<u64>,
    record: Option<&DownloadRecord>,
    torrent_name: &Option<String>,
    info_hash: &Option<String>,
    output_folder: &Option<String>,
    file_count: Option<usize>,
    files: &Vec<TorrentFileEntry>,
    peer_count: u32,
) -> (r: Option<RqbitPersistedState>)
    ensures
        r is Some == saves_torrent_job(
            privacy.privacy_mode,
            job_id,
            match record { Some(rec) => Some(*rec), None => None },
        ),
        r matches Some(s) ==> {
            &&& s.queue_job_id == job_id->0
            &&& s.magnet_uri@ == record->0.request.source@
            &&& opt_str(s.torrent_name) == opt_str(*torrent_name)
            &&& opt_str(s.info_hash) == opt_str(*info_hash)
            &&& opt_str(s.output_folder) == opt_str(*output_folder)
            &&& s.file_count == file_count
            &&& s.files@.len() == files@.len()
            &&& forall|i: int| 0 <= i < s.files@.len() ==> (#[trigger] s.files@[i]).path@ == files@[i].path@
                && s.files@[i].size_bytes == files@[i].size_bytes
            &&& s.peer_count == peer_count
        },
{
    let queue_job_id = match job_id {
        Some(id) => id,
        None => return None,
    };
    if privacy.minimize_torrent_metadata_retention() {
        return None;
    }
    let record = match record {
        Some(rec) => rec,
        None => return None,
    };
    if record.request.kind != DownloadKind::Torrent || !has_prefix(&chars_of(record.request.source.as_str()), &chars_of("magnet:")) {
        return None;
    }
    Some(RqbitPersistedState {
        queue_job_id,
        magnet_uri: record.request.source.clone(),
        torrent_name: clone_opt(torrent_name),
        info_hash: clone_opt(info_hash),
        output_folder: clone_opt(output_folder),
        file_count,
        files: clone_files(files),
        peer_count,
    })
}

fn clone_opt(s: &Option<String>) -> (r: Option<String>)
    ensures
        opt_str(r) == opt_str(*s),
{
    match s {
        Some(v) => Some(v.clone()),
        None => None,
    }
}

/// Under privacy mode no torrent job is ever saved.
pub proof fn lemma_privacy_saves_no_torrent_job(job_id: Option<u64>, record: Option<DownloadRecord>)
    ensures
        !saves_torrent_job(true, job_id, record),
{
}

/// What to do with a torrent job saved by an earlier run.
#[derive(Debug, Clone, Copy, PartialEq, Eq)]
pub enum RestoreAction {
    /// Privacy mode is on: forget the saved job.
    Discard,
    /// A torrent is running: keep the saved job for later.
    Wait,
    /// Nothing is saved.
    Nothing,
    /// Start the queue job with this id again.
    Restore(u64),
    /// The saved job no longer matches the queue: clear its metadata.
    Forget,
}

/// The restore rule: privacy first, then a running torrent, then whether the saved
/// job still matches its queue record.
pub open spec fn restore_view(
    privacy_mode: bool,
    torrent_running: bool,
    saved: Option<RqbitPersistedState>,
    record: Option<DownloadRecord>,
) -> RestoreAction {
    if privacy_mode {
        RestoreAction::Discard
    } else if torrent_running {
        RestoreAction::Wait
    } else {
        match saved {
            None => RestoreAction::Nothing,
            Some(s) => match record {
                Some(rec) => if rec.request.kind == DownloadKind::Torrent && rec.request.source@ == s.magnet_uri@ {
                    RestoreAction::Restore(s.queue_job_id)
                } else {
                    RestoreAction::Forget
                },
                None => RestoreAction::Forget,
            },
        }
    }
}

/// Decides what happens to a saved torrent job; `record` is the queue record with
/// the saved job's id, if there is one.
pub fn restore_decision(
    privacy: &PrivacySettings,
    torrent_running: bool,
    saved: Option<&RqbitPersistedState>,
    record: Option<&DownloadRecord>,
) -> (r: RestoreAction)
    ensures
        r == restore_view(
            privacy.privacy_mode,
            torrent_running,
            match saved { Some(s) => Some(*s), None => None },
            match record { Some(rec) => Some(*rec), None => None },
        ),
{
    if privacy.minimize_torrent_metadata_retention() {
        return RestoreAction::Discard;
    }
    if torrent_running {
        return RestoreAction::Wait;
    }
    let saved = match saved {
        Some(s) => s,
        None => return RestoreAction::Nothing,
    };
    let can_restore = match record {
        Some(rec) => saved.matches_torrent_job(&rec.request),
        None => false,
    };
    if can_restore {
        RestoreAction::Restore(saved.queue_job_id)
    } else {
        RestoreAction::Forget
    }
}

// ---------------------------------------------------------------- recent downloads

/// The list with every copy of `p` removed.
pub open spec fn without_path(s: Seq<Seq<char>>, p: Seq<char>) -> Seq<Seq<char>>
    decreases s.len(),
{
    if s.len() == 0 {
        Seq::empty()
    } else if s.last() == p {
        without_path(s.drop_last(), p)
    } else {
        without_path(s.drop_last(), p).push(s.last())
    }
}

/// The recent list after a download finished at `p`: `p` first, no other copy of
/// it, at most five entries.
pub open spec fn recent_after(s: Seq<Seq<char>>, p: Seq<char>) -> Seq<Seq<char>> {
    let l = seq![p] + without_path(s, p);
    if l.len() > 5 {
        l.take(5)
    } else {
        l
    }
}

pub open spec fn strings_view(v: Seq<String>) -> Seq<Seq<char>> {
    v.map_values(|s: String| s@)
}

pub fn remember_recent_download(recent: &mut Vec<String>, final_file_path: &str)
    ensures
        strings_view(final(recent)@) == recent_after(strings_view(old(recent)@), final_file_path@),
{
    let ghost before = strings_view(recent@);
    let mut old_list: Vec<String> = Vec::new();
    std::mem::swap(&mut old_list, recent);
    let wanted = final_file_path.to_owned();
    let mut kept: Vec<String> = Vec::new();
    kept.push(final_file_path.to_owned());
    for item in it: old_list
        invariant
            it.seq() == old_list@,
            strings_view(old_list@) == before,
            wanted@ == final_file_path@,
            strings_view(kept@) == seq![final_file_path@] + without_path(before.take(it.index() as int), final_file_path@),
    {
        let ghost k = it.index() as int;
        assert(before.take(k + 1).drop_last() =~= before.take(k));
        assert(before[k] == item@);
        let ghost t = before.take(k + 1);
        assert(t.last() == item@);
        let same = item == wanted;
        let ghost old_kept = kept@;
        assert(strings_view(old_kept) == seq![final_file_path@] + without_path(t.drop_last(), final_file_path@));
        if !same {
            kept.push(item);
            assert(strings_view(kept@) =~= strings_view(old_kept).push(item@));
            assert(without_path(t, final_file_path@) == without_path(t.drop_last(), final_file_path@).push(item@));
        } else {
            assert(without_path(t, final_file_path@) == without_path(t.drop_last(), final_file_path@));
        }
        assert(strings_view(kept@) =~= seq![final_file_path@] + without_path(before.take(k + 1), final_file_path@));
    }
    assert(before.take(before.len() as int) =~= before);
    kept.truncate(5);
    assert(strings_view(kept@) =~= recent_after(before, final_file_path@));
    *recent = kept;
}

proof fn lemma_without_path(s: Seq<Seq<char>>, p: Seq<char>)
    ensures
        forall|i: int| 0 <= i < without_path(s, p).len() ==> #[trigger] without_path(s, p)[i] != p,
        without_path(s, p).len() <= s.len(),
    decreases s.len(),
{
    if s.len() > 0 {
        lemma_without_path(s.drop_last(), p);
    }
}

/// After a download is remembered, it heads the list, appears only there, and the
/// list holds at most five entries.
pub proof fn lemma_recent_list(s: Seq<Seq<char>>, p: Seq<char>)
    ensures
        recent_after(s, p).len() >= 1,
        recent_after(s, p).len() <= 5,
        recent_after(s, p)[0] == p,
        forall|i: int| 1 <= i < recent_after(s, p).len() ==> #[trigger] recent_after(s, p)[i] != p,
{
    lemma_without_path(s, p);
    let l = seq![p] + without_path(s, p);
    assert forall|i: int| 1 <= i < recent_after(s, p).len() implies #[trigger] recent_after(s, p)[i] != p by {
        assert(recent_after(s, p)[i] == l[i]);
        assert(l[i] == without_path(s, p)[i - 1]);
    }
}

// ---------------------------------------------------------------- duplicate names

/// The `index`-th alternative name for a file that already exists: `stem (index).ext`,
/// or `stem (index)` where there is no (or an empty) extension.
pub open spec fn numbered_name_view(stem: Seq<char>, extension: Option<Seq<char>>, index: u32) -> Seq<char> {
    match extension {
        Some(e) => if e.len() > 0 {
            stem + " ("@ + decimal(index as nat) + ")."@ + e
        } else {
            stem + " ("@ + decimal(index as nat) + ")"@
        },
        None => stem + " ("@ + decimal(index as nat) + ")"@,
    }
}

pub fn numbered_file_name(stem: &str, extension: Option<&str>, index: u32) -> (r: String)
    ensures
        r@ == numbered_name_view(stem@, match extension { Some(e) => Some(e@), None => None }, index),
{
    let mut r = stem.to_owned();
    push_str(&mut r, " (");
    let digits = decimal_string(index as u64);
    push_str(&mut r, digits.as_str());
    match extension {
        Some(ext) => {
            if ext.is_empty() {
                push_str(&mut r, ")");
            } else {
                push_str(&mut r, ").");
                push_str(&mut r, ext);
            }
        },
        None => {
            push_str(&mut r, ")");
        },
    }
    r
}

// ---------------------------------------------------------------- deleting the history

/// The two-click deletion of the history: the first click asks for
/// confirmation, the second deletes unless something is transferring.
#[derive(Debug, Clone, Copy, PartialEq, Eq, Structural)]
pub enum HistoryDeletionStep {
    AskConfirmation,
    BlockedByActiveTransfers,
    Delete,
}

/// The step a click on "delete history" takes, whether a confirmation is
/// pending after it, and the status line it shows.
pub fn history_deletion_step(confirmation_pending: bool, active_transfers: bool) -> (r: (
    HistoryDeletionStep,
    bool,
    &'static str,
))
    ensures
        !confirmation_pending ==> r.0 == HistoryDeletionStep::AskConfirmation && r.1 && r.2@
            == "Click again to permanently delete history and saved metadata"@,
        confirmation_pending && active_transfers ==> r.0 == HistoryDeletionStep::BlockedByActiveTransfers
            && !r.1 && r.2@ == "Pause or remove active transfers before deleting history and metadata"@,
        confirmation_pending && !active_transfers ==> r.0 == HistoryDeletionStep::Delete && !r.1 && r.2@
            == "Deleted history and saved metadata"@,
{
    if !confirmation_pending {
        (HistoryDeletionStep::AskConfirmation, true, "Click again to permanently delete history and saved metadata")
    } else if active_transfers {
        (
            HistoryDeletionStep::BlockedByActiveTransfers,
            false,
            "Pause or remove active transfers before deleting history and metadata",
        )
    } else {
        (HistoryDeletionStep::Delete, false, "Deleted history and saved metadata")
    }
}

/// The file beside a job that keeps its resume data (a direct job) or its
/// session (a torrent job).
pub open spec fn metadata_file_of(r: RecordView, root: Seq<char>, cats: Seq<CategoryView>) -> Seq<char> {
    let folder = plan_view(r.request, root, cats).target_folder;
    match r.request.kind {
        DownloadKind::Direct => final_path_view(folder, r.request.file_name) + ".json"@,
        DownloadKind::Torrent => folder + "/"@ + torrent_name_view(r.request.file_name) + ".torrent-session.json"@,
    }
}

/// The metadata files of every job of the queue, in queue order: what deleting
/// the history removes from disk.
pub fn history_metadata_files(snapshot: &AppSnapshot) -> (r: Vec<String>)
    ensures
        r@.len() == snapshot.queue@.len(),
        forall|i: int|
            0 <= i < r@.len() ==> (#[trigger] r@[i])@ == metadata_file_of(
                snapshot.queue@[i]@,
                snapshot.downloads_root@,
                categories_view(snapshot.categories@),
            ),
{
    let mut files: Vec<String> = Vec::new();
    let mut i: usize = 0;
    while i < snapshot.queue.len()
        invariant
            i <= snapshot.queue.len(),
            files@.len() == i,
            forall|j: int|
                0 <= j < i ==> (#[trigger] files@[j])@ == metadata_file_of(
                    snapshot.queue@[j]@,
                    snapshot.downloads_root@,
                    categories_view(snapshot.categories@),
                ),
        decreases snapshot.queue.len() - i,
    {
        let record = &snapshot.queue[i];
        match record.request.kind {
            DownloadKind::Direct => {
                let plan = build_direct_download_plan(
                    &record.request,
                    snapshot.downloads_root.as_str(),
                    snapshot.categories.as_slice(),
                );
                files.push(plan.metadata_file_path);
            },
            DownloadKind::Torrent => {
                let plan = build_torrent_task_plan(
                    &record.request,
                    snapshot.downloads_root.as_str(),
                    snapshot.categories.as_slice(),
                );
                files.push(plan.session_file_path);
            },
        }
        i += 1;
    }
    files
}

// ---------------------------------------------------------------- the job list

/// The job whose details are shown after a click on job `id`'s details button:
/// the click hides them if they were shown, and shows them otherwise.
pub fn toggled_details(expanded: Option<u64>, id: u64) -> (r: Option<u64>)
    ensures
        r == (if expanded == Some(id) {
            None
        } else {
            Some(id)
        }),
{
    if expanded == Some(id) {
        None
    } else {
        Some(id)
    }
}

/// The colour role a status text is drawn in.
#[derive(Debug, Clone, Copy, PartialEq, Eq, Structural)]
pub enum StatusTone {
    Success,
    Danger,
    Warm,
    Accent,
}

/// The role for a status text, read in ASCII lower case: completed, then failed
/// or deleted, then paused; anything else takes the accent.
pub open spec fn status_tone_view(status: Seq<char>) -> StatusTone {
    let l = lower_seq(status);
    if first_occurrence(l, "completed"@) is Some {
        StatusTone::Success
    } else if first_occurrence(l, "failed"@) is Some || first_occurrence(l, "delete"@) is Some {
        StatusTone::Danger
    } else if first_occurrence(l, "paused"@) is Some {
        StatusTone::Warm
    } else {
        StatusTone::Accent
    }
}

pub fn status_tone(status: &str) -> (r: StatusTone)
    ensures
        r == status_tone_view(status@),
{
    let lower = lower_chars(&chars_of(status));
    if find_first(&lower, &chars_of("completed")).is_some() {
        StatusTone::Success
    } else if find_first(&lower, &chars_of("failed")).is_some() || find_first(&lower, &chars_of("delete")).is_some() {
        StatusTone::Danger
    } else if find_first(&lower, &chars_of("paused")).is_some() {
        StatusTone::Warm
    } else {
        StatusTone::Accent
    }
}

// ---------------------------------------------------------------- notifications

/// A notification the desktop shows, numbered in the order of arrival.
#[derive(Debug, Clone, PartialEq, Eq)]
pub struct AppNotification {
    pub id: u64,
    pub title: String,
    pub body: String,
}

pub struct NotificationView {
    pub id: u64,
    pub title: Seq<char>,
    pub body: Seq<char>,
}

pub open spec fn notifications_view(v: Seq<AppNotification>) -> Seq<NotificationView> {
    v.map_values(|n: AppNotification| NotificationView { id: n.id, title: n.title@, body: n.body@ })
}

/// The last `n` entries of `s` (all of them where there are fewer).
pub open spec fn newest(s: Seq<NotificationView>, n: nat) -> Seq<NotificationView> {
    if s.len() > n {
        s.subrange(s.len() - n, s.len() as int)
    } else {
        s
    }
}

/// Adds a notification under the next number; only the five newest are kept.
pub fn push_notification(notifications: &mut Vec<AppNotification>, serial: &mut u64, title: String, body: String)
    requires
        *old(serial) < u64::MAX,
    ensures
        *final(serial) == *old(serial) + 1,
        notifications_view(final(notifications)@) == newest(
            notifications_view(old(notifications)@).push(
                NotificationView { id: *final(serial), title: title@, body: body@ },
            ),
            5,
        ),
{
    *serial = *serial + 1;
    let ghost added = NotificationView { id: *serial, title: title@, body: body@ };
    let ghost all = notifications_view(old(notifications)@).push(added);
    notifications.push(AppNotification { id: *serial, title, body });
    assert(notifications_view(notifications@) =~= all);
    if notifications.len() > 5 {
        let keep_from = notifications.len() - 5;
        let mut kept: Vec<AppNotification> = Vec::new();
        let mut i = keep_from;
        while i < notifications.len()
            invariant
                keep_from <= i <= notifications.len(),
                keep_from == notifications.len() - 5,
                notifications_view(notifications@) == all,
                notifications_view(kept@) == all.subrange(keep_from as int, i as int),
            decreases notifications.len() - i,
        {
            let n = &notifications[i];
            assert(all[i as int] == notifications_view(notifications@)[i as int]);
            let copy = AppNotification { id: n.id, title: n.title.clone(), body: n.body.clone() };
            assert(NotificationView { id: copy.id, title: copy.title@, body: copy.body@ } == all[i as int]);
            let ghost before = kept@;
            kept.push(copy);
            assert(kept@ == before.push(copy));
            assert(notifications_view(kept@) =~= notifications_view(before).push(all[i as int]));
            assert(all.subrange(keep_from as int, i + 1) =~= all.subrange(keep_from as int, i as int).push(all[i as int]));
            i += 1;
        }
        *notifications = kept;
    }
}

} // verus!
