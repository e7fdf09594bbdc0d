//! What the desktop does with what a running download reports: the queue
//! changes, the status line and the follow-up steps, for the direct worker,
//! the real torrent engine and the simulated one.
use vstd::prelude::*;
use crate::direct::{lemma_sum_prefix_le, sum_u64, DirectDownloadEvent};
use crate::model::{PrivacySettings, TorrentFileEntry, TorrentSessionSnapshot};
use crate::queue::{
    completed, context_cleared, failed, lemma_update_touches_only_its_job, paused, resumed, source_redacted,
    update_first, with_download_progress, with_torrent_progress, with_total, without_id, QueueManager, RecordView,
};
use crate::rqbit::RqbitTorrentEvent;
use crate::text::{decimal, decimal_string, push_str};
use crate::torrent::{progress_basis_points, simulate_torrent_progress, simulated_eta, stepped_session};

verus! {

/// `prefix`, the job's number, then `suffix`.
fn job_text(prefix: &str, id: u64, suffix: &str) -> (r: String)
    ensures
        r@ == prefix@ + decimal(id as nat) + suffix@,
{
    let mut r = prefix.to_owned();
    let number = decimal_string(id);
    push_str(&mut r, number.as_str());
    push_str(&mut r, suffix);
    r
}

// ---------------------------------------------------------------- metadata scrubbing

/// Once a direct job completes, privacy mode drops its browser context.
pub fn scrub_completed_direct_metadata(manager: &mut QueueManager, privacy: &PrivacySettings, job_id: u64)
    requires
        old(manager).wf(),
    ensures
        final(manager).wf(),
        final(manager).same_frame(old(manager)),
        final(manager).records() == if privacy.privacy_mode {
            update_first(old(manager).records(), job_id, |r: RecordView| context_cleared(r))
        } else {
            old(manager).records()
        },
{
    if privacy.minimize_browser_metadata_retention() {
        manager.clear_browser_metadata(job_id);
    }
}

/// Once a torrent job completes, privacy mode replaces its magnet link.
pub fn scrub_completed_torrent_metadata(manager: &mut QueueManager, privacy: &PrivacySettings, job_id: u64)
    requires
        old(manager).wf(),
    ensures
        final(manager).wf(),
        final(manager).same_frame(old(manager)),
        final(manager).records() == if privacy.privacy_mode {
            update_first(old(manager).records(), job_id, |r: RecordView| source_redacted(r))
        } else {
            old(manager).records()
        },
{
    if privacy.minimize_torrent_metadata_retention() {
        manager.redact_torrent_source(job_id);
    }
}

// ---------------------------------------------------------------- the direct worker

/// The queue after the worker of job `id` reports `e`.
pub open spec fn direct_records_after(q: Seq<RecordView>, id: u64, e: DirectDownloadEvent) -> Seq<RecordView> {
    match e {
        DirectDownloadEvent::Started { total_bytes } => update_first(q, id, |r: RecordView| with_total(r, total_bytes)),
        DirectDownloadEvent::Progress { downloaded_bytes, total_bytes, bytes_per_second } => update_first(
            q,
            id,
            |r: RecordView| with_download_progress(r, downloaded_bytes, total_bytes, bytes_per_second),
        ),
        DirectDownloadEvent::Retrying { .. } => q,
        DirectDownloadEvent::Completed { total_bytes, .. } => update_first(
            update_first(q, id, |r: RecordView| with_download_progress(r, total_bytes, Some(total_bytes), 0)),
            id,
            |r: RecordView| completed(r),
        ),
        DirectDownloadEvent::Failed { message } => update_first(q, id, |r: RecordView| failed(r, message@)),
        DirectDownloadEvent::Paused { downloaded_bytes, total_bytes } => update_first(
            update_first(q, id, |r: RecordView| with_download_progress(r, downloaded_bytes, total_bytes, 0)),
            id,
            |r: RecordView| paused(r),
        ),
    }
}

/// The status line after the worker of job `id` reports `e`.
pub open spec fn direct_message(id: u64, e: DirectDownloadEvent) -> Seq<char> {
    let n = decimal(id as nat);
    match e {
        DirectDownloadEvent::Started { .. } => "Direct job #"@ + n + " connected"@,
        DirectDownloadEvent::Progress { .. } => "Downloading job #"@ + n,
        DirectDownloadEvent::Retrying { attempt, max_attempts, wait_ms, message } => "Retrying direct job #"@ + n
            + " ("@ + decimal(attempt as nat) + "/"@ + decimal(max_attempts as nat) + ") in "@ + decimal(
            (wait_ms / 1000) as nat,
        ) + "s: "@ + message@,
        DirectDownloadEvent::Completed { final_file_path, .. } => "Completed job #"@ + n + " -> "@
            + final_file_path@,
        DirectDownloadEvent::Failed { message } => "Direct job #"@ + n + " failed: "@ + message@,
        DirectDownloadEvent::Paused { .. } => "Paused direct job #"@ + n,
    }
}

/// What the desktop does next after one report of the direct worker.
#[derive(Debug, Clone, PartialEq, Eq)]
pub struct DirectEventOutcome {
    pub status_message: String,
    /// The worker is done with the job: it completed, failed or paused.
    pub finished: bool,
    /// Where the completed file was written.
    pub completed_file_path: Option<String>,
    /// Why the job failed.
    pub failed_message: Option<String>,
}

/// Applies one report of the direct worker of job `job_id` to the queue.
pub fn apply_direct_event(manager: &mut QueueManager, job_id: u64, event: &DirectDownloadEvent) -> (r:
    DirectEventOutcome)
    requires
        old(manager).wf(),
    ensures
        final(manager).wf(),
        final(manager).same_frame(old(manager)),
        final(manager).records() == direct_records_after(old(manager).records(), job_id, *event),
        r.status_message@ == direct_message(job_id, *event),
        r.finished == (*event is Completed || *event is Failed || *event is Paused),
        r.completed_file_path == (match *event {
            DirectDownloadEvent::Completed { final_file_path, .. } => Some(final_file_path),
            _ => None,
        }),
        r.failed_message == (match *event {
            DirectDownloadEvent::Failed { message } => Some(message),
            _ => None,
        }),
{
    match event {
        DirectDownloadEvent::Started { total_bytes } => {
            manager.set_total_bytes(job_id, *total_bytes);
            DirectEventOutcome {
                status_message: job_text("Direct job #", job_id, " connected"),
                finished: false,
                completed_file_path: None,
                failed_message: None,
            }
        },
        DirectDownloadEvent::Progress { downloaded_bytes, total_bytes, bytes_per_second } => {
            manager.apply_download_progress(job_id, *downloaded_bytes, *total_bytes, *bytes_per_second);
            let text = job_text("Downloading job #", job_id, "");
            proof {
                reveal_strlit("");
            }
            assert(text@ =~= "Downloading job #"@ + decimal(job_id as nat));
            DirectEventOutcome {
                status_message: text,
                finished: false,
                completed_file_path: None,
                failed_message: None,
            }
        },
        DirectDownloadEvent::Retrying { attempt, max_attempts, wait_ms, message } => {
            let mut text = job_text("Retrying direct job #", job_id, " (");
            let attempt_text = decimal_string(*attempt as u64);
            push_str(&mut text, attempt_text.as_str());
            push_str(&mut text, "/");
            let max_text = decimal_string(*max_attempts as u64);
            push_str(&mut text, max_text.as_str());
            push_str(&mut text, ") in ");
            let wait_text = decimal_string(*wait_ms / 1000);
            push_str(&mut text, wait_text.as_str());
            push_str(&mut text, "s: ");
            push_str(&mut text, message.as_str());
            DirectEventOutcome {
                status_message: text,
                finished: false,
                completed_file_path: None,
                failed_message: None,
            }
        },
        DirectDownloadEvent::Completed { final_file_path, total_bytes } => {
            manager.apply_download_progress(job_id, *total_bytes, Some(*total_bytes), 0);
            manager.mark_completed(job_id);
            let mut text = job_text("Completed job #", job_id, " -> ");
            push_str(&mut text, final_file_path.as_str());
            DirectEventOutcome {
                status_message: text,
                finished: true,
                completed_file_path: Some(final_file_path.clone()),
                failed_message: None,
            }
        },
        DirectDownloadEvent::Failed { message } => {
            manager.fail(job_id, message.as_str());
            let mut text = job_text("Direct job #", job_id, " failed: ");
            push_str(&mut text, message.as_str());
            DirectEventOutcome {
                status_message: text,
                finished: true,
                completed_file_path: None,
                failed_message: Some(message.clone()),
            }
        },
        DirectDownloadEvent::Paused { downloaded_bytes, total_bytes } => {
            manager.apply_download_progress(job_id, *downloaded_bytes, *total_bytes, 0);
            manager.pause(job_id);
            let text = job_text("Paused direct job #", job_id, "");
            proof {
                reveal_strlit("");
            }
            assert(text@ =~= "Paused direct job #"@ + decimal(job_id as nat));
            DirectEventOutcome {
                status_message: text,
                finished: true,
                completed_file_path: None,
                failed_message: None,
            }
        },
    }
}

/// A report of the direct worker changes only the job it is about: every record
/// with another id stays as it was, in its place.
pub proof fn lemma_direct_event_touches_only_its_job(q: Seq<RecordView>, id: u64, e: DirectDownloadEvent)
    ensures
        direct_records_after(q, id, e).len() == q.len(),
        forall|j: int| 0 <= j < q.len() && (#[trigger] q[j]).id != id ==> direct_records_after(q, id, e)[j] == q[j],
{
    match e {
        DirectDownloadEvent::Started { total_bytes } => {
            lemma_update_touches_only_its_job(q, id, |r: RecordView| with_total(r, total_bytes));
        },
        DirectDownloadEvent::Progress { downloaded_bytes, total_bytes, bytes_per_second } => {
            lemma_update_touches_only_its_job(
                q,
                id,
                |r: RecordView| with_download_progress(r, downloaded_bytes, total_bytes, bytes_per_second),
            );
        },
        DirectDownloadEvent::Retrying { .. } => {},
        DirectDownloadEvent::Completed { total_bytes, .. } => {
            let f = |r: RecordView| with_download_progress(r, total_bytes, Some(total_bytes), 0);
            lemma_update_touches_only_its_job(q, id, f);
            lemma_update_touches_only_its_job(update_first(q, id, f), id, |r: RecordView| completed(r));
        },
        DirectDownloadEvent::Failed { message } => {
            lemma_update_touches_only_its_job(q, id, |r: RecordView| failed(r, message@));
        },
        DirectDownloadEvent::Paused { downloaded_bytes, total_bytes } => {
            let f = |r: RecordView| with_download_progress(r, downloaded_bytes, total_bytes, 0);
            lemma_update_touches_only_its_job(q, id, f);
            lemma_update_touches_only_its_job(update_first(q, id, f), id, |r: RecordView| paused(r));
        },
    }
}

// ---------------------------------------------------------------- the torrent engine

/// The queue after the engine running job `id` reports `e`.
pub open spec fn torrent_records_after(q: Seq<RecordView>, id: u64, e: RqbitTorrentEvent) -> Seq<RecordView> {
    match e {
        RqbitTorrentEvent::SessionStarted => update_first(
            q,
            id,
            |r: RecordView| with_torrent_progress(r, 0, 0, 1, 0, 0, "Session started"@),
        ),
        RqbitTorrentEvent::MetadataResolved { .. } => q,
        RqbitTorrentEvent::Progress {
            progress_basis_points,
            downloaded_bytes,
            total_bytes,
            download_rate_bytes_per_sec,
            peers,
            eta_text,
            ..
        } => update_first(
            q,
            id,
            |r: RecordView|
                with_torrent_progress(
                    r,
                    progress_basis_points,
                    downloaded_bytes,
                    total_bytes,
                    download_rate_bytes_per_sec,
                    peers,
                    eta_text@,
                ),
        ),
        RqbitTorrentEvent::Paused => update_first(q, id, |r: RecordView| paused(r)),
        RqbitTorrentEvent::Resumed => update_first(q, id, |r: RecordView| resumed(r)),
        RqbitTorrentEvent::Removed => without_id(q, id),
        RqbitTorrentEvent::Deleted => without_id(q, id),
        RqbitTorrentEvent::Completed => update_first(q, id, |r: RecordView| completed(r)),
        RqbitTorrentEvent::Failed(message) => update_first(q, id, |r: RecordView| failed(r, message@)),
    }
}

/// The status line after the engine running job `id` reports `e`.
pub open spec fn torrent_message(id: u64, e: RqbitTorrentEvent) -> Seq<char> {
    let n = decimal(id as nat);
    match e {
        RqbitTorrentEvent::SessionStarted => "Torrent job #"@ + n + " session started"@,
        RqbitTorrentEvent::MetadataResolved { display_name, .. } => "Torrent job #"@ + n
            + " resolved metadata for "@ + display_name@,
        RqbitTorrentEvent::Progress { .. } => "Torrent job #"@ + n + " downloading via rqbit"@,
        RqbitTorrentEvent::Paused => "Paused torrent job #"@ + n + " via rqbit"@,
        RqbitTorrentEvent::Resumed => "Resumed torrent job #"@ + n + " via rqbit"@,
        RqbitTorrentEvent::Removed => "Removed torrent job #"@ + n + " via rqbit"@,
        RqbitTorrentEvent::Deleted => "Deleted torrent job #"@ + n + " and its files via rqbit"@,
        RqbitTorrentEvent::Completed => "Torrent job #"@ + n + " completed via rqbit"@,
        RqbitTorrentEvent::Failed(message) => "Torrent job #"@ + n + " failed via rqbit: "@ + message@,
    }
}

/// A desktop notification: its title and its text.
pub open spec fn notice_view(n: (String, String)) -> (Seq<char>, Seq<char>) {
    (n.0@, n.1@)
}

/// What the desktop does next after one report of the torrent engine.
#[derive(Debug, Clone, PartialEq, Eq)]
pub struct TorrentEventOutcome {
    pub status_message: String,
    /// The engine is done with the job: it completed, was removed or deleted, or failed.
    pub finished: bool,
    /// The desktop state is saved at once.
    pub save_state: bool,
    /// The completed job's metadata is to be scrubbed.
    pub scrub_metadata: bool,
    /// A pending request to delete the job's files is dropped.
    pub clear_pending_delete: bool,
    /// A notification to show: its title and its text.
    pub notification: Option<(String, String)>,
    /// The peer count the engine reported.
    pub peer_count: Option<u32>,
}

/// Applies one report of the torrent engine running job `job_id` to the queue.
pub fn apply_torrent_event(manager: &mut QueueManager, job_id: u64, event: &RqbitTorrentEvent) -> (r:
    TorrentEventOutcome)
    requires
        old(manager).wf(),
    ensures
        final(manager).wf(),
        final(manager).same_frame(old(manager)),
        final(manager).records() == torrent_records_after(old(manager).records(), job_id, *event),
        r.status_message@ == torrent_message(job_id, *event),
        r.finished == (*event is Completed || *event is Removed || *event is Deleted || *event is Failed),
        r.save_state == (*event is Paused || *event is Resumed || *event is MetadataResolved
            || *event is Progress),
        r.scrub_metadata == (*event is Completed),
        r.clear_pending_delete == (*event is Removed || *event is Deleted || *event is Failed),
        match *event {
            RqbitTorrentEvent::Completed => r.notification matches Some(n) && notice_view(n) == (
                "Torrent completed"@,
                "Torrent job #"@ + decimal(job_id as nat) + " finished"@,
            ),
            RqbitTorrentEvent::Failed(message) => r.notification matches Some(n) && notice_view(n) == (
                "Torrent failed"@,
                "Torrent job #"@ + decimal(job_id as nat) + " failed: "@ + message@,
            ),
            _ => r.notification is None,
        },
        r.peer_count == (match *event {
            RqbitTorrentEvent::Progress { peers, .. } => Some(peers),
            _ => None,
        }),
{
    match event {
        RqbitTorrentEvent::SessionStarted => {
            manager.apply_torrent_progress(job_id, 0, 0, 1, 0, 0, "Session started");
            TorrentEventOutcome {
                status_message: job_text("Torrent job #", job_id, " session started"),
                finished: false,
                save_state: false,
                scrub_metadata: false,
                clear_pending_delete: false,
                notification: None,
                peer_count: None,
            }
        },
        RqbitTorrentEvent::MetadataResolved { display_name, .. } => {
            let mut text = job_text("Torrent job #", job_id, " resolved metadata for ");
            push_str(&mut text, display_name.as_str());
            TorrentEventOutcome {
                status_message: text,
                finished: false,
                save_state: true,
                scrub_metadata: false,
                clear_pending_delete: false,
                notification: None,
                peer_count: None,
            }
        },
        RqbitTorrentEvent::Progress {
            progress_basis_points,
            downloaded_bytes,
            total_bytes,
            download_rate_bytes_per_sec,
            peers,
            eta_text,
            ..
        } => {
            manager.apply_torrent_progress(
                job_id,
                *progress_basis_points,
                *downloaded_bytes,
                *total_bytes,
                *download_rate_bytes_per_sec,
                *peers,
                eta_text.as_str(),
            );
            TorrentEventOutcome {
                status_message: job_text("Torrent job #", job_id, " downloading via rqbit"),
                finished: false,
                save_state: true,
                scrub_metadata: false,
                clear_pending_delete: false,
                notification: None,
                peer_count: Some(*peers),
            }
        },
        RqbitTorrentEvent::Paused => {
            manager.pause(job_id);
            TorrentEventOutcome {
                status_message: job_text("Paused torrent job #", job_id, " via rqbit"),
                finished: false,
                save_state: true,
                scrub_metadata: false,
                clear_pending_delete: false,
                notification: None,
                peer_count: None,
            }
        },
        RqbitTorrentEvent::Resumed => {
            manager.resume(job_id);
            TorrentEventOutcome {
                status_message: job_text("Resumed torrent job #", job_id, " via rqbit"),
                finished: false,
                save_state: true,
                scrub_metadata: false,
                clear_pending_delete: false,
                notification: None,
                peer_count: None,
            }
        },
        RqbitTorrentEvent::Removed => {
            manager.remove(job_id);
            TorrentEventOutcome {
                status_message: job_text("Removed torrent job #", job_id, " via rqbit"),
                finished: true,
                save_state: false,
                scrub_metadata: false,
                clear_pending_delete: true,
                notification: None,
                peer_count: None,
            }
        },
        RqbitTorrentEvent::Deleted => {
            manager.remove(job_id);
            TorrentEventOutcome {
                status_message: job_text("Deleted torrent job #", job_id, " and its files via rqbit"),
                finished: true,
                save_state: false,
                scrub_metadata: false,
                clear_pending_delete: true,
                notification: None,
                peer_count: None,
            }
        },
        RqbitTorrentEvent::Completed => {
            manager.mark_completed(job_id);
            TorrentEventOutcome {
                status_message: job_text("Torrent job #", job_id, " completed via rqbit"),
                finished: true,
                save_state: false,
                scrub_metadata: true,
                clear_pending_delete: false,
                notification: Some(
                    ("Torrent completed".to_owned(), job_text("Torrent job #", job_id, " finished")),
                ),
                peer_count: None,
            }
        },
        RqbitTorrentEvent::Failed(message) => {
            manager.fail(job_id, message.as_str());
            let mut text = job_text("Torrent job #", job_id, " failed via rqbit: ");
            push_str(&mut text, message.as_str());
            let mut body = job_text("Torrent job #", job_id, " failed: ");
            push_str(&mut body, message.as_str());
            TorrentEventOutcome {
                status_message: text,
                finished: true,
                save_state: false,
                scrub_metadata: false,
                clear_pending_delete: true,
                notification: Some(("Torrent failed".to_owned(), body)),
                peer_count: None,
            }
        },
    }
}

// ---------------------------------------------------------------- the simulated engine

/// The sizes of a torrent's files.
pub open spec fn file_sizes(files: Seq<TorrentFileEntry>) -> Seq<u64> {
    files.map_values(|f: TorrentFileEntry| f.size_bytes)
}

/// The bytes of all of a torrent's files.
pub fn total_file_size(files: &Vec<TorrentFileEntry>) -> (r: u64)
    requires
        sum_u64(file_sizes(files@)) <= u64::MAX,
    ensures
        r == sum_u64(file_sizes(files@)),
{
    let ghost sizes = file_sizes(files@);
    let mut total: u64 = 0;
    let mut i: usize = 0;
    while i < files.len()
        invariant
            sizes == file_sizes(files@),
            sum_u64(sizes) <= u64::MAX,
            i <= files.len(),
            total == sum_u64(sizes.take(i as int)),
        decreases files.len() - i,
    {
        assert(sizes.take(i + 1).drop_last() =~= sizes.take(i as int));
        proof {
            lemma_sum_prefix_le(sizes, i + 1);
        }
        total = total + files[i].size_bytes;
        i += 1;
    }
    assert(sizes.take(files.len() as int) =~= sizes);
    total
}

/// The queue after one step of the simulated engine for job `id`, whose session
/// is `after` once stepped: the job's progress is reported, and a job that
/// reached 100% is completed (and, in privacy mode, its magnet link replaced).
pub open spec fn simulated_records_after(
    q: Seq<RecordView>,
    id: u64,
    after: TorrentSessionSnapshot,
    total: u64,
    privacy_mode: bool,
) -> Seq<RecordView> {
    let p = progress_basis_points(after.completed_pieces, after.piece_count);
    let reported = update_first(
        q,
        id,
        |r: RecordView|
            with_torrent_progress(
                r,
                p,
                after.downloaded_bytes,
                total,
                (18 * 4194304 / 5) as u64,
                18,
                simulated_eta(after.completed_pieces, after.piece_count),
            ),
    );
    if p >= 10000 {
        let done = update_first(reported, id, |r: RecordView| completed(r));
        if privacy_mode {
            update_first(done, id, |r: RecordView| source_redacted(r))
        } else {
            done
        }
    } else {
        reported
    }
}

/// One step of the simulated torrent engine for job `job_id`: twelve more
/// pieces and eighteen peers; returns whether the job completed.
pub fn tick_simulated_torrent(
    manager: &mut QueueManager,
    privacy: &PrivacySettings,
    job_id: u64,
    session: &mut TorrentSessionSnapshot,
) -> (finished: bool)
    requires
        old(manager).wf(),
        old(session).completed_pieces + 12 <= u32::MAX,
        old(session).uploaded_bytes + 18 * 256 * 1024 <= u64::MAX,
        sum_u64(file_sizes(old(session).files@)) <= u64::MAX,
    ensures
        final(manager).wf(),
        final(manager).same_frame(old(manager)),
        *final(session) == stepped_session(*old(session), 12, 18),
        finished == (progress_basis_points(final(session).completed_pieces, final(session).piece_count)
            >= 10000),
        final(manager).records() == simulated_records_after(
            old(manager).records(),
            job_id,
            *final(session),
            sum_u64(file_sizes(old(session).files@)) as u64,
            privacy.privacy_mode,
        ),
{
    let progress = simulate_torrent_progress(session, 12, 18);
    let total_bytes = total_file_size(&session.files);
    manager.apply_torrent_progress(
        job_id,
        progress.progress_basis_points,
        session.downloaded_bytes,
        total_bytes,
        progress.download_rate_bytes_per_sec,
        progress.connected_peers,
        progress.eta_text.as_str(),
    );
    if progress.progress_basis_points >= 10000 {
        manager.mark_completed(job_id);
        scrub_completed_torrent_metadata(manager, privacy, job_id);
        true
    } else {
        false
    }
}

} // verus!
