//! The download queue: its records, the sample queue a first run shows, and the
//! manager whose operations move jobs through their states.
use vstd::prelude::*;
use crate::categories::{categories_view, default_categories_view};
use crate::categories::default_download_categories;
use crate::model::{
    DownloadCategory, DownloadKind, DownloadRequest, DownloadRequestView, DownloadStatus, QueueView,
    request_cleared, request_new, request_redacted,
};
use crate::planner::{first_where, lemma_first_where};
use crate::text::{decimal, decimal_string, push_str};

verus! {

/// One job of the queue. Progress is in hundredths of a percent, sizes in bytes
/// and speed in bytes per second.
#[derive(Debug, Clone, PartialEq, Eq)]
pub struct DownloadRecord {
    pub id: u64,
    pub request: DownloadRequest,
    pub status: DownloadStatus,
    pub progress_basis_points: u32,
    pub downloaded_bytes: u64,
    pub total_bytes: u64,
    pub speed_bytes_per_sec: u64,
    pub eta_text: String,
    pub added_from_browser: bool,
}

/// A record as mathematical values.
pub struct RecordView {
    pub id: u64,
    pub request: DownloadRequestView,
    pub status: DownloadStatus,
    pub progress: u32,
    pub downloaded: u64,
    pub total: u64,
    pub speed: u64,
    pub eta: Seq<char>,
    pub added_from_browser: bool,
}

impl View for DownloadRecord {
    type V = RecordView;

    open spec fn view(&self) -> RecordView {
        RecordView {
            id: self.id,
            request: self.request@,
            status: self.status,
            progress: self.progress_basis_points,
            downloaded: self.downloaded_bytes,
            total: self.total_bytes,
            speed: self.speed_bytes_per_sec,
            eta: self.eta_text@,
            added_from_browser: self.added_from_browser,
        }
    }
}

pub open spec fn queue_view(q: Seq<DownloadRecord>) -> Seq<RecordView> {
    q.map_values(|r: DownloadRecord| r@)
}

/// Whether a record is listed under a filter of the queue.
pub open spec fn visible_in(r: RecordView, view: QueueView) -> bool {
    match view {
        QueueView::Active => r.status == DownloadStatus::Downloading || r.status == DownloadStatus::Paused,
        QueueView::Queued => r.status == DownloadStatus::Queued,
        QueueView::Completed => r.status == DownloadStatus::Completed,
        QueueView::Torrents => r.request.kind == DownloadKind::Torrent,
        QueueView::BrowserCapture => r.added_from_browser,
    }
}

impl DownloadRecord {
    pub fn is_visible_in(&self, view: QueueView) -> (r: bool)
        ensures
            r == visible_in(self@, view),
    {
        match view {
            QueueView::Active => self.status == DownloadStatus::Downloading || self.status == DownloadStatus::Paused,
            QueueView::Queued => self.status == DownloadStatus::Queued,
            QueueView::Completed => self.status == DownloadStatus::Completed,
            QueueView::Torrents => self.request.kind == DownloadKind::Torrent,
            QueueView::BrowserCapture => self.added_from_browser,
        }
    }
}

/// The whole persisted state of the queue.
#[derive(Debug, Clone, PartialEq, Eq)]
pub struct AppSnapshot {
    pub downloads_root: String,
    pub categories: Vec<DownloadCategory>,
    pub queue: Vec<DownloadRecord>,
}

// ---------------------------------------------------------------- the sample queue

pub open spec fn mib(n: int) -> int {
    n * 1024 * 1024
}

pub open spec fn sample_record(
    id: u64,
    file_name: Seq<char>,
    source: Seq<char>,
    kind: DownloadKind,
    status: DownloadStatus,
    progress: u32,
    downloaded: u64,
    total: u64,
    speed: u64,
    eta: Seq<char>,
    added_from_browser: bool,
) -> RecordView {
    RecordView {
        id,
        request: request_new(file_name, source, kind),
        status,
        progress,
        downloaded,
        total,
        speed,
        eta,
        added_from_browser,
    }
}

/// The queue a first run shows: an ISO downloading, an installer waiting, and a
/// finished torrent and document.
pub open spec fn sample_queue_view() -> Seq<RecordView> {
    seq![
        sample_record(1, "ubuntu-24.04.iso"@, "https://releases.ubuntu.com/24.04/ubuntu.iso"@,
            DownloadKind::Direct, DownloadStatus::Downloading, 6140, 3030384640, 4935647232, 23488102,
            "1m 48s"@, true),
        sample_record(2, "blender-setup.exe"@, "https://download.blender.org/release/blender.exe"@,
            DownloadKind::Direct, DownloadStatus::Queued, 0, 0, 327155712, 0, "Waiting"@, true),
        sample_record(3, "debian-netinst.torrent"@, "magnet:?xt=urn:btih:abcdef123456"@,
            DownloadKind::Torrent, DownloadStatus::Completed, 10000, 674234368, 674234368, 0, "Done"@,
            false),
        sample_record(4, "project-spec.pdf"@, "https://example.com/spec.pdf"@, DownloadKind::Direct,
            DownloadStatus::Completed, 10000, 15309209, 15309209, 0, "Done"@, false),
    ]
}

fn new_record(
    id: u64,
    file_name: &str,
    source: &str,
    kind: DownloadKind,
    status: DownloadStatus,
    progress: u32,
    downloaded: u64,
    total: u64,
    speed: u64,
    eta: &str,
    added_from_browser: bool,
) -> (r: DownloadRecord)
    ensures
        r@ == sample_record(id, file_name@, source@, kind, status, progress, downloaded, total, speed, eta@, added_from_browser),
{
    DownloadRecord {
        id,
        request: DownloadRequest::new(file_name.to_owned(), source.to_owned(), kind),
        status,
        progress_basis_points: progress,
        downloaded_bytes: downloaded,
        total_bytes: total,
        speed_bytes_per_sec: speed,
        eta_text: eta.to_owned(),
        added_from_browser,
    }
}

pub fn sample_snapshot(downloads_root: &str) -> (r: AppSnapshot)
    ensures
        r.downloads_root@ == downloads_root@,
        categories_view(r.categories@) == default_categories_view(),
        queue_view(r.queue@) == sample_queue_view(),
{
    let mut queue: Vec<DownloadRecord> = Vec::new();
    queue.push(new_record(1, "ubuntu-24.04.iso", "https://releases.ubuntu.com/24.04/ubuntu.iso",
        DownloadKind::Direct, DownloadStatus::Downloading, 6140, 3030384640, 4935647232, 23488102,
        "1m 48s", true));
    queue.push(new_record(2, "blender-setup.exe", "https://download.blender.org/release/blender.exe",
        DownloadKind::Direct, DownloadStatus::Queued, 0, 0, 327155712, 0, "Waiting", true));
    queue.push(new_record(3, "debian-netinst.torrent", "magnet:?xt=urn:btih:abcdef123456",
        DownloadKind::Torrent, DownloadStatus::Completed, 10000, 674234368, 674234368, 0, "Done", false));
    queue.push(new_record(4, "project-spec.pdf", "https://example.com/spec.pdf", DownloadKind::Direct,
        DownloadStatus::Completed, 10000, 15309209, 15309209, 0, "Done", false));
    assert(queue_view(queue@) =~= sample_queue_view());
    AppSnapshot { downloads_root: downloads_root.to_owned(), categories: default_download_categories(), queue }
}

// ---------------------------------------------------------------- counts over a snapshot

/// How many records are downloading or paused.
pub open spec fn active_in(q: Seq<RecordView>) -> nat
    decreases q.len(),
{
    if q.len() == 0 {
        0
    } else {
        active_in(q.drop_last()) + if visible_in(q.last(), QueueView::Active) {
            1nat
        } else {
            0nat
        }
    }
}

pub fn active_count(snapshot: &AppSnapshot) -> (r: usize)
    ensures
        r == active_in(queue_view(snapshot.queue@)),
{
    let ghost q = queue_view(snapshot.queue@);
    let mut count: usize = 0;
    let mut i: usize = 0;
    while i < snapshot.queue.len()
        invariant
            q == queue_view(snapshot.queue@),
            i <= snapshot.queue.len(),
            count == active_in(q.take(i as int)),
            count <= i,
        decreases snapshot.queue.len() - i,
    {
        assert(q.take(i + 1).drop_last() =~= q.take(i as int));
        if snapshot.queue[i].is_visible_in(QueueView::Active) {
            count += 1;
        }
        i += 1;
    }
    assert(q.take(q.len() as int) =~= q);
    count
}

/// The bytes downloaded over all records.
pub open spec fn downloaded_in(q: Seq<RecordView>) -> nat
    decreases q.len(),
{
    if q.len() == 0 {
        0
    } else {
        downloaded_in(q.drop_last()) + (q.last().downloaded as nat)
    }
}

/// The bytes downloaded over the whole queue.
pub fn total_downloaded_bytes(snapshot: &AppSnapshot) -> (r: u128)
    ensures
        r == downloaded_in(queue_view(snapshot.queue@)),
{
    let ghost q = queue_view(snapshot.queue@);
    let mut sum: u128 = 0;
    let mut i: usize = 0;
    while i < snapshot.queue.len()
        invariant
            q == queue_view(snapshot.queue@),
            i <= snapshot.queue.len(),
            sum == downloaded_in(q.take(i as int)),
            sum <= i * (u64::MAX as int),
        decreases snapshot.queue.len() - i,
    {
        assert(q.take(i + 1).drop_last() =~= q.take(i as int));
        assert(i * (u64::MAX as int) + u64::MAX <= u128::MAX) by (nonlinear_arith)
            requires
                i < usize::MAX,
        ;
        sum = sum + snapshot.queue[i].downloaded_bytes as u128;
        assert(sum <= (i + 1) * (u64::MAX as int)) by (nonlinear_arith)
            requires
                sum <= i * (u64::MAX as int) + u64::MAX,
        ;
        i += 1;
    }
    assert(q.take(q.len() as int) =~= q);
    sum
}

// ---------------------------------------------------------------- record transitions

pub open spec fn resume_speed() -> u64 {
    8912896
}

pub open spec fn direct_start_speed() -> u64 {
    9646899
}

pub open spec fn direct_default_total() -> u64 {
    134217728
}

pub open spec fn torrent_default_total() -> u64 {
    805306368
}

/// Pausing stops a running download; anything else is left as it is.
pub open spec fn paused(r: RecordView) -> RecordView {
    if r.status == DownloadStatus::Downloading {
        RecordView { status: DownloadStatus::Paused, speed: 0, eta: "Paused"@, ..r }
    } else {
        r
    }
}

/// Resuming restarts a paused or queued download, with a nominal speed if it had none.
pub open spec fn resumed(r: RecordView) -> RecordView {
    if r.status == DownloadStatus::Paused || r.status == DownloadStatus::Queued {
        RecordView {
            status: DownloadStatus::Downloading,
            speed: if r.speed == 0 {
                resume_speed()
            } else {
                r.speed
            },
            eta: "Resuming"@,
            ..r
        }
    } else {
        r
    }
}

pub open spec fn completed(r: RecordView) -> RecordView {
    RecordView {
        status: DownloadStatus::Completed,
        progress: 10000,
        downloaded: if r.total > r.downloaded {
            r.total
        } else {
            r.downloaded
        },
        speed: 0,
        eta: "Done"@,
        ..r
    }
}

pub open spec fn failed(r: RecordView, reason: Seq<char>) -> RecordView {
    RecordView { status: DownloadStatus::Failed, speed: 0, eta: reason, ..r }
}

pub open spec fn context_cleared(r: RecordView) -> RecordView {
    RecordView { request: request_cleared(r.request), ..r }
}

pub open spec fn source_redacted(r: RecordView) -> RecordView {
    RecordView { request: request_redacted(r.request), ..r }
}

pub open spec fn with_total(r: RecordView, total: Option<u64>) -> RecordView {
    RecordView {
        total: match total {
            Some(t) => t,
            None => r.total,
        },
        status: DownloadStatus::Downloading,
        eta: "Starting"@,
        ..r
    }
}

/// Whole seconds for `remaining` bytes at `bps` bytes per second, rounded to the
/// nearest and ties to even, as `{:.0}` prints the quotient.
pub open spec fn rounded_seconds(remaining: nat, bps: nat) -> nat {
    let q = remaining / bps;
    let rem = remaining % bps;
    if 2 * rem > bps || (2 * rem == bps && q % 2 == 1) {
        q + 1
    } else {
        q
    }
}

/// Hundredths of a percent of `downloaded` out of `total`, capped at the largest `u32`.
pub open spec fn ratio_basis_points(downloaded: u64, total: u64) -> u32 {
    if (downloaded as int) * 10000 / (total as int) > u32::MAX {
        u32::MAX
    } else {
        ((downloaded as int) * 10000 / (total as int)) as u32
    }
}

pub open spec fn eta_for(downloaded: u64, total: Option<u64>, bps: u64) -> Seq<char> {
    match total {
        Some(t) => if bps > 0 {
            decimal(rounded_seconds(if t >= downloaded { (t - downloaded) as nat } else { 0 }, bps as nat))
                + "s remaining"@
        } else {
            "Calculating"@
        },
        None => "Streaming"@,
    }
}

/// A progress report from the direct worker.
pub open spec fn with_download_progress(r: RecordView, downloaded: u64, total: Option<u64>, bps: u64) -> RecordView {
    RecordView {
        status: DownloadStatus::Downloading,
        downloaded,
        total: match total {
            Some(t) => t,
            None => r.total,
        },
        progress: match total {
            Some(t) => if t > 0 {
                ratio_basis_points(downloaded, t)
            } else {
                r.progress
            },
            None => r.progress,
        },
        speed: bps,
        eta: eta_for(downloaded, total, bps),
        ..r
    }
}

/// A progress report from a torrent engine.
pub open spec fn with_torrent_progress(
    r: RecordView,
    progress: u32,
    downloaded: u64,
    total: u64,
    rate: u64,
    peers: u32,
    eta: Seq<char>,
) -> RecordView {
    RecordView {
        status: DownloadStatus::Downloading,
        progress: if progress > 10000 {
            10000
        } else {
            progress
        },
        downloaded,
        total,
        speed: rate,
        eta: eta + " | "@ + decimal(peers as nat) + " peers"@,
        ..r
    }
}

pub open spec fn started_direct(r: RecordView) -> RecordView {
    RecordView {
        status: DownloadStatus::Downloading,
        speed: direct_start_speed(),
        total: if r.total == 0 {
            direct_default_total()
        } else {
            r.total
        },
        eta: "Connecting"@,
        ..r
    }
}

pub open spec fn started_torrent(r: RecordView) -> RecordView {
    RecordView {
        status: DownloadStatus::Downloading,
        speed: 0,
        total: if r.total == 0 {
            torrent_default_total()
        } else {
            r.total
        },
        eta: "Contacting trackers"@,
        ..r
    }
}

// ---------------------------------------------------------------- queue-level specs

/// The position of the first record with `id`.
pub open spec fn find_id(q: Seq<RecordView>, id: u64) -> Option<int> {
    first_where(q, |r: RecordView| r.id == id)
}

/// The queue with `f` applied to the first record with `id`; unchanged where there is none.
pub open spec fn update_first(q: Seq<RecordView>, id: u64, f: spec_fn(RecordView) -> RecordView) -> Seq<RecordView> {
    match find_id(q, id) {
        Some(i) => q.update(i, f(q[i])),
        None => q,
    }
}

/// The first record of `kind` that is waiting.
pub open spec fn find_queued(q: Seq<RecordView>, kind: DownloadKind) -> Option<int> {
    first_where(q, |r: RecordView| r.request.kind == kind && r.status == DownloadStatus::Queued)
}

/// The queue without the records that carry `id`.
pub open spec fn without_id(q: Seq<RecordView>, id: u64) -> Seq<RecordView>
    decreases q.len(),
{
    if q.len() == 0 {
        Seq::empty()
    } else if q.last().id == id {
        without_id(q.drop_last(), id)
    } else {
        without_id(q.drop_last(), id).push(q.last())
    }
}

/// Whether some record carries `id`.
pub open spec fn has_id(q: Seq<RecordView>, id: u64) -> bool {
    exists|i: int| 0 <= i < q.len() && (#[trigger] q[i]).id == id
}

/// The largest id in the queue, 0 for an empty one.
pub open spec fn max_id(q: Seq<RecordView>) -> u64
    decreases q.len(),
{
    if q.len() == 0 {
        0
    } else if q.last().id > max_id(q.drop_last()) {
        q.last().id
    } else {
        max_id(q.drop_last())
    }
}

/// One step of the demo animation for a single record.
pub open spec fn ticked(r: RecordView) -> RecordView {
    if r.status == DownloadStatus::Downloading {
        let p: u32 = if r.progress >= 10000 - 240 {
            10000
        } else {
            (r.progress + 240) as u32
        };
        let downloaded = if r.total > 0 {
            ((r.total as int) * (p as int) / 10000) as u64
        } else {
            r.downloaded
        };
        if p >= 10000 {
            RecordView { progress: p, downloaded, ..r }
        } else {
            RecordView { progress: p, downloaded, eta: "Updating"@, ..r }
        }
    } else if r.status == DownloadStatus::Queued {
        RecordView { eta: "Waiting"@, ..r }
    } else {
        r
    }
}

/// The ids of the records that the animation step brings to 100%, in queue order.
pub open spec fn finishing_ids(q: Seq<RecordView>) -> Seq<u64>
    decreases q.len(),
{
    if q.len() == 0 {
        Seq::empty()
    } else {
        let rest = finishing_ids(q.drop_last());
        if q.last().status == DownloadStatus::Downloading && ticked(q.last()).progress >= 10000 {
            rest.push(q.last().id)
        } else {
            rest
        }
    }
}

/// Completes the first record with each id of `ids`, in order.
pub open spec fn complete_all(q: Seq<RecordView>, ids: Seq<u64>) -> Seq<RecordView>
    decreases ids.len(),
{
    if ids.len() == 0 {
        q
    } else {
        update_first(complete_all(q, ids.drop_last()), ids.last(), |r: RecordView| completed(r))
    }
}

/// The demo animation: every record is stepped, then the records that reached
/// 100% are completed.
pub open spec fn ticked_queue(q: Seq<RecordView>) -> Seq<RecordView> {
    complete_all(ticked_records(q), finishing_ids(q))
}

/// Every record stepped once.
pub open spec fn ticked_records(q: Seq<RecordView>) -> Seq<RecordView> {
    q.map_values(|r: RecordView| ticked(r))
}

// ---------------------------------------------------------------- record-level steps

fn pause_record(r: &mut DownloadRecord)
    ensures
        final(r)@ == paused(old(r)@),
{
    if r.status == DownloadStatus::Downloading {
        r.status = DownloadStatus::Paused;
        r.speed_bytes_per_sec = 0;
        r.eta_text = "Paused".to_owned();
    }
}

fn resume_record(r: &mut DownloadRecord)
    ensures
        final(r)@ == resumed(old(r)@),
{
    if r.status == DownloadStatus::Paused || r.status == DownloadStatus::Queued {
        r.status = DownloadStatus::Downloading;
        if r.speed_bytes_per_sec == 0 {
            r.speed_bytes_per_sec = 8912896;
        }
        r.eta_text = "Resuming".to_owned();
    }
}

fn complete_record(r: &mut DownloadRecord)
    ensures
        final(r)@ == completed(old(r)@),
{
    r.status = DownloadStatus::Completed;
    r.progress_basis_points = 10000;
    if r.total_bytes > r.downloaded_bytes {
        r.downloaded_bytes = r.total_bytes;
    }
    r.speed_bytes_per_sec = 0;
    r.eta_text = "Done".to_owned();
}

/// `{:.0}` of `remaining / bps`: the nearest whole number, ties to even.
pub fn rounded_seconds_exec(remaining: u64, bps: u64) -> (r: u64)
    requires
        bps > 0,
    ensures
        r == rounded_seconds(remaining as nat, bps as nat),
{
    let q = remaining / bps;
    let rem = remaining % bps;
    let twice = (rem as u128) * 2;
    if twice > bps as u128 || (twice == bps as u128 && q % 2 == 1) {
        assert(q + 1 <= u64::MAX) by (nonlinear_arith)
            requires
                q == remaining / bps,
                bps > 0,
                remaining <= u64::MAX,
                rem == remaining % bps,
                rem > 0,
        ;
        q + 1
    } else {
        q
    }
}

fn progress_record(r: &mut DownloadRecord, downloaded_bytes: u64, total_bytes: Option<u64>, bytes_per_second: u64)
    ensures
        final(r)@ == with_download_progress(old(r)@, downloaded_bytes, total_bytes, bytes_per_second),
{
    r.status = DownloadStatus::Downloading;
    r.downloaded_bytes = downloaded_bytes;
    if let Some(total) = total_bytes {
        r.total_bytes = total;
        if total > 0 {
            let ratio = (downloaded_bytes as u128) * 10000 / (total as u128);
            r.progress_basis_points = if ratio > u32::MAX as u128 {
                u32::MAX
            } else {
                ratio as u32
            };
        }
    }
    r.speed_bytes_per_sec = bytes_per_second;
    r.eta_text = match total_bytes {
        Some(total) => {
            if bytes_per_second > 0 {
                let remaining = if total >= downloaded_bytes {
                    total - downloaded_bytes
                } else {
                    0
                };
                let mut text = decimal_string(rounded_seconds_exec(remaining, bytes_per_second));
                push_str(&mut text, "s remaining");
                text
            } else {
                "Calculating".to_owned()
            }
        },
        None => "Streaming".to_owned(),
    };
}

fn torrent_progress_record(
    r: &mut DownloadRecord,
    progress_basis_points: u32,
    downloaded_bytes: u64,
    total_bytes: u64,
    rate_bytes_per_sec: u64,
    peers: u32,
    eta_text: &str,
)
    ensures
        final(r)@ == with_torrent_progress(old(r)@, progress_basis_points, downloaded_bytes, total_bytes, rate_bytes_per_sec, peers, eta_text@),
{
    r.status = DownloadStatus::Downloading;
    r.progress_basis_points = if progress_basis_points > 10000 {
        10000
    } else {
        progress_basis_points
    };
    r.downloaded_bytes = downloaded_bytes;
    r.total_bytes = total_bytes;
    r.speed_bytes_per_sec = rate_bytes_per_sec;
    let mut text = eta_text.to_owned();
    push_str(&mut text, " | ");
    let digits = decimal_string(peers as u64);
    push_str(&mut text, digits.as_str());
    push_str(&mut text, " peers");
    r.eta_text = text;
}

fn tick_record(r: &mut DownloadRecord) -> (finished: bool)
    ensures
        final(r)@ == ticked(old(r)@),
        finished == (old(r)@.status == DownloadStatus::Downloading && ticked(old(r)@).progress >= 10000),
{
    if r.status == DownloadStatus::Downloading {
        let p: u32 = if r.progress_basis_points >= 10000 - 240 {
            10000
        } else {
            r.progress_basis_points + 240
        };
        r.progress_basis_points = p;
        if r.total_bytes > 0 {
            assert((r.total_bytes as u128) * (p as u128) <= u128::MAX) by (nonlinear_arith)
                requires
                    p <= 10000,
            ;
            let d = (r.total_bytes as u128) * (p as u128) / 10000;
            assert(d <= r.total_bytes) by (nonlinear_arith)
                requires
                    d == (r.total_bytes as int) * (p as int) / 10000,
                    p <= 10000,
            ;
            r.downloaded_bytes = d as u64;
        }
        if p >= 10000 {
            true
        } else {
            r.eta_text = "Updating".to_owned();
            false
        }
    } else {
        if r.status == DownloadStatus::Queued {
            r.eta_text = "Waiting".to_owned();
        }
        false
    }
}

// ---------------------------------------------------------------- restoring a saved queue

/// A record as the queue shows it after a restart: a torrent that was seeding
/// counts as completed, with no speed.
pub open spec fn settled(r: RecordView) -> RecordView {
    if r.status == DownloadStatus::Seeding {
        RecordView { status: DownloadStatus::Completed, speed: 0, eta: "Done"@, ..r }
    } else {
        r
    }
}

pub open spec fn settled_queue(q: Seq<RecordView>) -> Seq<RecordView> {
    q.map_values(|r: RecordView| settled(r))
}

/// The snapshot to start from: the one read back from disk, if any, with its
/// seeding torrents settled; else the sample queue under `downloads_root`.
pub fn load_snapshot_or_sample(loaded: Option<AppSnapshot>, downloads_root: &str) -> (r: AppSnapshot)
    ensures
        match loaded {
            Some(s) => {
                &&& r.downloads_root == s.downloads_root
                &&& r.categories == s.categories
                &&& queue_view(r.queue@) == settled_queue(queue_view(s.queue@))
            },
            None => {
                &&& r.downloads_root@ == downloads_root@
                &&& categories_view(r.categories@) == default_categories_view()
                &&& queue_view(r.queue@) == sample_queue_view()
            },
        },
{
    match loaded {
        Some(snapshot) => {
            let mut snapshot = snapshot;
            let ghost before = queue_view(snapshot.queue@);
            let ghost root = snapshot.downloads_root;
            let ghost categories = snapshot.categories;
            let mut i: usize = 0;
            while i < snapshot.queue.len()
                invariant
                    snapshot.downloads_root == root,
                    snapshot.categories == categories,
                    queue_view(snapshot.queue@).len() == before.len(),
                    i <= before.len(),
                    forall|j: int| 0 <= j < i ==> #[trigger] queue_view(snapshot.queue@)[j] == settled(before[j]),
                    forall|j: int| i <= j < before.len() ==> #[trigger] queue_view(snapshot.queue@)[j] == before[j],
                decreases before.len() - i,
            {
                let ghost prev = queue_view(snapshot.queue@);
                if snapshot.queue[i].status == DownloadStatus::Seeding {
                    let item = &mut snapshot.queue[i];
                    item.status = DownloadStatus::Completed;
                    item.speed_bytes_per_sec = 0;
                    item.eta_text = "Done".to_owned();
                }
                assert(queue_view(snapshot.queue@) =~= prev.update(i as int, settled(prev[i as int])));
                i += 1;
            }
            assert(queue_view(snapshot.queue@) =~= settled_queue(before));
            snapshot
        },
        None => sample_snapshot(downloads_root),
    }
}

/// After a restart no record is left seeding, and every record keeps its id.
pub proof fn lemma_restored_queue_has_no_seeding(q: Seq<RecordView>)
    ensures
        settled_queue(q).len() == q.len(),
        forall|j: int| 0 <= j < q.len() ==> (#[trigger] settled_queue(q)[j]).status != DownloadStatus::Seeding,
        forall|j: int| 0 <= j < q.len() ==> (#[trigger] settled_queue(q)[j]).id == q[j].id,
        settled_queue(settled_queue(q)) == settled_queue(q),
{
    assert(settled_queue(settled_queue(q)) =~= settled_queue(q));
}

// ---------------------------------------------------------------- the manager

/// The queue with the id counter that numbers new jobs.
pub struct QueueManager {
    snapshot: AppSnapshot,
    next_id: u64,
}

impl QueueManager {
    /// The snapshot the manager holds.
    pub closed spec fn state(&self) -> AppSnapshot {
        self.snapshot
    }

    /// The records of the queue.
    pub closed spec fn records(&self) -> Seq<RecordView> {
        queue_view(self.snapshot.queue@)
    }

    /// The id the next added job gets.
    pub closed spec fn next_id_value(&self) -> u64 {
        self.next_id
    }

    /// Every record's id is below the next id, so a new job never reuses one.
    pub open spec fn wf(&self) -> bool {
        forall|i: int| 0 <= i < self.records().len() ==> (#[trigger] self.records()[i]).id < self.next_id_value()
    }

    /// The records are the views of the held snapshot's queue.
    pub proof fn lemma_records_state(&self)
        ensures
            self.records() == queue_view(self.state().queue@),
    {
    }

    fn position_of(&self, id: u64) -> (r: Option<usize>)
        ensures
            match r {
                Some(i) => i < self.snapshot.queue.len() && find_id(self.records(), id) == Some(i as int),
                None => find_id(self.records(), id) is None,
            },
    {
        let ghost q = self.records();
        let mut i: usize = 0;
        while i < self.snapshot.queue.len()
            invariant
                q == queue_view(self.snapshot.queue@),
                i <= self.snapshot.queue.len(),
                forall|j: int| 0 <= j < i ==> !(|r: RecordView| r.id == id)(#[trigger] q[j]),
            decreases self.snapshot.queue.len() - i,
        {
            if self.snapshot.queue[i].id == id {
                proof {
                    lemma_first_where(q, |r: RecordView| r.id == id, i as int);
                }
                return Some(i);
            }
            i += 1;
        }
        proof {
            lemma_first_where(q, |r: RecordView| r.id == id, i as int);
        }
        None
    }

    fn position_of_queued(&self, kind: DownloadKind) -> (r: Option<usize>)
        ensures
            match r {
                Some(i) => i < self.snapshot.queue.len() && find_queued(self.records(), kind) == Some(i as int),
                None => find_queued(self.records(), kind) is None,
            },
    {
        let ghost q = self.records();
        let ghost p = |r: RecordView| r.request.kind == kind && r.status == DownloadStatus::Queued;
        let mut i: usize = 0;
        while i < self.snapshot.queue.len()
            invariant
                q == queue_view(self.snapshot.queue@),
                p == (|r: RecordView| r.request.kind == kind && r.status == DownloadStatus::Queued),
                i <= self.snapshot.queue.len(),
                forall|j: int| 0 <= j < i ==> !p(#[trigger] q[j]),
            decreases self.snapshot.queue.len() - i,
        {
            if self.snapshot.queue[i].request.kind == kind && self.snapshot.queue[i].status == DownloadStatus::Queued {
                proof {
                    lemma_first_where(q, p, i as int);
                }
                return Some(i);
            }
            i += 1;
        }
        proof {
            lemma_first_where(q, p, i as int);
        }
        None
    }

    pub fn new(snapshot: AppSnapshot) -> (r: Self)
        requires
            forall|i: int| 0 <= i < snapshot.queue@.len() ==> (#[trigger] snapshot.queue@[i]).id < u64::MAX,
        ensures
            r.wf(),
            r.state() == snapshot,
            r.next_id_value() == max_id(queue_view(snapshot.queue@)) + 1,
    {
        let ghost q = queue_view(snapshot.queue@);
        assert forall|j: int| 0 <= j < q.len() implies (#[trigger] q[j]).id < u64::MAX by {
            assert(q[j] == snapshot.queue@[j]@);
        }
        let mut max: u64 = 0;
        let mut i: usize = 0;
        while i < snapshot.queue.len()
            invariant
                q == queue_view(snapshot.queue@),
                q.len() == snapshot.queue.len(),
                i <= snapshot.queue.len(),
                max == max_id(q.take(i as int)),
                max < u64::MAX,
                forall|j: int| 0 <= j < i ==> (#[trigger] q[j]).id <= max,
                forall|j: int| 0 <= j < q.len() ==> (#[trigger] q[j]).id < u64::MAX,
            decreases snapshot.queue.len() - i,
        {
            assert(q.take(i + 1).drop_last() =~= q.take(i as int));
            let id = snapshot.queue[i].id;
            assert(id == q[i as int].id);
            if id > max {
                max = id;
            }
            i += 1;
        }
        assert(q.take(q.len() as int) =~= q);
        let r = QueueManager { snapshot, next_id: max + 1 };
        assert(r.records() == q);
        r
    }

    /// The id the next added job gets.
    pub fn next_id(&self) -> (r: u64)
        ensures
            r == self.next_id_value(),
    {
        self.next_id
    }

    pub fn snapshot(&self) -> (r: &AppSnapshot)
        ensures
            *r == self.state(),
    {
        &self.snapshot
    }

    pub fn get_record(&self, id: u64) -> (r: Option<&DownloadRecord>)
        ensures
            match find_id(self.records(), id) {
                Some(i) => r matches Some(rec) && rec@ == self.records()[i],
                None => r is None,
            },
    {
        match self.position_of(id) {
            Some(i) => Some(&self.snapshot.queue[i]),
            None => None,
        }
    }

    pub fn add_download(&mut self, file_name: String, source: String, kind: DownloadKind, added_from_browser: bool) -> (id: u64)
        requires
            old(self).wf(),
            old(self).next_id_value() < u64::MAX,
        ensures
            final(self).wf(),
            id == old(self).next_id_value(),
            final(self).next_id_value() == id + 1,
            final(self).records() == seq![RecordView {
                id,
                request: request_new(file_name@, source@, kind),
                status: DownloadStatus::Queued,
                progress: 0,
                downloaded: 0,
                total: 0,
                speed: 0,
                eta: "Waiting"@,
                added_from_browser,
            }] + old(self).records(),
            final(self).state().downloads_root == old(self).state().downloads_root,
            final(self).state().categories == old(self).state().categories,
    {
        self.add_download_request(DownloadRequest::new(file_name, source, kind), added_from_browser)
    }

    pub fn add_download_request(&mut self, request: DownloadRequest, added_from_browser: bool) -> (id: u64)
        requires
            old(self).wf(),
            old(self).next_id_value() < u64::MAX,
        ensures
            final(self).wf(),
            id == old(self).next_id_value(),
            final(self).next_id_value() == id + 1,
            final(self).records() == seq![RecordView {
                id,
                request: request@,
                status: DownloadStatus::Queued,
                progress: 0,
                downloaded: 0,
                total: 0,
                speed: 0,
                eta: "Waiting"@,
                added_from_browser,
            }] + old(self).records(),
            final(self).state().downloads_root == old(self).state().downloads_root,
            final(self).state().categories == old(self).state().categories,
    {
        let id = self.next_id;
        self.next_id = self.next_id + 1;
        let record = DownloadRecord {
            id,
            request,
            status: DownloadStatus::Queued,
            progress_basis_points: 0,
            downloaded_bytes: 0,
            total_bytes: 0,
            speed_bytes_per_sec: 0,
            eta_text: "Waiting".to_owned(),
            added_from_browser,
        };
        self.snapshot.queue.insert(0, record);
        assert(self.records() =~= seq![record@] + old(self).records());
        id
    }

    /// The manager's id counter, root and categories are as in `other`.
    pub open spec fn same_frame(&self, other: &QueueManager) -> bool {
        &&& self.next_id_value() == other.next_id_value()
        &&& self.state().downloads_root == other.state().downloads_root
        &&& self.state().categories == other.state().categories
    }

    pub fn pause(&mut self, id: u64)
        requires
            old(self).wf(),
        ensures
            final(self).wf(),
            final(self).same_frame(old(self)),
            final(self).records() == update_first(old(self).records(), id, |r: RecordView| paused(r)),
    {
        if let Some(i) = self.position_of(id) {
            pause_record(&mut self.snapshot.queue[i]);
            assert(self.records() =~= update_first(old(self).records(), id, |r: RecordView| paused(r)));
        }
        proof { lemma_update_keeps_ids(old(self).records(), id, |r: RecordView| paused(r)); }
    }

    pub fn resume(&mut self, id: u64)
        requires
            old(self).wf(),
        ensures
            final(self).wf(),
            final(self).same_frame(old(self)),
            final(self).records() == update_first(old(self).records(), id, |r: RecordView| resumed(r)),
    {
        if let Some(i) = self.position_of(id) {
            resume_record(&mut self.snapshot.queue[i]);
            assert(self.records() =~= update_first(old(self).records(), id, |r: RecordView| resumed(r)));
        }
        proof { lemma_update_keeps_ids(old(self).records(), id, |r: RecordView| resumed(r)); }
    }

    pub fn mark_completed(&mut self, id: u64)
        requires
            old(self).wf(),
        ensures
            final(self).wf(),
            final(self).same_frame(old(self)),
            final(self).records() == update_first(old(self).records(), id, |r: RecordView| completed(r)),
    {
        if let Some(i) = self.position_of(id) {
            complete_record(&mut self.snapshot.queue[i]);
            assert(self.records() =~= update_first(old(self).records(), id, |r: RecordView| completed(r)));
        }
        proof { lemma_update_keeps_ids(old(self).records(), id, |r: RecordView| completed(r)); }
    }

    pub fn clear_browser_metadata(&mut self, id: u64)
        requires
            old(self).wf(),
        ensures
            final(self).wf(),
            final(self).same_frame(old(self)),
            final(self).records() == update_first(old(self).records(), id, |r: RecordView| context_cleared(r)),
    {
        if let Some(i) = self.position_of(id) {
            self.snapshot.queue[i].request.clear_browser_context();
            assert(self.records() =~= update_first(old(self).records(), id, |r: RecordView| context_cleared(r)));
        }
        proof { lemma_update_keeps_ids(old(self).records(), id, |r: RecordView| context_cleared(r)); }
    }

    pub fn redact_torrent_source(&mut self, id: u64)
        requires
            old(self).wf(),
        ensures
            final(self).wf(),
            final(self).same_frame(old(self)),
            final(self).records() == update_first(old(self).records(), id, |r: RecordView| source_redacted(r)),
    {
        if let Some(i) = self.position_of(id) {
            self.snapshot.queue[i].request.redact_source_for_history();
            assert(self.records() =~= update_first(old(self).records(), id, |r: RecordView| source_redacted(r)));
        }
        proof { lemma_update_keeps_ids(old(self).records(), id, |r: RecordView| source_redacted(r)); }
    }

    pub fn clear_all_history(&mut self)
        requires
            old(self).wf(),
        ensures
            final(self).wf(),
            final(self).same_frame(old(self)),
            final(self).records() == Seq::<RecordView>::empty(),
    {
        self.snapshot.queue.clear();
        assert(self.records() =~= Seq::<RecordView>::empty());
    }

    pub fn fail(&mut self, id: u64, reason: &str)
        requires
            old(self).wf(),
        ensures
            final(self).wf(),
            final(self).same_frame(old(self)),
            final(self).records() == update_first(old(self).records(), id, |r: RecordView| failed(r, reason@)),
    {
        if let Some(i) = self.position_of(id) {
            let item = &mut self.snapshot.queue[i];
            item.status = DownloadStatus::Failed;
            item.speed_bytes_per_sec = 0;
            item.eta_text = reason.to_owned();
            assert(self.records() =~= update_first(old(self).records(), id, |r: RecordView| failed(r, reason@)));
        }
        proof { lemma_update_keeps_ids(old(self).records(), id, |r: RecordView| failed(r, reason@)); }
    }

    pub fn remove(&mut self, id: u64) -> (removed: bool)
        requires
            old(self).wf(),
        ensures
            final(self).wf(),
            final(self).same_frame(old(self)),
            final(self).records() == without_id(old(self).records(), id),
            removed == has_id(old(self).records(), id),
    {
        let ghost before = self.records();
        let mut old_queue: Vec<DownloadRecord> = Vec::new();
        std::mem::swap(&mut old_queue, &mut self.snapshot.queue);
        assert(queue_view(old_queue@) == before);
        let queue_len_before = old_queue.len();
        let mut kept: Vec<DownloadRecord> = Vec::new();
        for record in it: old_queue
            invariant
                it.seq() == old_queue@,
                queue_view(old_queue@) == before,
                queue_view(kept@) == without_id(before.take(it.index() as int), id),
        {
            let ghost k = it.index() as int;
            assert(before.take(k + 1).drop_last() =~= before.take(k));
            assert(before[k] == record@);
            if record.id != id {
                kept.push(record);
                assert(queue_view(kept@) =~= without_id(before.take(k + 1), id));
            }
        }
        assert(before.take(before.len() as int) =~= before);
        let removed = kept.len() != queue_len_before;
        self.snapshot.queue = kept;
        proof {
            lemma_without_id(before, id);
        }
        removed
    }

    pub fn apply_download_progress(&mut self, id: u64, downloaded_bytes: u64, total_bytes: Option<u64>, bytes_per_second: u64)
        requires
            old(self).wf(),
        ensures
            final(self).wf(),
            final(self).same_frame(old(self)),
            final(self).records() == update_first(
                old(self).records(),
                id,
                |r: RecordView| with_download_progress(r, downloaded_bytes, total_bytes, bytes_per_second),
            ),
    {
        if let Some(i) = self.position_of(id) {
            progress_record(&mut self.snapshot.queue[i], downloaded_bytes, total_bytes, bytes_per_second);
            assert(self.records() =~= update_first(
                old(self).records(),
                id,
                |r: RecordView| with_download_progress(r, downloaded_bytes, total_bytes, bytes_per_second),
            ));
        }
        proof {
            lemma_update_keeps_ids(
                old(self).records(),
                id,
                |r: RecordView| with_download_progress(r, downloaded_bytes, total_bytes, bytes_per_second),
            );
        }
    }

    pub fn set_total_bytes(&mut self, id: u64, total_bytes: Option<u64>)
        requires
            old(self).wf(),
        ensures
            final(self).wf(),
            final(self).same_frame(old(self)),
            final(self).records() == update_first(old(self).records(), id, |r: RecordView| with_total(r, total_bytes)),
    {
        if let Some(i) = self.position_of(id) {
            let item = &mut self.snapshot.queue[i];
            if let Some(total) = total_bytes {
                item.total_bytes = total;
            }
            item.status = DownloadStatus::Downloading;
            item.eta_text = "Starting".to_owned();
            assert(self.records() =~= update_first(old(self).records(), id, |r: RecordView| with_total(r, total_bytes)));
        }
        proof { lemma_update_keeps_ids(old(self).records(), id, |r: RecordView| with_total(r, total_bytes)); }
    }

    pub fn start_next_queued_direct(&mut self) -> (r: Option<u64>)
        requires
            old(self).wf(),
        ensures
            final(self).wf(),
            final(self).same_frame(old(self)),
            match find_queued(old(self).records(), DownloadKind::Direct) {
                Some(i) => r == Some(old(self).records()[i].id)
                    && final(self).records() == old(self).records().update(i, started_direct(old(self).records()[i])),
                None => r is None && final(self).records() == old(self).records(),
            },
    {
        match self.position_of_queued(DownloadKind::Direct) {
            Some(i) => {
                let item = &mut self.snapshot.queue[i];
                item.status = DownloadStatus::Downloading;
                item.speed_bytes_per_sec = 9646899;
                if item.total_bytes == 0 {
                    item.total_bytes = 134217728;
                }
                item.eta_text = "Connecting".to_owned();
                let id = item.id;
                assert(self.records() =~= old(self).records().update(i as int, started_direct(old(self).records()[i as int])));
                assert forall|j: int| 0 <= j < self.records().len() implies (#[trigger] self.records()[j]).id < self.next_id_value() by {
                    assert(self.records()[j].id == old(self).records()[j].id);
                }
                Some(id)
            },
            None => None,
        }
    }

    pub fn start_next_queued_torrent(&mut self) -> (r: Option<u64>)
        requires
            old(self).wf(),
        ensures
            final(self).wf(),
            final(self).same_frame(old(self)),
            match find_queued(old(self).records(), DownloadKind::Torrent) {
                Some(i) => r == Some(old(self).records()[i].id)
                    && final(self).records() == old(self).records().update(i, started_torrent(old(self).records()[i])),
                None => r is None && final(self).records() == old(self).records(),
            },
    {
        match self.position_of_queued(DownloadKind::Torrent) {
            Some(i) => {
                let item = &mut self.snapshot.queue[i];
                item.status = DownloadStatus::Downloading;
                item.speed_bytes_per_sec = 0;
                if item.total_bytes == 0 {
                    item.total_bytes = 805306368;
                }
                item.eta_text = "Contacting trackers".to_owned();
                let id = item.id;
                assert(self.records() =~= old(self).records().update(i as int, started_torrent(old(self).records()[i as int])));
                assert forall|j: int| 0 <= j < self.records().len() implies (#[trigger] self.records()[j]).id < self.next_id_value() by {
                    assert(self.records()[j].id == old(self).records()[j].id);
                }
                Some(id)
            },
            None => None,
        }
    }

    pub fn apply_torrent_progress(
        &mut self,
        id: u64,
        progress_basis_points: u32,
        downloaded_bytes: u64,
        total_bytes: u64,
        rate_bytes_per_sec: u64,
        peers: u32,
        eta_text: &str,
    )
        requires
            old(self).wf(),
        ensures
            final(self).wf(),
            final(self).same_frame(old(self)),
            final(self).records() == update_first(
                old(self).records(),
                id,
                |r: RecordView| with_torrent_progress(r, progress_basis_points, downloaded_bytes, total_bytes, rate_bytes_per_sec, peers, eta_text@),
            ),
    {
        if let Some(i) = self.position_of(id) {
            torrent_progress_record(
                &mut self.snapshot.queue[i],
                progress_basis_points,
                downloaded_bytes,
                total_bytes,
                rate_bytes_per_sec,
                peers,
                eta_text,
            );
            assert(self.records() =~= update_first(
                old(self).records(),
                id,
                |r: RecordView| with_torrent_progress(r, progress_basis_points, downloaded_bytes, total_bytes, rate_bytes_per_sec, peers, eta_text@),
            ));
        }
        proof {
            lemma_update_keeps_ids(
                old(self).records(),
                id,
                |r: RecordView| with_torrent_progress(r, progress_basis_points, downloaded_bytes, total_bytes, rate_bytes_per_sec, peers, eta_text@),
            );
        }
    }

    pub fn tick_demo_progress(&mut self)
        requires
            old(self).wf(),
        ensures
            final(self).wf(),
            final(self).same_frame(old(self)),
            final(self).records() == ticked_queue(old(self).records()),
    {
        let ghost before = self.records();
        let mut completed_ids: Vec<u64> = Vec::new();
        let mut i: usize = 0;
        while i < self.snapshot.queue.len()
            invariant
                self.same_frame(old(self)),
                before == old(self).records(),
                self.records().len() == before.len(),
                i <= before.len(),
                forall|j: int| 0 <= j < i ==> #[trigger] self.records()[j] == ticked(before[j]),
                forall|j: int| i <= j < before.len() ==> #[trigger] self.records()[j] == before[j],
                completed_ids@ == finishing_ids(before.take(i as int)),
            decreases before.len() - i,
        {
            assert(before.take(i + 1).drop_last() =~= before.take(i as int));
            let ghost prev = self.records();
            let finished = tick_record(&mut self.snapshot.queue[i]);
            assert(self.records() =~= prev.update(i as int, ticked(prev[i as int])));
            if finished {
                completed_ids.push(self.snapshot.queue[i].id);
            }
            i += 1;
        }
        assert(before.take(before.len() as int) =~= before);
        assert(self.records() =~= ticked_records(before));
        proof {
            lemma_ticked_keeps_ids(before);
        }
        let ghost stepped = self.records();
        let mut k: usize = 0;
        while k < completed_ids.len()
            invariant
                self.same_frame(old(self)),
                self.wf(),
                k <= completed_ids.len(),
                self.records() == complete_all(stepped, completed_ids@.take(k as int)),
            decreases completed_ids.len() - k,
        {
            assert(completed_ids@.take(k + 1).drop_last() =~= completed_ids@.take(k as int));
            self.mark_completed(completed_ids[k]);
            k += 1;
        }
        assert(completed_ids@.take(completed_ids@.len() as int) =~= completed_ids@);
    }
}

/// The id that the manager hands to the next added job is carried by no record.
pub proof fn lemma_next_id_is_fresh(m: &QueueManager)
    requires
        m.wf(),
    ensures
        !has_id(m.records(), m.next_id_value()),
{
}

/// An operation on the job with an id changes no other job: every record with
/// another id stays as it was, in its place.
pub proof fn lemma_update_touches_only_its_job(q: Seq<RecordView>, id: u64, f: spec_fn(RecordView) -> RecordView)
    ensures
        update_first(q, id, f).len() == q.len(),
        forall|j: int| 0 <= j < q.len() && (#[trigger] q[j]).id != id ==> update_first(q, id, f)[j] == q[j],
{
    lemma_find_id_in_range(q, id);
}

/// A job's progress stays within 100%: a direct report whose bytes do not pass
/// the total, a torrent report, the animation step and completion all leave it
/// at most 10000 hundredths of a percent.
pub proof fn lemma_progress_stays_within_bounds(
    r: RecordView,
    downloaded: u64,
    total: u64,
    bps: u64,
    torrent_progress: u32,
    rate: u64,
    peers: u32,
    eta: Seq<char>,
)
    requires
        r.progress <= 10000,
    ensures
        downloaded <= total ==> with_download_progress(r, downloaded, Some(total), bps).progress <= 10000,
        with_download_progress(r, downloaded, None, bps).progress == r.progress,
        with_torrent_progress(r, torrent_progress, downloaded, total, rate, peers, eta).progress <= 10000,
        ticked(r).progress <= 10000,
        completed(r).progress == 10000,
{
    if total > 0 && downloaded <= total {
        assert((downloaded as int) * 10000 / (total as int) <= 10000) by (nonlinear_arith)
            requires
                downloaded <= total,
                total > 0,
        ;
    }
}

/// Whether the animation step brings a record to 100%.
pub open spec fn finishes(r: RecordView) -> bool {
    r.status == DownloadStatus::Downloading && ticked(r).progress >= 10000
}

/// No two records carry the same id.
pub open spec fn ids_unique(q: Seq<RecordView>) -> bool {
    forall|i: int, j: int| 0 <= i < j < q.len() ==> (#[trigger] q[i]).id != (#[trigger] q[j]).id
}

proof fn lemma_complete_prefix(q: Seq<RecordView>, k: int)
    requires
        ids_unique(q),
        0 <= k <= q.len(),
    ensures
        complete_all(ticked_records(q), finishing_ids(q.take(k))).len() == q.len(),
        forall|j: int|
            0 <= j < q.len() ==> #[trigger] complete_all(ticked_records(q), finishing_ids(q.take(k)))[j] == (if j
                < k && finishes(q[j]) {
                completed(ticked(q[j]))
            } else {
                ticked(q[j])
            }),
    decreases k,
{
    let t = ticked_records(q);
    if k == 0 {
        assert(q.take(0) =~= Seq::<RecordView>::empty());
    } else {
        lemma_complete_prefix(q, k - 1);
        let prev = complete_all(t, finishing_ids(q.take(k - 1)));
        assert(q.take(k).drop_last() =~= q.take(k - 1));
        assert(q.take(k).last() == q[k - 1]);
        if finishes(q[k - 1]) {
            let id = q[k - 1].id;
            let ids = finishing_ids(q.take(k));
            assert(ids == finishing_ids(q.take(k - 1)).push(id));
            assert(ids.drop_last() =~= finishing_ids(q.take(k - 1)));
            assert forall|j: int| 0 <= j < k - 1 implies !(|r: RecordView| r.id == id)(#[trigger] prev[j]) by {
                assert(prev[j].id == q[j].id);
                assert(q[j].id != q[k - 1].id);
            }
            assert(prev[k - 1] == ticked(q[k - 1]));
            lemma_first_where(prev, |r: RecordView| r.id == id, k - 1);
            let next = complete_all(t, ids);
            assert(next == update_first(prev, id, |r: RecordView| completed(r)));
            assert(next == prev.update(k - 1, completed(prev[k - 1])));
        } else {
            assert(finishing_ids(q.take(k)) == finishing_ids(q.take(k - 1)));
        }
    }
}

/// The animation step, on a queue whose ids are distinct: every job is stepped
/// once, and exactly the running jobs that the step brings to 100% are completed.
pub proof fn lemma_tick_completes_finished_jobs(q: Seq<RecordView>)
    requires
        ids_unique(q),
    ensures
        ticked_queue(q).len() == q.len(),
        forall|j: int|
            0 <= j < q.len() ==> #[trigger] ticked_queue(q)[j] == (if finishes(q[j]) {
                completed(ticked(q[j]))
            } else {
                ticked(q[j])
            }),
{
    lemma_complete_prefix(q, q.len() as int);
    assert(q.take(q.len() as int) =~= q);
}

/// Replacing one record by another that is active exactly when it was leaves
/// the number of active records unchanged.
proof fn lemma_active_in_update(q: Seq<RecordView>, i: int, x: RecordView)
    requires
        0 <= i < q.len(),
        visible_in(x, QueueView::Active) == visible_in(q[i], QueueView::Active),
    ensures
        active_in(q.update(i, x)) == active_in(q),
    decreases q.len(),
{
    let u = q.update(i, x);
    if i < q.len() - 1 {
        assert(u.drop_last() =~= q.drop_last().update(i, x));
        lemma_active_in_update(q.drop_last(), i, x);
        assert(u.last() == q.last());
    } else {
        assert(u.drop_last() =~= q.drop_last());
    }
}

/// A paused job still counts as active: a job is listed under `Active` exactly
/// when it is downloading or paused, so pausing a job never changes how many
/// jobs are active.
pub proof fn lemma_pause_keeps_active_count(q: Seq<RecordView>, id: u64)
    ensures
        forall|r: RecordView| r.status == DownloadStatus::Paused ==> visible_in(r, QueueView::Active),
        forall|r: RecordView| r.status == DownloadStatus::Downloading ==> visible_in(r, QueueView::Active),
        forall|r: RecordView|
            visible_in(r, QueueView::Active) ==> r.status == DownloadStatus::Downloading || r.status
                == DownloadStatus::Paused,
        active_in(update_first(q, id, |r: RecordView| paused(r))) == active_in(q),
{
    lemma_find_id_in_range(q, id);
    match find_id(q, id) {
        Some(i) => {
            lemma_active_in_update(q, i, paused(q[i]));
        },
        None => {},
    }
}

/// Resuming starts a job that waits in the queue or is paused: it is
/// downloading afterwards, says `Resuming`, runs at some speed, and keeps its
/// id, request, progress and sizes.
pub proof fn lemma_resume_starts_waiting_jobs(r: RecordView)
    requires
        r.status == DownloadStatus::Queued || r.status == DownloadStatus::Paused,
    ensures
        resumed(r).status == DownloadStatus::Downloading,
        resumed(r).eta == "Resuming"@,
        resumed(r).speed > 0,
        resumed(r).id == r.id,
        resumed(r).request == r.request,
        resumed(r).progress == r.progress,
        resumed(r).downloaded == r.downloaded,
        resumed(r).total == r.total,
{
}

/// Removing an id that no record carries leaves the queue as it is.
proof fn lemma_without_absent_id(q: Seq<RecordView>, id: u64)
    requires
        !has_id(q, id),
    ensures
        without_id(q, id) == q,
    decreases q.len(),
{
    if q.len() > 0 {
        let p = q.drop_last();
        assert(!has_id(p, id)) by {
            if has_id(p, id) {
                let k = choose|k: int| 0 <= k < p.len() && (#[trigger] p[k]).id == id;
                assert(q[k] == p[k]);
            }
        }
        assert(q[q.len() - 1].id != id);
        lemma_without_absent_id(p, id);
        assert(p.push(q.last()) =~= q);
    }
}

/// Removing a job just added, under its fresh id, gives back the queue from
/// before the addition.
pub proof fn lemma_remove_undoes_add(q: Seq<RecordView>, added: RecordView)
    requires
        !has_id(q, added.id),
    ensures
        without_id(seq![added] + q, added.id) == q,
    decreases q.len(),
{
    let s = seq![added] + q;
    if q.len() == 0 {
        assert(s.drop_last() =~= Seq::<RecordView>::empty());
        assert(q =~= Seq::<RecordView>::empty());
        assert(s.len() == 1 && s.last() == added);
        assert(without_id(s, added.id) == without_id(s.drop_last(), added.id));
        assert(without_id(s, added.id) == q);
    } else {
        let p = q.drop_last();
        assert(s.drop_last() =~= seq![added] + p);
        assert(s.last() == q.last());
        assert(q[q.len() - 1].id != added.id);
        assert(!has_id(p, added.id)) by {
            if has_id(p, added.id) {
                let k = choose|k: int| 0 <= k < p.len() && (#[trigger] p[k]).id == added.id;
                assert(q[k] == p[k]);
            }
        }
        lemma_remove_undoes_add(p, added);
        assert(without_id(s.drop_last(), added.id) == p);
        assert(s.len() > 0 && s.last().id != added.id);
        assert(without_id(s, added.id) == without_id(s.drop_last(), added.id).push(s.last()));
        assert(p.push(q.last()) =~= q);
        assert(without_id(s, added.id) == q);
    }
}

/// The first record with an id comes before every other record with it.
proof fn lemma_find_id_first(q: Seq<RecordView>, id: u64)
    ensures
        find_id(q, id) matches Some(i) ==> forall|j: int| 0 <= j < i ==> (#[trigger] q[j]).id != id,
    decreases q.len(),
{
    if q.len() > 0 {
        lemma_find_id_first(q.drop_first(), id);
        lemma_find_id_in_range(q, id);
        match find_id(q, id) {
            Some(i) => {
                assert forall|j: int| 0 <= j < i implies (#[trigger] q[j]).id != id by {
                    if j > 0 {
                        assert(q[j] == q.drop_first()[j - 1]);
                    }
                }
            },
            None => {},
        }
    }
}

/// Two changes of the record with an id, the first keeping the id, are one
/// change made of both.
pub proof fn lemma_update_twice(
    q: Seq<RecordView>,
    id: u64,
    f: spec_fn(RecordView) -> RecordView,
    g: spec_fn(RecordView) -> RecordView,
)
    requires
        forall|r: RecordView| (#[trigger] f(r)).id == r.id,
    ensures
        update_first(update_first(q, id, f), id, g) == update_first(q, id, |r: RecordView| g(f(r))),
{
    lemma_find_id_in_range(q, id);
    lemma_find_id_first(q, id);
    match find_id(q, id) {
        Some(i) => {
            let q2 = q.update(i, f(q[i]));
            assert forall|j: int| 0 <= j < i implies !(|r: RecordView| r.id == id)(#[trigger] q2[j]) by {
                assert(q2[j] == q[j]);
            }
            lemma_first_where(q2, |r: RecordView| r.id == id, i);
            assert(update_first(q2, id, g) =~= q.update(i, g(f(q[i]))));
        },
        None => {},
    }
}

/// Pausing a job and then resuming it: the job with the id is changed once, by
/// both steps; a running job comes back running at the nominal resume speed,
/// with its progress, sizes and request as they were.
pub proof fn lemma_pause_then_resume(q: Seq<RecordView>, id: u64)
    ensures
        update_first(update_first(q, id, |r: RecordView| paused(r)), id, |r: RecordView| resumed(r))
            == update_first(q, id, |r: RecordView| resumed(paused(r))),
        forall|r: RecordView| r.status == DownloadStatus::Downloading ==> #[trigger] resumed(paused(r))
            == (RecordView { status: DownloadStatus::Downloading, speed: resume_speed(), eta: "Resuming"@, ..r }),
{
    lemma_update_twice(q, id, |r: RecordView| paused(r), |r: RecordView| resumed(r));
    let h1 = |r: RecordView| (|r: RecordView| resumed(r))((|r: RecordView| paused(r))(r));
    let h2 = |r: RecordView| resumed(paused(r));
    assert(h1 =~= h2);
}

/// A completed job stays as it is under pause, resume and the animation step.
pub proof fn lemma_completed_is_final(r: RecordView)
    requires
        r.status == DownloadStatus::Completed,
    ensures
        paused(r) == r,
        resumed(r) == r,
        ticked(r) == r,
        settled(r) == r,
{
}

/// Changing the first record with an id, in a way that keeps ids, keeps every id.
proof fn lemma_update_keeps_ids(q: Seq<RecordView>, id: u64, f: spec_fn(RecordView) -> RecordView)
    requires
        forall|r: RecordView| (#[trigger] f(r)).id == r.id,
    ensures
        update_first(q, id, f).len() == q.len(),
        forall|j: int| 0 <= j < q.len() ==> (#[trigger] update_first(q, id, f)[j]).id == q[j].id,
{
    lemma_find_id_in_range(q, id);
}

proof fn lemma_find_id_in_range(q: Seq<RecordView>, id: u64)
    ensures
        find_id(q, id) matches Some(i) ==> 0 <= i < q.len() && q[i].id == id,
        find_id(q, id) is None ==> !has_id(q, id),
    decreases q.len(),
{
    if q.len() > 0 {
        lemma_find_id_in_range(q.drop_first(), id);
        if find_id(q, id) is None {
            assert forall|i: int| 0 <= i < q.len() implies (#[trigger] q[i]).id != id by {
                if i > 0 {
                    assert(q[i] == q.drop_first()[i - 1]);
                }
            }
        }
    }
}

proof fn lemma_ticked_keeps_ids(q: Seq<RecordView>)
    ensures
        ticked_records(q).len() == q.len(),
        forall|j: int| 0 <= j < q.len() ==> (#[trigger] ticked_records(q)[j]).id == q[j].id,
{
}

/// Removing an id keeps exactly the other records, and shortens the queue
/// exactly when some record carried the id.
pub proof fn lemma_without_id(q: Seq<RecordView>, id: u64)
    ensures
        without_id(q, id).len() <= q.len(),
        (without_id(q, id).len() != q.len()) == has_id(q, id),
        forall|j: int| 0 <= j < without_id(q, id).len() ==> (#[trigger] without_id(q, id)[j]).id != id,
        forall|j: int| #![trigger without_id(q, id)[j]] 0 <= j < without_id(q, id).len() ==> exists|k: int| 0 <= k < q.len() && #[trigger] q[k] == without_id(q, id)[j],
    decreases q.len(),
{
    if q.len() > 0 {
        let p = q.drop_last();
        lemma_without_id(p, id);
        if has_id(p, id) {
            let k = choose|k: int| 0 <= k < p.len() && (#[trigger] p[k]).id == id;
            assert(q[k] == p[k]);
        }
        if has_id(q, id) && !has_id(p, id) {
            let k = choose|k: int| 0 <= k < q.len() && (#[trigger] q[k]).id == id;
            if k < p.len() {
                assert(p[k] == q[k]);
            }
        }
        let w = without_id(q, id);
        assert forall|j: int| #![trigger w[j]] 0 <= j < w.len() implies exists|k: int| 0 <= k < q.len() && #[trigger] q[k] == w[j] by {
            if j < without_id(p, id).len() {
                let k = choose|k: int| 0 <= k < p.len() && #[trigger] p[k] == without_id(p, id)[j];
                assert(q[k] == p[k]);
            } else {
                assert(q[q.len() - 1] == w[j]);
            }
        }
    }
}

} // verus!
