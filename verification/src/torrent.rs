//! Torrent jobs: where their data goes, the session record, and the simulated engine's progress.
use vstd::prelude::*;
use crate::categories::categories_view;
use crate::direct::replace_reserved;
use crate::model::{DownloadCategory, DownloadPlan, DownloadRequest, TorrentFileEntry, TorrentSessionSnapshot};
use crate::planner::{plan_download, plan_view};
use crate::text::{chars_of, concat2, concat3, decimal, decimal_string, ends_with, find_first, first_occurrence, has_suffix, push_str, string_from_range};

verus! {

/// Where a torrent job keeps its data and its session record.
#[derive(Debug, Clone, PartialEq, Eq)]
pub struct TorrentTaskPlan {
    pub target: DownloadPlan,
    pub session_file_path: String,
    pub data_root: String,
    pub magnet_uri: String,
    pub suggested_name: String,
}

/// One step of the simulated engine. Progress is in hundredths of a percent and
/// rates in bytes per second.
#[derive(Debug, Clone, PartialEq, Eq)]
pub struct TorrentProgress {
    pub progress_basis_points: u32,
    pub download_rate_bytes_per_sec: u64,
    pub upload_rate_bytes_per_sec: u64,
    pub connected_peers: u32,
    pub eta_text: String,
}

/// `s` with every trailing copy of `p` removed (`str::trim_end_matches`).
pub open spec fn trim_end_all(s: Seq<char>, p: Seq<char>) -> Seq<char>
    decreases s.len(),
{
    if p.len() > 0 && ends_with(s, p) {
        trim_end_all(s.subrange(0, s.len() - p.len()), p)
    } else {
        s
    }
}

/// A torrent's folder name: reserved characters become `_` and trailing
/// `.torrent` suffixes go.
pub open spec fn torrent_name_view(name: Seq<char>) -> Seq<char> {
    trim_end_all(replace_reserved(name), ".torrent"@)
}

pub fn sanitize_torrent_name(name: &str) -> (r: String)
    ensures
        r@ == torrent_name_view(name@),
{
    let chars = chars_of(name);
    let mut mapped: Vec<char> = Vec::new();
    let mut i: usize = 0;
    while i < chars.len()
        invariant
            i <= chars.len(),
            chars@ == name@,
            mapped@ == replace_reserved(chars@.take(i as int)),
        decreases chars.len() - i,
    {
        let c = chars[i];
        let d = if c == '<' || c == '>' || c == ':' || c == '"' || c == '/' || c == '\\' || c
            == '|' || c == '?' || c == '*' {
            '_'
        } else {
            c
        };
        mapped.push(d);
        assert(replace_reserved(chars@.take(i + 1)) =~= replace_reserved(chars@.take(i as int)).push(d));
        i += 1;
    }
    assert(chars@.take(chars.len() as int) =~= chars@);
    let suffix = chars_of(".torrent");
    proof {
        reveal_strlit(".torrent");
    }
    let mut end = mapped.len();
    let mut current = string_from_range(&mapped, 0, end);
    let mut current_chars = chars_of(current.as_str());
    assert(mapped@.subrange(0, end as int) =~= mapped@);
    while has_suffix(&current_chars, &suffix)
        invariant
            suffix@ == ".torrent"@,
            suffix@.len() == 8,
            end <= mapped.len(),
            current@ == mapped@.subrange(0, end as int),
            current_chars@ == current@,
            trim_end_all(current@, suffix@) == torrent_name_view(name@),
        decreases end,
    {
        end = end - suffix.len();
        assert(mapped@.subrange(0, end as int) =~= current_chars@.subrange(0, current_chars@.len() - 8));
        current = string_from_range(&mapped, 0, end);
        current_chars = chars_of(current.as_str());
    }
    current
}

/// The text after the first `btih:` of a magnet link, up to the next `btih:` and
/// then up to the first `&`; `pending-info-hash` where there is no `btih:`.
pub open spec fn info_hash_view(magnet: Seq<char>) -> Seq<char> {
    match first_occurrence(magnet, "btih:"@) {
        None => "pending-info-hash"@,
        Some(k) => {
            let rest = magnet.subrange(k + 5, magnet.len() as int);
            let segment = match first_occurrence(rest, "btih:"@) {
                Some(j) => rest.subrange(0, j),
                None => rest,
            };
            match first_occurrence(segment, "&"@) {
                Some(j) => segment.subrange(0, j),
                None => segment,
            }
        },
    }
}

fn prefix_before(v: &Vec<char>, pattern: &str) -> (r: Vec<char>)
    ensures
        r@ == match first_occurrence(v@, pattern@) {
            Some(j) => v@.subrange(0, j),
            None => v@,
        },
{
    let p = chars_of(pattern);
    match find_first(v, &p) {
        Some(j) => chars_of(string_from_range(v, 0, j).as_str()),
        None => {
            let r = chars_of(string_from_range(v, 0, v.len()).as_str());
            assert(v@.subrange(0, v@.len() as int) =~= v@);
            r
        },
    }
}

pub fn extract_info_hash(magnet_uri: &str) -> (r: String)
    ensures
        r@ == info_hash_view(magnet_uri@),
{
    let chars = chars_of(magnet_uri);
    let marker = chars_of("btih:");
    proof {
        reveal_strlit("btih:");
    }
    match find_first(&chars, &marker) {
        None => "pending-info-hash".to_owned(),
        Some(k) => {
            let rest = chars_of(string_from_range(&chars, k + 5, chars.len()).as_str());
            let segment = prefix_before(&rest, "btih:");
            let hash = prefix_before(&segment, "&");
            crate::text::string_from_chars(&hash)
        },
    }
}

pub fn build_torrent_task_plan(
    request: &DownloadRequest,
    downloads_root: &str,
    categories: &[DownloadCategory],
) -> (r: TorrentTaskPlan)
    ensures
        r.target@ == plan_view(request@, downloads_root@, categories_view(categories@)),
        r.suggested_name@ == torrent_name_view(request.file_name@),
        r.data_root@ == r.target.target_folder@ + "/"@ + r.suggested_name@,
        r.session_file_path@ == r.data_root@ + ".torrent-session.json"@,
        r.magnet_uri@ == request.source@,
{
    let target = plan_download(request, downloads_root, categories);
    let suggested_name = sanitize_torrent_name(request.file_name.as_str());
    let data_root = concat3(target.target_folder.as_str(), "/", suggested_name.as_str());
    let session_file_path = concat2(data_root.as_str(), ".torrent-session.json");
    TorrentTaskPlan { target, session_file_path, data_root, magnet_uri: request.source.clone(), suggested_name }
}

/// The trackers a new session announces to.
pub open spec fn default_trackers_view() -> Seq<Seq<char>> {
    seq![
        "udp://tracker.opentrackr.org:1337/announce"@,
        "udp://tracker.openbittorrent.com:6969/announce"@,
        "udp://tracker.torrent.eu.org:451/announce"@,
    ]
}

pub fn default_trackers() -> (r: Vec<String>)
    ensures
        r@.map_values(|t: String| t@) == default_trackers_view(),
{
    let mut r: Vec<String> = Vec::new();
    r.push("udp://tracker.opentrackr.org:1337/announce".to_owned());
    r.push("udp://tracker.openbittorrent.com:6969/announce".to_owned());
    r.push("udp://tracker.torrent.eu.org:451/announce".to_owned());
    assert(r@.map_values(|t: String| t@) =~= default_trackers_view());
    r
}

pub fn create_torrent_session_snapshot(plan: &TorrentTaskPlan) -> (r: TorrentSessionSnapshot)
    ensures
        r.info_hash@ == info_hash_view(plan.magnet_uri@),
        r.display_name@ == plan.suggested_name@,
        r.save_path@ == plan.data_root@,
        r.magnet_uri@ == plan.magnet_uri@,
        r.files@.len() == 2,
        r.files@[0].path@ == plan.suggested_name@ + "/part-1.bin"@,
        r.files@[0].size_bytes == 512 * 1024 * 1024,
        r.files@[1].path@ == plan.suggested_name@ + "/part-2.bin"@,
        r.files@[1].size_bytes == 256 * 1024 * 1024,
        r.piece_count == 768,
        r.completed_pieces == 0,
        r.downloaded_bytes == 0,
        r.uploaded_bytes == 0,
        r.connected_peers == 0,
        r.trackers@.map_values(|t: String| t@) == default_trackers_view(),
{
    let mut files: Vec<TorrentFileEntry> = Vec::new();
    files.push(TorrentFileEntry {
        path: concat2(plan.suggested_name.as_str(), "/part-1.bin"),
        size_bytes: 512 * 1024 * 1024,
    });
    files.push(TorrentFileEntry {
        path: concat2(plan.suggested_name.as_str(), "/part-2.bin"),
        size_bytes: 256 * 1024 * 1024,
    });
    TorrentSessionSnapshot {
        info_hash: extract_info_hash(plan.magnet_uri.as_str()),
        display_name: plan.suggested_name.clone(),
        save_path: plan.data_root.clone(),
        magnet_uri: plan.magnet_uri.clone(),
        files,
        piece_count: 768,
        completed_pieces: 0,
        downloaded_bytes: 0,
        uploaded_bytes: 0,
        connected_peers: 0,
        trackers: default_trackers(),
    }
}

/// The completed pieces after a step: the old count plus the new pieces, capped at the piece count.
pub open spec fn pieces_after(session: TorrentSessionSnapshot, newly_completed: u32) -> u32 {
    if session.completed_pieces + newly_completed < session.piece_count {
        (session.completed_pieces + newly_completed) as u32
    } else {
        session.piece_count
    }
}

/// Hundredths of a percent of the pieces that are complete.
pub open spec fn progress_basis_points(completed: u32, piece_count: u32) -> u32 {
    if piece_count == 0 {
        0
    } else {
        ((completed as int * 10000) / (piece_count as int)) as u32
    }
}

/// The session after a step of the simulated engine: the new pieces counted
/// (up to the piece count), their bytes, the peers, and a quarter MiB uploaded per peer.
pub open spec fn stepped_session(session: TorrentSessionSnapshot, newly_completed: u32, peers: u32) -> TorrentSessionSnapshot {
    let pieces = pieces_after(session, newly_completed);
    TorrentSessionSnapshot {
        completed_pieces: pieces,
        connected_peers: peers,
        downloaded_bytes: (pieces as int * 1024 * 1024) as u64,
        uploaded_bytes: (session.uploaded_bytes + peers * 256 * 1024) as u64,
        ..session
    }
}

/// The text the simulated engine shows for the time left.
pub open spec fn simulated_eta(completed: u32, piece_count: u32) -> Seq<char> {
    if progress_basis_points(completed, piece_count) >= 10000 {
        "Seeding"@
    } else {
        decimal((piece_count - completed) as nat) + " pieces left"@
    }
}

pub fn simulate_torrent_progress(session: &mut TorrentSessionSnapshot, newly_completed_pieces: u32, peers: u32) -> (r: TorrentProgress)
    requires
        old(session).completed_pieces + newly_completed_pieces <= u32::MAX,
        old(session).uploaded_bytes + peers * 256 * 1024 <= u64::MAX,
    ensures
        *final(session) == stepped_session(*old(session), newly_completed_pieces, peers),
        r.eta_text@ == simulated_eta(final(session).completed_pieces, final(session).piece_count),
        final(session).completed_pieces == pieces_after(*old(session), newly_completed_pieces),
        final(session).connected_peers == peers,
        final(session).downloaded_bytes == final(session).completed_pieces as int * 1024 * 1024,
        final(session).uploaded_bytes == old(session).uploaded_bytes + peers * 256 * 1024,
        final(session).piece_count == old(session).piece_count,
        final(session).info_hash == old(session).info_hash,
        final(session).display_name == old(session).display_name,
        final(session).save_path == old(session).save_path,
        final(session).magnet_uri == old(session).magnet_uri,
        final(session).files == old(session).files,
        final(session).trackers == old(session).trackers,
        r.progress_basis_points == progress_basis_points(final(session).completed_pieces, final(session).piece_count),
        r.download_rate_bytes_per_sec == peers as int * 4194304 / 5,
        r.upload_rate_bytes_per_sec == peers as int * 3145728 / 20,
        r.connected_peers == peers,
        r.progress_basis_points >= 10000 ==> r.eta_text@ == "Seeding"@,
        r.progress_basis_points < 10000 ==> r.eta_text@ == decimal(
            (final(session).piece_count - final(session).completed_pieces) as nat,
        ) + " pieces left"@,
{
    let sum = session.completed_pieces + newly_completed_pieces;
    session.completed_pieces = if sum < session.piece_count {
        sum
    } else {
        session.piece_count
    };
    session.connected_peers = peers;
    session.downloaded_bytes = (session.completed_pieces as u64) * 1024 * 1024;
    session.uploaded_bytes = session.uploaded_bytes + (peers as u64) * 256 * 1024;
    let progress: u32 = if session.piece_count == 0 {
        0
    } else {
        let p = (session.completed_pieces as u64) * 10000 / (session.piece_count as u64);
        assert(p <= 10000) by (nonlinear_arith)
            requires
                p == (session.completed_pieces as int) * 10000 / (session.piece_count as int),
                session.completed_pieces <= session.piece_count,
                session.piece_count > 0,
        ;
        p as u32
    };
    let eta_text = if progress >= 10000 {
        "Seeding".to_owned()
    } else {
        let left = if session.piece_count >= session.completed_pieces {
            session.piece_count - session.completed_pieces
        } else {
            0
        };
        let mut text = decimal_string(left as u64);
        push_str(&mut text, " pieces left");
        text
    };
    TorrentProgress {
        progress_basis_points: progress,
        download_rate_bytes_per_sec: (peers as u64) * 4194304 / 5,
        upload_rate_bytes_per_sec: (peers as u64) * 3145728 / 20,
        connected_peers: peers,
        eta_text,
    }
}

/// The simulated engine never reports more pieces than the torrent has, never
/// loses pieces, and reports the bytes of exactly the completed pieces.
pub proof fn lemma_simulated_progress_bounded(session: TorrentSessionSnapshot, newly_completed: u32)
    requires
        session.completed_pieces <= session.piece_count,
        session.completed_pieces + newly_completed <= u32::MAX,
    ensures
        session.completed_pieces <= pieces_after(session, newly_completed) <= session.piece_count,
        progress_basis_points(pieces_after(session, newly_completed), session.piece_count) <= 10000,
        progress_basis_points(pieces_after(session, newly_completed), session.piece_count) == 10000
            <==> (session.piece_count > 0 && pieces_after(session, newly_completed) == session.piece_count),
{
    let c = pieces_after(session, newly_completed) as int;
    let p = session.piece_count as int;
    if p > 0 {
        assert(c * 10000 / p <= 10000) by (nonlinear_arith)
            requires
                0 <= c <= p,
                p > 0,
        ;
        if c < p {
            assert(c * 10000 / p < 10000) by (nonlinear_arith)
                requires
                    0 <= c < p,
            ;
        } else {
            assert(c * 10000 / p == 10000) by (nonlinear_arith)
                requires
                    c == p,
                    p > 0,
            ;
        }
    }
}

} // verus!
