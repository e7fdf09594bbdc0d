//! Direct HTTP(S) downloads: where the file goes, how it is split into ranges,
//! and the bookkeeping that lets a transfer resume.
use vstd::prelude::*;
use crate::categories::categories_view;
use crate::model::{DownloadCategory, DownloadPlan, DownloadRequest};
use crate::planner::{plan_download, plan_view};
use crate::text::{chars_of, concat2, concat3, decimal, decimal_string, find_first, find_last, first_occurrence, is_ws, last_index_of, leading_ws, lemma_leading_ws, lemma_trailing_ws, parse_u64, parse_u64_exec, push_str, string_from_range, trailing_ws, trim, trim_bounds};

verus! {

/// Where a direct download is written, and how it is fetched.
#[derive(Debug, Clone, PartialEq, Eq)]
pub struct DirectDownloadPlan {
    pub target: DownloadPlan,
    pub final_file_path: String,
    pub temp_file_path: String,
    pub metadata_file_path: String,
    pub supports_resume: bool,
    pub chunk_size_bytes: u64,
    pub parallel_connections: u32,
    pub max_retry_attempts: u32,
    pub retry_backoff_ms: u64,
}

/// One byte range of a download and how much of it has arrived.
#[derive(Debug, Clone, Copy, PartialEq, Eq)]
pub struct ChunkProgress {
    pub index: u32,
    pub start_byte: u64,
    pub end_byte: Option<u64>,
    pub downloaded_bytes: u64,
}

/// What is saved beside a partial download so that it can resume.
#[derive(Debug, Clone, PartialEq, Eq)]
pub struct ResumeMetadata {
    pub source_url: String,
    pub final_file_path: String,
    pub temp_file_path: String,
    pub total_bytes: Option<u64>,
    pub downloaded_bytes: u64,
    pub etag: Option<String>,
    pub last_modified: Option<String>,
    pub chunks: Vec<ChunkProgress>,
}

/// What the download worker reports while it runs. Speeds are in bytes per second.
#[allow(inconsistent_fields)]
#[derive(Debug, Clone, PartialEq, Eq)]
pub enum DirectDownloadEvent {
    Started { total_bytes: Option<u64> },
    Progress { downloaded_bytes: u64, total_bytes: Option<u64>, bytes_per_second: u64 },
    Retrying { attempt: u32, max_attempts: u32, wait_ms: u64, message: String },
    Completed { final_file_path: String, total_bytes: u64 },
    Failed { message: String },
    Paused { downloaded_bytes: u64, total_bytes: Option<u64> },
}

/// What the download worker can be told while it runs.
#[derive(Debug, Clone, Copy, PartialEq, Eq)]
pub enum DirectDownloadCommand {
    Pause,
}

// ---------------------------------------------------------------- file names

/// The characters that a file name may not hold on Windows.
pub open spec fn is_reserved(c: char) -> bool {
    c == '<' || c == '>' || c == ':' || c == '"' || c == '/' || c == '\\' || c == '|' || c == '?'
        || c == '*'
}

pub open spec fn replace_reserved(s: Seq<char>) -> Seq<char> {
    s.map_values(|c: char|
        if is_reserved(c) {
            '_'
        } else {
            c
        })
}

/// A file name made safe to write: reserved characters become `_`, surrounding
/// whitespace goes, and a name left empty becomes `download.bin`.
pub open spec fn sanitized_file_name(s: Seq<char>) -> Seq<char> {
    let t = trim(replace_reserved(s));
    if t.len() == 0 {
        "download.bin"@
    } else {
        t
    }
}

pub fn sanitize_file_name(file_name: &str) -> (r: String)
    ensures
        r@ == sanitized_file_name(file_name@),
{
    let chars = chars_of(file_name);
    let mut mapped: Vec<char> = Vec::new();
    let mut i: usize = 0;
    while i < chars.len()
        invariant
            i <= chars.len(),
            chars@ == file_name@,
            mapped@ == replace_reserved(chars@.take(i as int)),
        decreases chars.len() - i,
    {
        let c = chars[i];
        let d = if c == '<' || c == '>' || c == ':' || c == '"' || c == '/' || c == '\\' || c
            == '|' || c == '?' || c == '*' {
            '_'
        } else {
            c
        };
        mapped.push(d);
        assert(replace_reserved(chars@.take(i + 1)) =~= replace_reserved(chars@.take(i as int)).push(d));
        i += 1;
    }
    assert(chars@.take(chars.len() as int) =~= chars@);
    let (a, b) = trim_bounds(&mapped);
    if a == b {
        "download.bin".to_owned()
    } else {
        string_from_range(&mapped, a, b)
    }
}

// ---------------------------------------------------------------- the plan

/// The file a plan writes: the chosen folder, then the safe file name.
pub open spec fn final_path_view(target_folder: Seq<char>, file_name: Seq<char>) -> Seq<char> {
    target_folder + "/"@ + sanitized_file_name(file_name)
}

pub fn build_direct_download_plan(
    request: &DownloadRequest,
    downloads_root: &str,
    categories: &[DownloadCategory],
) -> (r: DirectDownloadPlan)
    ensures
        r.target@ == plan_view(request@, downloads_root@, categories_view(categories@)),
        r.final_file_path@ == final_path_view(r.target.target_folder@, request.file_name@),
        r.temp_file_path@ == r.final_file_path@ + ".part"@,
        r.metadata_file_path@ == r.final_file_path@ + ".json"@,
        r.supports_resume,
        r.chunk_size_bytes == 4 * 1024 * 1024,
        r.parallel_connections == 4,
        r.max_retry_attempts == 4,
        r.retry_backoff_ms == 1200,
{
    let target = plan_download(request, downloads_root, categories);
    let safe_file_name = sanitize_file_name(request.file_name.as_str());
    let final_file_path = concat3(target.target_folder.as_str(), "/", safe_file_name.as_str());
    let temp_file_path = concat2(final_file_path.as_str(), ".part");
    let metadata_file_path = concat2(final_file_path.as_str(), ".json");
    DirectDownloadPlan {
        target,
        final_file_path,
        temp_file_path,
        metadata_file_path,
        supports_resume: true,
        chunk_size_bytes: 4 * 1024 * 1024,
        parallel_connections: 4,
        max_retry_attempts: 4,
        retry_backoff_ms: 1200,
    }
}

// ---------------------------------------------------------------- byte ranges

/// How many ranges a download of `total` bytes is split into: one per started
/// chunk of `chunk_size` bytes, at least one, at most one per connection (and at
/// least one connection).
pub open spec fn chunk_count(total: int, chunk_size: int, connections: int) -> int {
    let wanted = (total + chunk_size - 1) / chunk_size;
    let at_least_one = if wanted < 1 {
        1
    } else {
        wanted
    };
    let cap = if connections < 1 {
        1
    } else {
        connections
    };
    if at_least_one < cap {
        at_least_one
    } else {
        cap
    }
}

/// The length of range `i` of `n`: the even share, one byte more for the first
/// `total % n` ranges.
pub open spec fn chunk_len(total: int, n: int, i: int) -> int {
    total / n + if i < total % n {
        1int
    } else {
        0int
    }
}

/// Where range `i` of `n` starts.
pub open spec fn chunk_start(total: int, n: int, i: int) -> int {
    i * (total / n) + if i < total % n {
        i
    } else {
        total % n
    }
}

/// The ranges that a fresh download of `total` bytes is split into.
pub open spec fn chunk_layout(total: u64, chunk_size: u64, connections: u32) -> Seq<ChunkProgress> {
    if total == 0 {
        Seq::empty()
    } else {
        let n = chunk_count(total as int, chunk_size as int, connections as int);
        Seq::new(
            n as nat,
            |i: int|
                ChunkProgress {
                    index: i as u32,
                    start_byte: chunk_start(total as int, n, i) as u64,
                    end_byte: Some((chunk_start(total as int, n, i) + chunk_len(total as int, n, i) - 1) as u64),
                    downloaded_bytes: 0,
                },
        )
    }
}

/// What a chunked split needs so that its arithmetic neither divides by zero nor overflows.
pub open spec fn chunk_params_ok(total: u64, chunk_size: u64) -> bool {
    total > 0 ==> chunk_size > 0 && total + chunk_size - 1 <= u64::MAX
}

proof fn lemma_chunk_count_bounds(total: int, chunk_size: int, connections: int)
    requires
        total > 0,
        chunk_size > 0,
    ensures
        1 <= chunk_count(total, chunk_size, connections) <= total,
        chunk_count(total, chunk_size, connections) <= if connections < 1 {
            1
        } else {
            connections
        },
{
    assert((total + chunk_size - 1) / chunk_size <= total) by (nonlinear_arith)
        requires
            total > 0,
            chunk_size > 0,
    ;
}

proof fn lemma_chunk_step(total: int, n: int, i: int)
    requires
        n >= 1,
        total >= 0,
        0 <= i,
    ensures
        chunk_start(total, n, i + 1) == chunk_start(total, n, i) + chunk_len(total, n, i),
{
    assert((i + 1) * (total / n) == i * (total / n) + total / n) by (nonlinear_arith);
}

proof fn lemma_chunk_start_bounds(total: int, n: int, i: int)
    requires
        1 <= n <= total,
        0 <= i <= n,
    ensures
        0 <= chunk_start(total, n, i) <= total,
        chunk_start(total, n, n) == total,
        i < n ==> chunk_len(total, n, i) >= 1,
{
    let b = total / n;
    let r = total % n;
    assert(total == n * b + r && 0 <= r < n) by (nonlinear_arith)
        requires
            n >= 1,
            b == total / n,
            r == total % n,
    ;
    assert(b >= 1) by (nonlinear_arith)
        requires
            n <= total,
            n >= 1,
            b == total / n,
    ;
    assert(0 <= i * b <= n * b) by (nonlinear_arith)
        requires
            0 <= i <= n,
            b >= 1,
    ;
}

/// Splits `total` bytes into ranges, as `chunk_layout` describes.
pub fn build_chunk_progress(total_bytes: u64, chunk_size_bytes: u64, parallel_connections: u32) -> (r: Vec<ChunkProgress>)
    requires
        chunk_params_ok(total_bytes, chunk_size_bytes),
    ensures
        r@ == chunk_layout(total_bytes, chunk_size_bytes, parallel_connections),
{
    if total_bytes == 0 {
        return Vec::new();
    }
    let wanted = (total_bytes + (chunk_size_bytes - 1)) / chunk_size_bytes;
    let at_least_one = if wanted < 1 {
        1
    } else {
        wanted
    };
    let cap: u64 = if parallel_connections < 1 {
        1
    } else {
        parallel_connections as u64
    };
    let desired_chunks = if at_least_one < cap {
        at_least_one
    } else {
        cap
    };
    let ghost n = desired_chunks as int;
    let ghost t = total_bytes as int;
    proof {
        lemma_chunk_count_bounds(t, chunk_size_bytes as int, parallel_connections as int);
        assert(n == chunk_count(t, chunk_size_bytes as int, parallel_connections as int));
    }
    let base_chunk_size = total_bytes / desired_chunks;
    let first_remainder = total_bytes % desired_chunks;
    let mut remainder = first_remainder;
    let mut start: u64 = 0;
    let mut chunks: Vec<ChunkProgress> = Vec::new();
    let mut index: u64 = 0;
    while index < desired_chunks
        invariant
            1 <= n <= t,
            n <= u32::MAX,
            n == desired_chunks,
            t == total_bytes,
            base_chunk_size == t / n,
            first_remainder == t % n,
            index <= desired_chunks,
            remainder == if index < first_remainder {
                first_remainder - index
            } else {
                0
            },
            start == chunk_start(t, n, index as int),
            chunks@ == chunk_layout(total_bytes, chunk_size_bytes, parallel_connections).take(index as int),
            chunk_layout(total_bytes, chunk_size_bytes, parallel_connections).len() == n,
        decreases desired_chunks - index,
    {
        proof {
            lemma_chunk_step(t, n, index as int);
            lemma_chunk_start_bounds(t, n, index as int);
            lemma_chunk_start_bounds(t, n, index + 1);
        }
        let mut current_size = base_chunk_size;
        if remainder > 0 {
            current_size += 1;
            remainder -= 1;
        }
        assert(current_size == chunk_len(t, n, index as int));
        let end = start + current_size - 1;
        let c = ChunkProgress { index: index as u32, start_byte: start, end_byte: Some(end), downloaded_bytes: 0 };
        assert(c == chunk_layout(total_bytes, chunk_size_bytes, parallel_connections)[index as int]);
        chunks.push(c);
        assert(chunks@ =~= chunk_layout(total_bytes, chunk_size_bytes, parallel_connections).take(index + 1));
        start = end + 1;
        index += 1;
    }
    assert(chunks@ =~= chunk_layout(total_bytes, chunk_size_bytes, parallel_connections));
    chunks
}

/// The ranges of a fresh download cover its bytes exactly: they start at byte 0,
/// each begins right after the one before, none is empty, the last ends at the
/// final byte, their lengths differ by at most one, and there are no more of them
/// than connections (counting at least one).
pub proof fn lemma_chunk_layout_partitions(total: u64, chunk_size: u64, connections: u32)
    requires
        total > 0,
        chunk_params_ok(total, chunk_size),
    ensures
        ({
            let l = chunk_layout(total, chunk_size, connections);
            &&& 1 <= l.len() <= (if connections < 1 { 1 } else { connections as int })
            &&& l[0].start_byte == 0
            &&& l[l.len() - 1].end_byte == Some((total - 1) as u64)
            &&& forall|i: int| 0 <= i < l.len() ==> (#[trigger] l[i]).index == i && l[i].downloaded_bytes == 0
                && l[i].end_byte is Some && l[i].start_byte <= l[i].end_byte->0
            &&& forall|i: int| 0 <= i < l.len() - 1 ==> (#[trigger] l[i + 1]).start_byte == l[i].end_byte->0 + 1
            &&& forall|i: int, j: int| 0 <= i < l.len() && 0 <= j < l.len() ==>
                (#[trigger] l[i]).end_byte->0 - l[i].start_byte <= (#[trigger] l[j]).end_byte->0 - l[j].start_byte + 1
        }),
{
    let t = total as int;
    let n = chunk_count(t, chunk_size as int, connections as int);
    lemma_chunk_count_bounds(t, chunk_size as int, connections as int);
    let l = chunk_layout(total, chunk_size, connections);
    assert forall|i: int| 0 <= i <= n implies 0 <= #[trigger] chunk_start(t, n, i) <= t by {
        lemma_chunk_start_bounds(t, n, i);
    }
    assert forall|i: int| 0 <= i < n implies chunk_start(t, n, i + 1) == #[trigger] chunk_start(t, n, i) + chunk_len(t, n, i)
        && chunk_len(t, n, i) >= 1 by {
        lemma_chunk_step(t, n, i);
        lemma_chunk_start_bounds(t, n, i);
        lemma_chunk_start_bounds(t, n, i + 1);
    }
    lemma_chunk_start_bounds(t, n, n);
    assert(chunk_start(t, n, 0) == 0);
    assert(l[n - 1].end_byte == Some((total - 1) as u64));
    assert forall|i: int| 0 <= i < l.len() - 1 implies (#[trigger] l[i + 1]).start_byte == l[i].end_byte->0 + 1 by {
        assert(chunk_start(t, n, i + 1) == chunk_start(t, n, i) + chunk_len(t, n, i));
    }
    assert forall|i: int, j: int| 0 <= i < l.len() && 0 <= j < l.len() implies
        (#[trigger] l[i]).end_byte->0 - l[i].start_byte <= (#[trigger] l[j]).end_byte->0 - l[j].start_byte + 1 by {
        assert(chunk_start(t, n, i + 1) == chunk_start(t, n, i) + chunk_len(t, n, i));
        assert(chunk_start(t, n, j + 1) == chunk_start(t, n, j) + chunk_len(t, n, j));
    }
}

// ---------------------------------------------------------------- resume state

/// The one open-ended range used when the size is unknown or the split is empty.
pub open spec fn single_open_chunk() -> ChunkProgress {
    ChunkProgress { index: 0, start_byte: 0, end_byte: None, downloaded_bytes: 0 }
}

/// The ranges a fresh resume record starts with.
pub open spec fn initial_chunks(total: Option<u64>, chunk_size: u64, connections: u32) -> Seq<ChunkProgress> {
    match total {
        Some(t) => if chunk_layout(t, chunk_size, connections).len() == 0 {
            seq![single_open_chunk()]
        } else {
            chunk_layout(t, chunk_size, connections)
        },
        None => seq![single_open_chunk()],
    }
}

/// Whether a plan's split arithmetic is safe for a download of `total` bytes.
pub open spec fn plan_fits(plan: DirectDownloadPlan, total: Option<u64>) -> bool {
    match total {
        Some(t) => chunk_params_ok(t, plan.chunk_size_bytes),
        None => true,
    }
}

pub fn create_resume_metadata(
    request: &DownloadRequest,
    plan: &DirectDownloadPlan,
    total_bytes: Option<u64>,
) -> (r: ResumeMetadata)
    requires
        plan_fits(*plan, total_bytes),
    ensures
        r.source_url@ == request.source@,
        r.final_file_path@ == plan.final_file_path@,
        r.temp_file_path@ == plan.temp_file_path@,
        r.total_bytes == total_bytes,
        r.downloaded_bytes == 0,
        r.etag is None,
        r.last_modified is None,
        r.chunks@ == initial_chunks(total_bytes, plan.chunk_size_bytes, plan.parallel_connections),
{
    let chunks = match total_bytes {
        Some(total) => {
            let built = build_chunk_progress(total, plan.chunk_size_bytes, plan.parallel_connections);
            if built.len() == 0 {
                vec![ChunkProgress { index: 0, start_byte: 0, end_byte: None, downloaded_bytes: 0 }]
            } else {
                built
            }
        },
        None => vec![ChunkProgress { index: 0, start_byte: 0, end_byte: None, downloaded_bytes: 0 }],
    };
    ResumeMetadata {
        source_url: request.source.clone(),
        final_file_path: plan.final_file_path.clone(),
        temp_file_path: plan.temp_file_path.clone(),
        total_bytes,
        downloaded_bytes: 0,
        etag: None,
        last_modified: None,
        chunks,
    }
}

/// A fresh resume record either follows the full split of a known size or holds the
/// single open range; either way every range starts out with nothing downloaded.
pub proof fn lemma_initial_chunks_shape(total: Option<u64>, chunk_size: u64, connections: u32)
    requires
        total matches Some(t) ==> chunk_params_ok(t, chunk_size),
    ensures
        ({
            let c = initial_chunks(total, chunk_size, connections);
            &&& c.len() >= 1
            &&& forall|i: int| 0 <= i < c.len() ==> (#[trigger] c[i]).downloaded_bytes == 0 && c[i].index == i
            &&& c.len() == 1 && c[0].end_byte is None <==> (total is None || total == Some(0u64))
        }),
{
    match total {
        Some(t) => {
            if t > 0 {
                lemma_chunk_layout_partitions(t, chunk_size, connections);
            }
        },
        None => {},
    }
}

// ---------------------------------------------------------------- sizes from headers

/// The total size that a `Content-Range` value names after its last `/`, unless that is `*`.
pub open spec fn content_range_total(cr: Seq<char>) -> Option<u64> {
    let k = last_index_of(cr, '/');
    if k < 0 {
        None
    } else {
        let tail = cr.subrange(k + 1, cr.len() as int);
        if tail == seq!['*'] {
            None
        } else {
            parse_u64(tail)
        }
    }
}

/// The size of the whole file that a response implies: the total of its
/// `Content-Range` where that names one, else its `Content-Length` plus the bytes
/// already on disk.
pub open spec fn total_bytes_view(content_range: Option<Seq<char>>, content_length: Option<Seq<char>>, existing: u64) -> Option<u64> {
    let from_range = match content_range {
        Some(cr) => content_range_total(cr),
        None => None,
    };
    match from_range {
        Some(v) => Some(v),
        None => match content_length {
            Some(cl) => match parse_u64(cl) {
                Some(v) => Some((v + existing) as u64),
                None => None,
            },
            None => None,
        },
    }
}

/// Reads the total size from the text of the `Content-Range` and
/// `Content-Length` headers (`None` where a header is absent or not text).
pub fn parse_total_bytes(content_range: Option<&str>, content_length: Option<&str>, existing_bytes: u64) -> (r: Option<u64>)
    requires
        (match content_range {
            Some(cr) => content_range_total(cr@),
            None => None::<u64>,
        }) is None ==> (content_length matches Some(cl) ==> (parse_u64(cl@) matches Some(v) ==> v + existing_bytes
            <= u64::MAX)),
    ensures
        r == total_bytes_view(
            match content_range { Some(s) => Some(s@), None => None },
            match content_length { Some(s) => Some(s@), None => None },
            existing_bytes,
        ),
{
    if let Some(cr) = content_range {
        let chars = chars_of(cr);
        if let Some(k) = find_last(&chars, '/') {
            let tail = string_from_range(&chars, k + 1, chars.len());
            let tail_chars = chars_of(tail.as_str());
            let star = tail_chars.len() == 1 && tail_chars[0] == '*';
            proof {
                if star {
                    assert(tail_chars@ =~= seq!['*']);
                } else if tail_chars@ == seq!['*'] {
                    assert(tail_chars@[0] == '*');
                }
            }
            if !star {
                if let Some(value) = parse_u64_exec(&tail_chars) {
                    return Some(value);
                }
            }
        }
    }
    match content_length {
        Some(cl) => match parse_u64_exec(&chars_of(cl)) {
            Some(value) => Some(value + existing_bytes),
            None => None,
        },
        None => None,
    }
}

// ---------------------------------------------------------------- worker decisions

/// Whether a response says that the server honours byte ranges: its
/// `Accept-Ranges` value mentions `bytes`, or it carries a `Content-Range`.
pub open spec fn supports_ranges_view(accept_ranges: Option<Seq<char>>, has_content_range: bool) -> bool {
    (match accept_ranges {
        Some(a) => first_occurrence(a, "bytes"@) is Some,
        None => false,
    }) || has_content_range
}

pub fn server_supports_ranges(accept_ranges: Option<&str>, has_content_range: bool) -> (r: bool)
    ensures
        r == supports_ranges_view(match accept_ranges { Some(s) => Some(s@), None => None }, has_content_range),
{
    let mentions_bytes = match accept_ranges {
        Some(value) => find_first(&chars_of(value), &chars_of("bytes")).is_some(),
        None => false,
    };
    mentions_bytes || has_content_range
}

/// Whether a (re)started request continues the bytes on disk, or the error when a
/// retry needs that and the server no longer offers it.
pub fn resume_decision(existing_bytes: u64, plan_supports_resume: bool, server_supports_range: bool, require_resume: bool) -> (r: Result<bool, String>)
    ensures
        match r {
            Ok(resumed) => resumed == (existing_bytes > 0 && plan_supports_resume && server_supports_range)
                && !(require_resume && existing_bytes > 0 && !resumed),
            Err(e) => e@ == "server no longer supports ranged resume for this download"@
                && require_resume && existing_bytes > 0 && !(plan_supports_resume && server_supports_range),
        },
{
    let resumed = existing_bytes > 0 && plan_supports_resume && server_supports_range;
    if require_resume && existing_bytes > 0 && !resumed {
        return Err("server no longer supports ranged resume for this download".to_owned());
    }
    Ok(resumed)
}

/// Whether a fresh download of a known, large enough size is fetched in parallel ranges.
pub open spec fn parallel_view(resumed: bool, existing_bytes: u64, metadata: ResumeMetadata, plan: DirectDownloadPlan) -> bool {
    existing_bytes == 0 && !resumed && plan.parallel_connections > 1
        && (match metadata.total_bytes {
        Some(t) => t as int,
        None => 0,
    }) >= plan.chunk_size_bytes * 2 && metadata.chunks@.len() > 1
}

pub fn should_use_parallel_download(
    session_resumed: bool,
    existing_bytes: u64,
    metadata: &ResumeMetadata,
    plan: &DirectDownloadPlan,
) -> (r: bool)
    requires
        existing_bytes == 0 && !session_resumed && plan.parallel_connections > 1 ==> plan.chunk_size_bytes * 2 <= u64::MAX,
    ensures
        r == parallel_view(session_resumed, existing_bytes, *metadata, *plan),
{
    existing_bytes == 0 && session_resumed == false && plan.parallel_connections > 1 && match metadata.total_bytes {
        Some(t) => t,
        None => 0,
    } >= plan.chunk_size_bytes * 2 && metadata.chunks.len() > 1
}

/// `v - 1`, or 0 for 0.
pub open spec fn last_byte_of(total: Option<u64>) -> Option<u64> {
    match total {
        Some(v) => Some(if v == 0 { 0u64 } else { (v - 1) as u64 }),
        None => None,
    }
}

/// The ranges once a session is known: a single range takes the bytes already
/// downloaded and ends at the last byte of the reported size; a split is kept.
pub open spec fn session_chunks(base: Seq<ChunkProgress>, downloaded: u64, total: Option<u64>) -> Seq<ChunkProgress> {
    if base.len() == 1 {
        seq![ChunkProgress { downloaded_bytes: downloaded, end_byte: last_byte_of(total), ..base[0] }]
    } else {
        base
    }
}

/// The first of two optional strings that is present.
pub open spec fn first_present(a: Option<String>, b: Option<String>) -> Option<Seq<char>> {
    match a {
        Some(s) => Some(s@),
        None => match b {
            Some(s) => Some(s@),
            None => None,
        },
    }
}

fn or_string(a: Option<String>, b: Option<String>) -> (r: Option<String>)
    ensures
        crate::model::opt_str(r) == first_present(a, b),
{
    match a {
        Some(s) => Some(s),
        None => b,
    }
}

/// The resume record a worker writes once the server has answered: the saved one
/// when the transfer continues (a fresh one if there is none), a fresh one
/// otherwise; in both, the reported size, the bytes kept, the validators the
/// server sent (else the saved ones) and the single range brought up to date.
pub fn prepare_session_metadata(
    request: &DownloadRequest,
    plan: &DirectDownloadPlan,
    existing: Option<ResumeMetadata>,
    resumed: bool,
    remote_total_bytes: Option<u64>,
    existing_bytes: u64,
    session_etag: Option<String>,
    session_last_modified: Option<String>,
) -> (r: ResumeMetadata)
    requires
        !(resumed && existing is Some) ==> plan_fits(*plan, remote_total_bytes),
    ensures
        r.total_bytes == remote_total_bytes,
        r.downloaded_bytes == (if resumed { existing_bytes } else { 0 }),
        resumed && existing is Some ==> {
            let m = existing->0;
            &&& r.source_url@ == m.source_url@
            &&& r.final_file_path@ == m.final_file_path@
            &&& r.temp_file_path@ == m.temp_file_path@
            &&& crate::model::opt_str(r.etag) == first_present(session_etag, m.etag)
            &&& crate::model::opt_str(r.last_modified) == first_present(session_last_modified, m.last_modified)
            &&& r.chunks@ == session_chunks(m.chunks@, r.downloaded_bytes, remote_total_bytes)
        },
        !(resumed && existing is Some) ==> {
            &&& r.source_url@ == request.source@
            &&& r.final_file_path@ == plan.final_file_path@
            &&& r.temp_file_path@ == plan.temp_file_path@
            &&& crate::model::opt_str(r.etag) == crate::model::opt_str(session_etag)
            &&& crate::model::opt_str(r.last_modified) == crate::model::opt_str(session_last_modified)
            &&& r.chunks@ == session_chunks(
                initial_chunks(remote_total_bytes, plan.chunk_size_bytes, plan.parallel_connections),
                r.downloaded_bytes,
                remote_total_bytes,
            )
        },
{
    let mut metadata = if resumed {
        match existing {
            Some(m) => m,
            None => create_resume_metadata(request, plan, remote_total_bytes),
        }
    } else {
        create_resume_metadata(request, plan, remote_total_bytes)
    };
    metadata.total_bytes = remote_total_bytes;
    metadata.downloaded_bytes = if resumed {
        existing_bytes
    } else {
        0
    };
    let saved_etag = metadata.etag;
    metadata.etag = or_string(session_etag, saved_etag);
    let saved_last_modified = metadata.last_modified;
    metadata.last_modified = or_string(session_last_modified, saved_last_modified);
    if metadata.chunks.len() == 1 {
        let mut chunk = metadata.chunks[0];
        chunk.downloaded_bytes = metadata.downloaded_bytes;
        chunk.end_byte = match metadata.total_bytes {
            Some(value) => Some(if value == 0 { 0 } else { value - 1 }),
            None => None,
        };
        metadata.chunks.set(0, chunk);
        assert(metadata.chunks@ =~= seq![chunk]);
    }
    metadata
}

/// Records `read` more bytes of a single-stream transfer: the total and the first
/// range move on together.
pub fn record_sequential_progress(metadata: &mut ResumeMetadata, downloaded_bytes: u64, read: u64) -> (r: u64)
    requires
        downloaded_bytes + read <= u64::MAX,
    ensures
        r == downloaded_bytes + read,
        final(metadata).downloaded_bytes == r,
        final(metadata).chunks@ == if old(metadata).chunks@.len() > 0 {
            old(metadata).chunks@.update(0, ChunkProgress { downloaded_bytes: r, ..old(metadata).chunks@[0] })
        } else {
            old(metadata).chunks@
        },
        final(metadata).total_bytes == old(metadata).total_bytes,
        final(metadata).source_url == old(metadata).source_url,
        final(metadata).final_file_path == old(metadata).final_file_path,
        final(metadata).temp_file_path == old(metadata).temp_file_path,
        final(metadata).etag == old(metadata).etag,
        final(metadata).last_modified == old(metadata).last_modified,
{
    let total = downloaded_bytes + read;
    metadata.downloaded_bytes = total;
    if metadata.chunks.len() > 0 {
        let mut first = metadata.chunks[0];
        first.downloaded_bytes = total;
        metadata.chunks.set(0, first);
    }
    total
}

/// The sum of a sequence of byte counts.
pub open spec fn sum_u64(s: Seq<u64>) -> nat
    decreases s.len(),
{
    if s.len() == 0 {
        0
    } else {
        sum_u64(s.drop_last()) + (s.last() as nat)
    }
}

/// A prefix of a sequence of byte counts sums to no more than the whole.
pub proof fn lemma_sum_prefix_le(s: Seq<u64>, k: int)
    requires
        0 <= k <= s.len(),
    ensures
        sum_u64(s.take(k)) <= sum_u64(s),
    decreases s.len() - k,
{
    if k < s.len() {
        lemma_sum_prefix_le(s, k + 1);
        assert(s.take(k + 1).drop_last() =~= s.take(k));
    } else {
        assert(s.take(k) =~= s);
    }
}

/// The bytes downloaded per range.
pub open spec fn chunk_downloads(chunks: Seq<ChunkProgress>) -> Seq<u64> {
    chunks.map_values(|c: ChunkProgress| c.downloaded_bytes)
}

/// The per-range counters a parallel transfer starts from.
pub fn initial_chunk_totals(metadata: &ResumeMetadata) -> (r: Vec<u64>)
    ensures
        r@ == chunk_downloads(metadata.chunks@),
{
    let mut r: Vec<u64> = Vec::new();
    let mut i: usize = 0;
    while i < metadata.chunks.len()
        invariant
            i <= metadata.chunks.len(),
            r@ == chunk_downloads(metadata.chunks@.take(i as int)),
        decreases metadata.chunks.len() - i,
    {
        r.push(metadata.chunks[i].downloaded_bytes);
        assert(chunk_downloads(metadata.chunks@.take(i + 1)) =~= chunk_downloads(metadata.chunks@.take(i as int)).push(
            metadata.chunks@[i as int].downloaded_bytes,
        ));
        i += 1;
    }
    assert(metadata.chunks@.take(metadata.chunks.len() as int) =~= metadata.chunks@);
    r
}

/// A counter sequence with position `i` set to `v`, where `i` is in range.
pub open spec fn set_if_present(s: Seq<u64>, i: int, v: u64) -> Seq<u64> {
    if 0 <= i < s.len() {
        s.update(i, v)
    } else {
        s
    }
}

/// Records that range `chunk_index` of a parallel transfer has `downloaded_bytes`
/// bytes: its counter and its range are set, and the total becomes the sum of the
/// counters.
pub fn record_chunk_progress(
    metadata: &mut ResumeMetadata,
    chunk_totals: &mut Vec<u64>,
    chunk_index: u32,
    downloaded_bytes: u64,
)
    requires
        sum_u64(set_if_present(old(chunk_totals)@, chunk_index as int, downloaded_bytes)) <= u64::MAX,
    ensures
        final(chunk_totals)@ == set_if_present(old(chunk_totals)@, chunk_index as int, downloaded_bytes),
        final(metadata).chunks@ == if (chunk_index as int) < old(metadata).chunks@.len() {
            old(metadata).chunks@.update(
                chunk_index as int,
                ChunkProgress { downloaded_bytes, ..old(metadata).chunks@[chunk_index as int] },
            )
        } else {
            old(metadata).chunks@
        },
        final(metadata).downloaded_bytes == sum_u64(final(chunk_totals)@),
        final(metadata).total_bytes == old(metadata).total_bytes,
        final(metadata).source_url == old(metadata).source_url,
        final(metadata).final_file_path == old(metadata).final_file_path,
        final(metadata).temp_file_path == old(metadata).temp_file_path,
        final(metadata).etag == old(metadata).etag,
        final(metadata).last_modified == old(metadata).last_modified,
{
    let idx = chunk_index as usize;
    if idx < metadata.chunks.len() {
        let mut chunk = metadata.chunks[idx];
        chunk.downloaded_bytes = downloaded_bytes;
        metadata.chunks.set(idx, chunk);
    }
    if idx < chunk_totals.len() {
        chunk_totals.set(idx, downloaded_bytes);
    }
    let ghost totals = chunk_totals@;
    proof {
        lemma_sum_prefix_le(totals, 0);
    }
    let mut sum: u64 = 0;
    let mut i: usize = 0;
    while i < chunk_totals.len()
        invariant
            totals == chunk_totals@,
            sum_u64(totals) <= u64::MAX,
            i <= chunk_totals.len(),
            sum == sum_u64(totals.take(i as int)),
        decreases chunk_totals.len() - i,
    {
        proof {
            lemma_sum_prefix_le(totals, i + 1);
            assert(totals.take(i + 1).drop_last() =~= totals.take(i as int));
        }
        sum = sum + chunk_totals[i];
        i += 1;
    }
    assert(totals.take(totals.len() as int) =~= totals);
    metadata.downloaded_bytes = sum;
}

/// The retry a failed read earns: the next attempt number and how long to wait
/// before it (the back-off times that number), or `None` once the attempts are used up.
pub fn next_retry(attempt: u32, max_attempts: u32, retry_backoff_ms: u64) -> (r: Option<(u32, u64)>)
    requires
        attempt < max_attempts ==> retry_backoff_ms * (attempt + 1) <= u64::MAX,
    ensures
        attempt >= max_attempts ==> r is None,
        attempt < max_attempts ==> r == Some(((attempt + 1) as u32, (retry_backoff_ms * (attempt + 1)) as u64)),
{
    if attempt >= max_attempts {
        return None;
    }
    let next = attempt + 1;
    Some((next, retry_backoff_ms * (next as u64)))
}

/// The length of a closed range; a parallel range without an end is an error.
pub fn chunk_length(chunk: &ChunkProgress) -> (r: Result<u64, String>)
    requires
        chunk.end_byte matches Some(e) ==> (if e >= chunk.start_byte { e - chunk.start_byte } else { 0 }) + 1 <= u64::MAX,
    ensures
        match chunk.end_byte {
            Some(e) => r == Ok::<u64, String>(((if e >= chunk.start_byte { e - chunk.start_byte } else { 0 }) + 1) as u64),
            None => r matches Err(m) && m@ == "parallel chunk missing end byte"@,
        },
{
    match chunk.end_byte {
        Some(end) => Ok((if end >= chunk.start_byte {
            end - chunk.start_byte
        } else {
            0
        }) + 1),
        None => Err("parallel chunk missing end byte".to_owned()),
    }
}

/// The `Range` value that asks for everything from byte `from` on.
pub fn open_range_header(from: u64) -> (r: String)
    ensures
        r@ == "bytes="@ + decimal(from as nat) + "-"@,
{
    let mut r = "bytes=".to_owned();
    let digits = decimal_string(from);
    push_str(&mut r, digits.as_str());
    push_str(&mut r, "-");
    r
}

/// The `Range` value that asks for bytes `from` to `to`, both included.
pub fn closed_range_header(from: u64, to: u64) -> (r: String)
    ensures
        r@ == "bytes="@ + decimal(from as nat) + "-"@ + decimal(to as nat),
{
    let mut r = open_range_header(from);
    let digits = decimal_string(to);
    push_str(&mut r, digits.as_str());
    r
}

/// A fresh download (nothing on disk, not resumed, more than one connection and
/// more than one range) is fetched in parallel exactly when its known size is at
/// least two chunks; so a larger size never turns the parallel fetch off.
pub proof fn lemma_parallel_threshold(metadata: ResumeMetadata, plan: DirectDownloadPlan, larger: u64)
    requires
        plan.parallel_connections > 1,
        metadata.chunks@.len() > 1,
    ensures
        metadata.total_bytes matches Some(t) ==> (parallel_view(false, 0, metadata, plan) <==> t >= plan.chunk_size_bytes
            * 2),
        metadata.total_bytes is None && plan.chunk_size_bytes > 0 ==> !parallel_view(false, 0, metadata, plan),
        metadata.total_bytes matches Some(t) && t <= larger && parallel_view(false, 0, metadata, plan)
            ==> parallel_view(false, 0, ResumeMetadata { total_bytes: Some(larger), ..metadata }, plan),
{
}

/// A fresh resume record for a size of at least two chunks, under a plan with
/// more than one connection, is split into more than one range and fetched in
/// parallel.
pub proof fn lemma_fresh_large_download_is_parallel(metadata: ResumeMetadata, plan: DirectDownloadPlan, total: u64)
    requires
        plan.parallel_connections > 1,
        plan.chunk_size_bytes > 0,
        chunk_params_ok(total, plan.chunk_size_bytes),
        total >= plan.chunk_size_bytes * 2,
        metadata.total_bytes == Some(total),
        metadata.chunks@ == initial_chunks(Some(total), plan.chunk_size_bytes, plan.parallel_connections),
    ensures
        metadata.chunks@.len() > 1,
        parallel_view(false, 0, metadata, plan),
{
    let t = total as int;
    let c = plan.chunk_size_bytes as int;
    assert((t + c - 1) / c >= 2) by (nonlinear_arith)
        requires
            c > 0,
            t >= 2 * c,
    ;
    assert(chunk_layout(total, plan.chunk_size_bytes, plan.parallel_connections).len() == chunk_count(
        t,
        c,
        plan.parallel_connections as int,
    ));
}

// ---------------------------------------------------------------- worker steps

/// The resume record after a reconnection: the size the new session reports,
/// and the validators it sent (else the saved ones); the rest is kept.
pub fn merge_retry_session(
    metadata: ResumeMetadata,
    remote_total_bytes: Option<u64>,
    etag: Option<String>,
    last_modified: Option<String>,
) -> (r: ResumeMetadata)
    ensures
        r.total_bytes == remote_total_bytes,
        crate::model::opt_str(r.etag) == first_present(etag, metadata.etag),
        crate::model::opt_str(r.last_modified) == first_present(last_modified, metadata.last_modified),
        r.downloaded_bytes == metadata.downloaded_bytes,
        r.chunks == metadata.chunks,
        r.source_url == metadata.source_url,
        r.final_file_path == metadata.final_file_path,
        r.temp_file_path == metadata.temp_file_path,
{
    let mut merged = metadata;
    merged.total_bytes = remote_total_bytes;
    let saved_etag = merged.etag;
    merged.etag = or_string(etag, saved_etag);
    let saved_last_modified = merged.last_modified;
    merged.last_modified = or_string(last_modified, saved_last_modified);
    merged
}

/// What the sequential worker does after one read of the response.
#[derive(Debug, Clone, Copy, PartialEq, Eq, Structural)]
pub enum SequentialReadStep {
    /// The response is exhausted: finish the file.
    Finished,
    /// Bytes arrived and were counted; the total so far.
    Wrote { downloaded_bytes: u64 },
    /// The read failed: wait, then reconnect as this attempt.
    Retry { attempt: u32, wait_ms: u64 },
    /// The read failed and the retries are used up.
    GiveUp,
}

/// One read of the sequential worker: `read` is the number of bytes that
/// arrived and were written, or `None` where the read failed. Gives the step and
/// the attempt counter after it: a successful read resets the counter, a
/// failure counts one more attempt while the plan allows it.
pub fn sequential_read_step(
    metadata: &mut ResumeMetadata,
    downloaded_bytes: u64,
    attempt: u32,
    plan: &DirectDownloadPlan,
    read: Option<u64>,
) -> (r: (SequentialReadStep, u32))
    requires
        read matches Some(n) ==> downloaded_bytes + n <= u64::MAX,
        read is None && attempt < plan.max_retry_attempts ==> plan.retry_backoff_ms * (attempt + 1) <= u64::MAX,
    ensures
        match read {
            Some(n) => if n == 0 {
                &&& r == (SequentialReadStep::Finished, attempt)
                &&& *final(metadata) == *old(metadata)
            } else {
                &&& r == (SequentialReadStep::Wrote { downloaded_bytes: (downloaded_bytes + n) as u64 }, 0u32)
                &&& final(metadata).downloaded_bytes == downloaded_bytes + n
                &&& final(metadata).chunks@ == if old(metadata).chunks@.len() > 0 {
                    old(metadata).chunks@.update(
                        0,
                        ChunkProgress { downloaded_bytes: (downloaded_bytes + n) as u64, ..old(metadata).chunks@[0] },
                    )
                } else {
                    old(metadata).chunks@
                }
                &&& final(metadata).total_bytes == old(metadata).total_bytes
                &&& final(metadata).source_url == old(metadata).source_url
                &&& final(metadata).final_file_path == old(metadata).final_file_path
                &&& final(metadata).temp_file_path == old(metadata).temp_file_path
                &&& final(metadata).etag == old(metadata).etag
                &&& final(metadata).last_modified == old(metadata).last_modified
            },
            None => {
                &&& *final(metadata) == *old(metadata)
                &&& attempt < plan.max_retry_attempts ==> r == (
                    SequentialReadStep::Retry {
                        attempt: (attempt + 1) as u32,
                        wait_ms: (plan.retry_backoff_ms * (attempt + 1)) as u64,
                    },
                    (attempt + 1) as u32,
                )
                &&& attempt >= plan.max_retry_attempts ==> r == (SequentialReadStep::GiveUp, attempt)
            },
        },
{
    match read {
        Some(n) => {
            if n == 0 {
                (SequentialReadStep::Finished, attempt)
            } else {
                let total = record_sequential_progress(metadata, downloaded_bytes, n);
                (SequentialReadStep::Wrote { downloaded_bytes: total }, 0)
            }
        },
        None => match next_retry(attempt, plan.max_retry_attempts, plan.retry_backoff_ms) {
            Some((next, wait_ms)) => (SequentialReadStep::Retry { attempt: next, wait_ms }, next),
            None => (SequentialReadStep::GiveUp, attempt),
        },
    }
}

/// What a range worker of a parallel download reports to the coordinator.
#[derive(Debug, Clone, PartialEq, Eq)]
pub enum ParallelChunkEvent {
    Progress { chunk_index: u32, downloaded_bytes: u64 },
    Retrying { attempt: u32, max_attempts: u32, wait_ms: u64, message: String },
    Completed,
    Failed(String),
}

/// What the coordinator of a parallel download does after one report.
#[derive(Debug, Clone, PartialEq, Eq)]
pub enum ParallelStep {
    /// Save the resume record and report the bytes so far.
    ReportProgress { downloaded_bytes: u64, total_bytes: Option<u64> },
    /// Pass a worker's retry on.
    ReportRetry { attempt: u32, max_attempts: u32, wait_ms: u64, message: String },
    /// Wait for the next report.
    Continue,
    /// Every range is done: finish the file, which holds this many bytes.
    Finish { total_bytes: u64 },
    /// A range failed for good.
    Fail(String),
}

/// Whether the `Completed` report that follows `before` earlier ones finishes a
/// download of `chunk_count` ranges.
pub open spec fn finishes_download(before: int, chunk_count: int) -> bool {
    before + 1 >= chunk_count
}

/// One report of a range worker, applied to the coordinator's state: the
/// resume record, the per-range byte counts, and how many ranges are done.
pub fn parallel_chunk_step(
    metadata: &mut ResumeMetadata,
    chunk_totals: &mut Vec<u64>,
    completed_chunks: &mut usize,
    chunk_count: usize,
    event: ParallelChunkEvent,
) -> (r: ParallelStep)
    requires
        event matches ParallelChunkEvent::Progress { chunk_index, downloaded_bytes } ==> sum_u64(
            set_if_present(old(chunk_totals)@, chunk_index as int, downloaded_bytes),
        ) <= u64::MAX,
        event is Completed ==> *old(completed_chunks) < usize::MAX,
    ensures
        old(metadata).downloaded_bytes == sum_u64(old(chunk_totals)@) ==> final(metadata).downloaded_bytes
            == sum_u64(final(chunk_totals)@),
        match event {
            ParallelChunkEvent::Progress { chunk_index, downloaded_bytes } => {
                &&& final(chunk_totals)@ == set_if_present(old(chunk_totals)@, chunk_index as int, downloaded_bytes)
                &&& final(metadata).chunks@ == if (chunk_index as int) < old(metadata).chunks@.len() {
                    old(metadata).chunks@.update(
                        chunk_index as int,
                        ChunkProgress { downloaded_bytes, ..old(metadata).chunks@[chunk_index as int] },
                    )
                } else {
                    old(metadata).chunks@
                }
                &&& final(metadata).downloaded_bytes == sum_u64(final(chunk_totals)@)
                &&& final(metadata).total_bytes == old(metadata).total_bytes
                &&& final(metadata).source_url == old(metadata).source_url
                &&& final(metadata).final_file_path == old(metadata).final_file_path
                &&& final(metadata).temp_file_path == old(metadata).temp_file_path
                &&& final(metadata).etag == old(metadata).etag
                &&& final(metadata).last_modified == old(metadata).last_modified
                &&& *final(completed_chunks) == *old(completed_chunks)
                &&& r == ParallelStep::ReportProgress {
                    downloaded_bytes: final(metadata).downloaded_bytes,
                    total_bytes: old(metadata).total_bytes,
                }
            },
            ParallelChunkEvent::Retrying { attempt, max_attempts, wait_ms, message } => {
                &&& *final(metadata) == *old(metadata)
                &&& final(chunk_totals)@ == old(chunk_totals)@
                &&& *final(completed_chunks) == *old(completed_chunks)
                &&& r == ParallelStep::ReportRetry { attempt, max_attempts, wait_ms, message }
            },
            ParallelChunkEvent::Completed => {
                &&& *final(metadata) == *old(metadata)
                &&& final(chunk_totals)@ == old(chunk_totals)@
                &&& *final(completed_chunks) == *old(completed_chunks) + 1
                &&& r == if finishes_download(*old(completed_chunks) as int, chunk_count as int) {
                    ParallelStep::Finish { total_bytes: old(metadata).downloaded_bytes }
                } else {
                    ParallelStep::Continue
                }
            },
            ParallelChunkEvent::Failed(message) => {
                &&& *final(metadata) == *old(metadata)
                &&& final(chunk_totals)@ == old(chunk_totals)@
                &&& *final(completed_chunks) == *old(completed_chunks)
                &&& r == ParallelStep::Fail(message)
            },
        },
{
    match event {
        ParallelChunkEvent::Progress { chunk_index, downloaded_bytes } => {
            record_chunk_progress(metadata, chunk_totals, chunk_index, downloaded_bytes);
            ParallelStep::ReportProgress { downloaded_bytes: metadata.downloaded_bytes, total_bytes: metadata.total_bytes }
        },
        ParallelChunkEvent::Retrying { attempt, max_attempts, wait_ms, message } => {
            ParallelStep::ReportRetry { attempt, max_attempts, wait_ms, message }
        },
        ParallelChunkEvent::Completed => {
            *completed_chunks = *completed_chunks + 1;
            if *completed_chunks >= chunk_count {
                ParallelStep::Finish { total_bytes: metadata.downloaded_bytes }
            } else {
                ParallelStep::Continue
            }
        },
        ParallelChunkEvent::Failed(message) => ParallelStep::Fail(message),
    }
}

/// Counting the ranges' `Completed` reports from none: the download finishes
/// at the report of the last range and at no earlier one.
pub proof fn lemma_parallel_finishes_after_every_range(before: int, chunk_count: int)
    requires
        0 <= before < chunk_count,
    ensures
        finishes_download(before, chunk_count) <==> before == chunk_count - 1,
{
}

// ---------------------------------------------------------------- laws of the file-name rules

proof fn lemma_trim_ends(s: Seq<char>)
    ensures
        trim(s).len() > 0 ==> !is_ws(trim(s)[0]) && !is_ws(trim(s).last()),
        forall|i: int| 0 <= i < trim(s).len() ==> exists|j: int| 0 <= j < s.len() && #[trigger] trim(s)[i] == s[j],
    decreases s.len(),
{
    lemma_leading_ws_bound(s);
    lemma_trailing_ws_bound(s);
    if leading_ws(s) < s.len() {
        let a = leading_ws(s) as int;
        let b = s.len() - trailing_ws(s);
        lemma_leading_stops(s);
        lemma_trailing_stops(s);
        assert forall|i: int| 0 <= i < trim(s).len() implies exists|j: int| 0 <= j < s.len() && #[trigger] trim(s)[i] == s[j] by {
            assert(trim(s)[i] == s[a + i]);
        }
    }
}

proof fn lemma_leading_ws_bound(s: Seq<char>)
    ensures
        leading_ws(s) <= s.len(),
        forall|j: int| 0 <= j < leading_ws(s) ==> is_ws(#[trigger] s[j]),
    decreases s.len(),
{
    if s.len() > 0 && is_ws(s[0]) {
        lemma_leading_ws_bound(s.drop_first());
        assert forall|j: int| 0 <= j < leading_ws(s) implies is_ws(#[trigger] s[j]) by {
            if j > 0 {
                assert(s[j] == s.drop_first()[j - 1]);
            }
        }
    }
}

pub(crate) proof fn lemma_trailing_ws_bound(s: Seq<char>)
    ensures
        trailing_ws(s) <= s.len(),
        forall|j: int| s.len() - trailing_ws(s) <= j < s.len() ==> is_ws(#[trigger] s[j]),
    decreases s.len(),
{
    if s.len() > 0 && is_ws(s.last()) {
        lemma_trailing_ws_bound(s.drop_last());
        assert forall|j: int| s.len() - trailing_ws(s) <= j < s.len() implies is_ws(#[trigger] s[j]) by {
            if j < s.len() - 1 {
                assert(s[j] == s.drop_last()[j]);
            }
        }
    }
}

proof fn lemma_leading_stops(s: Seq<char>)
    ensures
        leading_ws(s) < s.len() ==> !is_ws(s[leading_ws(s) as int]),
    decreases s.len(),
{
    if s.len() > 0 && is_ws(s[0]) {
        lemma_leading_stops(s.drop_first());
        if leading_ws(s) < s.len() {
            assert(s[leading_ws(s) as int] == s.drop_first()[leading_ws(s.drop_first()) as int]);
        }
    }
}

proof fn lemma_trailing_stops(s: Seq<char>)
    ensures
        trailing_ws(s) < s.len() ==> !is_ws(s[s.len() - trailing_ws(s) - 1]),
    decreases s.len(),
{
    if s.len() > 0 && is_ws(s.last()) {
        lemma_trailing_stops(s.drop_last());
        if trailing_ws(s) < s.len() {
            assert(s[s.len() - trailing_ws(s) - 1] == s.drop_last()[s.drop_last().len() - trailing_ws(s.drop_last()) - 1]);
        }
    }
}

/// A trimmed text with no reserved characters and no whitespace at its ends is
/// left as it is by the file-name rules.
proof fn lemma_sanitize_fixed(t: Seq<char>)
    requires
        t.len() > 0,
        !is_ws(t[0]),
        !is_ws(t.last()),
        forall|i: int| 0 <= i < t.len() ==> !is_reserved(#[trigger] t[i]),
    ensures
        sanitized_file_name(t) == t,
{
    assert(replace_reserved(t) =~= t);
    lemma_leading_ws(t, 0);
    lemma_trailing_ws(t, 0);
    assert(t.subrange(0, t.len() as int) =~= t);
}

/// A safe file name holds no reserved character, is never empty, and has no
/// whitespace at either end.
pub proof fn lemma_sanitized_is_safe(s: Seq<char>)
    ensures
        sanitized_file_name(s).len() > 0,
        forall|i: int| 0 <= i < sanitized_file_name(s).len() ==> !is_reserved(#[trigger] sanitized_file_name(s)[i]),
        !is_ws(sanitized_file_name(s)[0]),
        !is_ws(sanitized_file_name(s).last()),
{
    let m = replace_reserved(s);
    lemma_trim_ends(m);
    let t = trim(m);
    if t.len() == 0 {
        reveal_strlit("download.bin");
    } else {
        assert forall|i: int| 0 <= i < t.len() implies !is_reserved(#[trigger] t[i]) by {
            let j = choose|j: int| 0 <= j < m.len() && t[i] == m[j];
            assert(m[j] == (if is_reserved(s[j]) { '_' } else { s[j] }));
        }
    }
}

/// Making a file name safe twice gives the same name as doing it once.
pub proof fn lemma_sanitize_idempotent(s: Seq<char>)
    ensures
        sanitized_file_name(sanitized_file_name(s)) == sanitized_file_name(s),
{
    lemma_sanitized_is_safe(s);
    lemma_sanitize_fixed(sanitized_file_name(s));
}

} // verus!
