use nebula_dm::categories::default_download_categories;
use nebula_dm::direct::{
    build_chunk_progress, build_direct_download_plan, chunk_length, closed_range_header, create_resume_metadata,
    initial_chunk_totals, merge_retry_session, next_retry, open_range_header, parallel_chunk_step, parse_total_bytes,
    resume_decision, sanitize_file_name, sequential_read_step, server_supports_ranges, ChunkProgress,
    ParallelChunkEvent, ParallelStep, SequentialReadStep,
};
use nebula_dm::model::{DownloadKind, DownloadRequest};
use reqwest::header::{HeaderMap, HeaderValue, CONTENT_LENGTH, CONTENT_RANGE};

fn direct_request(name: &str) -> DownloadRequest {
    DownloadRequest::new(name.to_owned(), format!("https://example.com/{name}"), DownloadKind::Direct)
}

#[test]
fn direct_download_plan_uses_category_folder() {
    let categories = default_download_categories();
    let request = DownloadRequest::new(
        "setup.exe".to_owned(),
        "https://example.com/setup.exe".to_owned(),
        DownloadKind::Direct,
    );

    let plan = build_direct_download_plan(&request, "Downloads", &categories);

    assert_eq!(plan.target.category_name, "Programs");
    assert_eq!(plan.final_file_path, "Downloads/Programs/setup.exe");
    assert_eq!(plan.temp_file_path, "Downloads/Programs/setup.exe.part");
}

#[test]
fn resume_metadata_starts_with_single_chunk() {
    let categories = default_download_categories();
    let request = DownloadRequest::new(
        "video.mp4".to_owned(),
        "https://example.com/video.mp4".to_owned(),
        DownloadKind::Direct,
    );

    let plan = build_direct_download_plan(&request, "Downloads", &categories);
    let metadata = create_resume_metadata(&request, &plan, Some(1024));

    assert_eq!(metadata.final_file_path, "Downloads/Videos/video.mp4");
    assert_eq!(metadata.chunks.len(), 1);
    assert_eq!(metadata.chunks[0].end_byte, Some(1023));
}

#[test]
fn direct_download_plan_sets_retry_defaults() {
    let categories = default_download_categories();
    let request = DownloadRequest::new(
        "retry.iso".to_owned(),
        "https://example.com/retry.iso".to_owned(),
        DownloadKind::Direct,
    );

    let plan = build_direct_download_plan(&request, "Downloads", &categories);

    assert_eq!(plan.max_retry_attempts, 4);
    assert_eq!(plan.retry_backoff_ms, 1200);
}

#[test]
fn parse_total_bytes_prefers_content_range_total() {
    let mut headers = HeaderMap::new();
    headers.insert(CONTENT_RANGE, HeaderValue::from_static("bytes 100-199/500"));
    headers.insert(CONTENT_LENGTH, HeaderValue::from_static("100"));

    let total = parse_total_bytes(
        headers.get(CONTENT_RANGE).and_then(|value| value.to_str().ok()),
        headers.get(CONTENT_LENGTH).and_then(|value| value.to_str().ok()),
        100,
    );

    assert_eq!(total, Some(500));
}

#[test]
fn create_resume_metadata_splits_large_downloads_into_parallel_chunks() {
    let categories = default_download_categories();
    let request = DownloadRequest::new(
        "movie.mkv".to_owned(),
        "https://example.com/movie.mkv".to_owned(),
        DownloadKind::Direct,
    );

    let plan = build_direct_download_plan(&request, "Downloads", &categories);
    let metadata = create_resume_metadata(&request, &plan, Some(32 * 1024 * 1024));

    assert!(metadata.chunks.len() > 1);
    assert_eq!(metadata.chunks.first().map(|chunk| chunk.start_byte), Some(0));
    assert_eq!(metadata.chunks.last().and_then(|chunk| chunk.end_byte), Some((32 * 1024 * 1024) - 1));
}

#[test]
fn plan_writes_metadata_beside_the_file() {
    let categories = default_download_categories();
    let plan = build_direct_download_plan(&direct_request("notes.pdf"), "D", &categories);
    assert_eq!(plan.target.category_name, "Documents");
    assert_eq!(plan.metadata_file_path, "D/Documents/notes.pdf.json");
    assert!(plan.supports_resume);
    assert_eq!(plan.chunk_size_bytes, 4 * 1024 * 1024);
    assert_eq!(plan.parallel_connections, 4);
}

#[test]
fn plan_sanitizes_reserved_characters() {
    let categories = default_download_categories();
    let plan = build_direct_download_plan(&direct_request("a:b?.zip"), "D", &categories);
    assert_eq!(plan.target.category_name, "Programs");
    assert_eq!(plan.final_file_path, "D/Programs/a_b_.zip");
}

#[test]
fn sanitize_file_name_replaces_and_trims() {
    assert_eq!(sanitize_file_name("  re<po>rt|1*.txt  "), "re_po_rt_1_.txt");
    assert_eq!(sanitize_file_name("   "), "download.bin");
    assert_eq!(sanitize_file_name(""), "download.bin");
    let once = sanitize_file_name(" x/y\\z ");
    assert_eq!(once, "x_y_z");
    assert_eq!(sanitize_file_name(&once), once);
}

#[test]
fn chunk_layout_covers_every_byte_once() {
    let chunks = build_chunk_progress(10, 4, 8);
    let expected = vec![
        ChunkProgress { index: 0, start_byte: 0, end_byte: Some(3), downloaded_bytes: 0 },
        ChunkProgress { index: 1, start_byte: 4, end_byte: Some(6), downloaded_bytes: 0 },
        ChunkProgress { index: 2, start_byte: 7, end_byte: Some(9), downloaded_bytes: 0 },
    ];
    assert_eq!(chunks, expected);
}

#[test]
fn chunk_layout_is_capped_by_connections() {
    let chunks = build_chunk_progress(100, 10, 2);
    assert_eq!(chunks.len(), 2);
    assert_eq!(chunks[0].start_byte, 0);
    assert_eq!(chunks[0].end_byte, Some(49));
    assert_eq!(chunks[1].start_byte, 50);
    assert_eq!(chunks[1].end_byte, Some(99));
}

#[test]
fn unknown_size_gives_one_open_chunk() {
    let categories = default_download_categories();
    let request = direct_request("stream.bin");
    let plan = build_direct_download_plan(&request, "Downloads", &categories);
    let metadata = create_resume_metadata(&request, &plan, None);
    assert_eq!(metadata.chunks.len(), 1);
    assert_eq!(metadata.chunks[0].start_byte, 0);
    assert_eq!(metadata.chunks[0].end_byte, None);
    assert_eq!(metadata.total_bytes, None);
    assert_eq!(metadata.source_url, "https://example.com/stream.bin");
}

#[test]
fn total_bytes_from_content_length_adds_existing_bytes() {
    assert_eq!(parse_total_bytes(None, Some("100"), 50), Some(150));
    assert_eq!(parse_total_bytes(Some("bytes 0-9/*"), Some("10"), 0), Some(10));
    assert_eq!(parse_total_bytes(None, None, 0), None);
    assert_eq!(parse_total_bytes(None, Some("abc"), 0), None);
    assert_eq!(parse_total_bytes(Some("bytes 0-1/10"), Some("18446744073709551615"), 5), Some(10));
}

#[test]
fn ranges_are_supported_by_header_or_partial_content() {
    assert!(server_supports_ranges(Some("bytes"), false));
    assert!(!server_supports_ranges(Some("BYTES"), false));
    assert!(server_supports_ranges(None, true));
    assert!(!server_supports_ranges(Some("none"), false));
    assert!(!server_supports_ranges(None, false));
}

#[test]
fn resume_requires_a_range_capable_server() {
    assert_eq!(resume_decision(0, true, true, false), Ok(false));
    assert_eq!(resume_decision(10, true, true, false), Ok(true));
    assert_eq!(resume_decision(10, true, false, false), Ok(false));
    assert!(resume_decision(10, true, false, true).is_err());
}

#[test]
fn retries_back_off_linearly_until_the_limit() {
    assert_eq!(next_retry(0, 4, 1200), Some((1, 1200)));
    assert_eq!(next_retry(2, 4, 1200), Some((3, 3600)));
    assert_eq!(next_retry(4, 4, 1200), None);
}

#[test]
fn range_headers_are_written_in_http_form() {
    assert_eq!(open_range_header(1024), "bytes=1024-");
    assert_eq!(closed_range_header(0, 99), "bytes=0-99");
}

#[test]
fn chunk_length_needs_a_closed_range() {
    let closed = ChunkProgress { index: 0, start_byte: 10, end_byte: Some(19), downloaded_bytes: 0 };
    assert_eq!(chunk_length(&closed), Ok(10));
    let open = ChunkProgress { index: 0, start_byte: 10, end_byte: None, downloaded_bytes: 0 };
    assert!(chunk_length(&open).is_err());
}

#[test]
fn sequential_reads_count_bytes_and_retry() {
    let categories = default_download_categories();
    let request = direct_request("big.iso");
    let plan = build_direct_download_plan(&request, "D", &categories);
    let mut metadata = create_resume_metadata(&request, &plan, None);
    assert_eq!(sequential_read_step(&mut metadata, 0, 2, &plan, Some(10)), (SequentialReadStep::Wrote { downloaded_bytes: 10 }, 0));
    assert_eq!(metadata.downloaded_bytes, 10);
    assert_eq!(metadata.chunks[0].downloaded_bytes, 10);
    assert_eq!(sequential_read_step(&mut metadata, 10, 0, &plan, None), (SequentialReadStep::Retry { attempt: 1, wait_ms: 1200 }, 1));
    assert_eq!(sequential_read_step(&mut metadata, 10, 4, &plan, None), (SequentialReadStep::GiveUp, 4));
    assert_eq!(sequential_read_step(&mut metadata, 10, 3, &plan, Some(0)), (SequentialReadStep::Finished, 3));
    assert_eq!(metadata.downloaded_bytes, 10);
}

#[test]
fn reconnection_takes_the_new_size_and_validators() {
    let categories = default_download_categories();
    let request = direct_request("big.iso");
    let plan = build_direct_download_plan(&request, "D", &categories);
    let mut metadata = create_resume_metadata(&request, &plan, Some(100));
    metadata.etag = Some("old".to_owned());
    metadata.last_modified = Some("monday".to_owned());
    let merged = merge_retry_session(metadata.clone(), Some(200), Some("new".to_owned()), None);
    assert_eq!(merged.total_bytes, Some(200));
    assert_eq!(merged.etag.as_deref(), Some("new"));
    assert_eq!(merged.last_modified.as_deref(), Some("monday"));
    assert_eq!(merged.chunks, metadata.chunks);
}

#[test]
fn parallel_download_finishes_after_every_range() {
    let categories = default_download_categories();
    let request = direct_request("movie.mkv");
    let plan = build_direct_download_plan(&request, "D", &categories);
    let mut metadata = create_resume_metadata(&request, &plan, Some(32 * 1024 * 1024));
    let count = metadata.chunks.len();
    assert_eq!(count, 4);
    let mut totals = initial_chunk_totals(&metadata);
    let mut completed = 0usize;
    let step = parallel_chunk_step(&mut metadata, &mut totals, &mut completed, count, ParallelChunkEvent::Progress {
        chunk_index: 1,
        downloaded_bytes: 500,
    });
    assert_eq!(step, ParallelStep::ReportProgress { downloaded_bytes: 500, total_bytes: Some(32 * 1024 * 1024) });
    let step = parallel_chunk_step(&mut metadata, &mut totals, &mut completed, count, ParallelChunkEvent::Progress {
        chunk_index: 2,
        downloaded_bytes: 300,
    });
    assert_eq!(step, ParallelStep::ReportProgress { downloaded_bytes: 800, total_bytes: Some(32 * 1024 * 1024) });
    for _ in 0..3 {
        assert_eq!(parallel_chunk_step(&mut metadata, &mut totals, &mut completed, count, ParallelChunkEvent::Completed), ParallelStep::Continue);
    }
    assert_eq!(
        parallel_chunk_step(&mut metadata, &mut totals, &mut completed, count, ParallelChunkEvent::Completed),
        ParallelStep::Finish { total_bytes: 800 }
    );
    assert_eq!(completed, 4);
    assert_eq!(
        parallel_chunk_step(&mut metadata, &mut totals, &mut completed, count, ParallelChunkEvent::Failed("x".to_owned())),
        ParallelStep::Fail("x".to_owned())
    );
}
