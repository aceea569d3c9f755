use turto::ytdl::chunked::{
    chunk_end, first_past_end, later_past_end, next_chunk, pace_room, range_status, unsatisfied_length, ChunkStep,
    FetchError, RangeStatus, HTTP_CHUNK,
};
use turto::ytdl::chunked::range_header;
use turto::ytdl::chunked::{stalled, status_failure};

#[test]
fn chunks_stop_at_the_declared_length() {
    assert_eq!(chunk_end(0, HTTP_CHUNK, None), HTTP_CHUNK);
    assert_eq!(chunk_end(0, HTTP_CHUNK, Some(100)), 100);
    assert_eq!(chunk_end(50, 10, Some(100)), 60);
}

#[test]
fn statuses_are_classified() {
    assert_eq!(range_status(206), RangeStatus::Body);
    assert_eq!(range_status(200), RangeStatus::Body);
    assert_eq!(range_status(416), RangeStatus::PastEnd);
    assert_eq!(range_status(403), RangeStatus::Rejected);
    assert_eq!(range_status(401), RangeStatus::Rejected);
    assert_eq!(range_status(410), RangeStatus::Rejected);
    assert_eq!(range_status(500), RangeStatus::Failed);
    assert_eq!(range_status(404), RangeStatus::Failed);
}

#[test]
fn the_next_chunk_or_the_end() {
    assert_eq!(next_chunk(0, None, Some(25_000), 10_000), ChunkStep::Fetch(10_000));
    assert_eq!(next_chunk(20_000, Some(10_000), Some(25_000), 10_000), ChunkStep::Fetch(25_000));
    assert_eq!(next_chunk(25_000, Some(20_000), Some(25_000), 10_000), ChunkStep::End);
    assert_eq!(next_chunk(10_000, Some(10_000), None, 10_000), ChunkStep::Stalled);
    assert_eq!(next_chunk(10_000, Some(0), None, 10_000), ChunkStep::Fetch(20_000));
}

#[test]
fn a_416_means_the_end_or_a_contradiction() {
    assert!(matches!(first_past_end(0, None, None), Err(FetchError::Transport(_))));
    assert_eq!(
        first_past_end(4096, Some(25_000), Some(4096)),
        Err(FetchError::Truncated { at: 4096, total: 25_000, declared: Some(4096) })
    );
    assert_eq!(first_past_end(25_000, Some(25_000), None), Ok(()));
    assert_eq!(first_past_end(10, None, None), Ok(()));
    assert_eq!(later_past_end(10, None, None), None);
    assert_eq!(
        later_past_end(10, Some(20), None),
        Some(FetchError::Truncated { at: 10, total: 20, declared: None })
    );
    assert_eq!(later_past_end(20, Some(20), None), None);
}

#[test]
fn the_length_a_416_reports() {
    assert_eq!(unsatisfied_length(Some("bytes */25000")), Some(25_000));
    assert_eq!(unsatisfied_length(Some("  bytes */12\t")), Some(12));
    assert_eq!(unsatisfied_length(Some("bytes */*")), None);
    assert_eq!(unsatisfied_length(None), None);
}

#[test]
fn the_pace_gate_holds_until_playback_starts() {
    assert_eq!(pace_room(0, 0, false, 1024, false), Some(true));
    assert_eq!(pace_room(10, 0, false, 1024, false), None);
    assert_eq!(pace_room(1000, 0, true, 1024, false), Some(true));
    assert_eq!(pace_room(3000, 1000, true, 1024, false), None);
    assert_eq!(pace_room(3000, 1000, true, 1024, true), Some(false));
}

#[test]
fn a_range_header_names_both_ends_inclusively() {
    assert_eq!(range_header(0, 10485760), "bytes=0-10485759");
    assert_eq!(range_header(7, 8), "bytes=7-7");
}

#[test]
fn fetch_failures_read_as_their_cause() {
    assert_eq!(FetchError::Rejected(403).message(), "range request rejected with status 403 Forbidden");
    assert_eq!(FetchError::Transport("reset".to_string()).message(), "range fetch failed: reset");
    assert_eq!(
        FetchError::Truncated { at: 5, total: 10, declared: Some(7) }.message(),
        "range from 5 refused but the format declares 10 bytes (server: Some(7))"
    );
    assert_eq!(
        FetchError::Truncated { at: 5, total: 10, declared: None }.message(),
        "range from 5 refused but the format declares 10 bytes (server: None)"
    );
    assert_eq!(stalled(42), FetchError::Transport("range from 42 delivered no bytes".to_string()));
    assert_eq!(
        status_failure(503),
        FetchError::Transport("range request failed with status 503 Service Unavailable".to_string())
    );
}
