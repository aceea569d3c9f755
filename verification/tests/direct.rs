use turto::ytdl::chunked::FetchError;
use turto::ytdl::direct::{same_format, Attempts, Recovery, MAX_REFRESHES, MAX_RETRIES};
use turto::ytdl::direct::refresh_target;
use turto::ytdl::source::FormatInfo;

fn rejected() -> FetchError {
    FetchError::Rejected(403)
}

fn transport() -> FetchError {
    FetchError::Transport("connection reset".to_string())
}

#[test]
fn transport_failures_retry_up_to_the_budget() {
    let mut attempts = Attempts::new(0);
    for _ in 0..MAX_RETRIES {
        assert_eq!(attempts.next(0, &transport()), Recovery::Retry);
    }
    assert_eq!(
        attempts.next(0, &transport()),
        Recovery::Fail,
        "a fetch stuck at one offset must give up"
    );
}

#[test]
fn rejections_refresh_immediately() {
    let mut attempts = Attempts::new(0);
    assert_eq!(attempts.next(0, &rejected()), Recovery::Refresh);
}

#[test]
fn rejections_do_not_spend_the_retry_budget() {
    let mut attempts = Attempts::new(0);
    for _ in 0..MAX_REFRESHES {
        assert_eq!(attempts.next(0, &rejected()), Recovery::Refresh);
    }
    assert_eq!(attempts.next(0, &rejected()), Recovery::Fail);
    assert_eq!(attempts.retries, 0, "a rejection must never consume a retry");
}

#[test]
fn progress_resets_the_budget() {
    let mut attempts = Attempts::new(0);
    for _ in 0..MAX_RETRIES {
        assert_eq!(attempts.next(0, &transport()), Recovery::Retry);
    }
    assert_eq!(
        attempts.next(4096, &transport()),
        Recovery::Retry,
        "progress must restore the retry budget"
    );
    assert_eq!(attempts.stuck_at, 4096);
    assert_eq!(attempts.retries, 1);
}

#[test]
fn progress_resets_refreshes() {
    let mut attempts = Attempts::new(0);
    for _ in 0..MAX_REFRESHES {
        assert_eq!(attempts.next(0, &rejected()), Recovery::Refresh);
    }
    assert_eq!(attempts.next(0, &rejected()), Recovery::Fail);
    assert_eq!(
        attempts.next(1_000_000, &rejected()),
        Recovery::Refresh,
        "a later expiry is a fresh problem, not a continuation"
    );
}

#[test]
fn truncation_fails_immediately_without_spending_a_budget() {
    let mut attempts = Attempts::new(4096);
    let truncated = FetchError::Truncated {
        at: 4096,
        total: 25_000,
        declared: Some(4096),
    };
    assert_eq!(attempts.next(4096, &truncated), Recovery::Fail);
    assert_eq!(attempts.retries, 0, "truncation must not consume a retry");
    assert_eq!(attempts.refreshes, 0, "truncation must not consume a refresh");
}

#[test]
fn only_an_identical_declared_length_may_resume_in_place() {
    assert!(same_format(Some(9_000), Some(9_000)));
    assert!(
        !same_format(Some(9_000), Some(9_001)),
        "a different length is proof of a different encoding"
    );
    assert!(
        !same_format(None, None),
        "two unknown lengths are not a match; nothing has been ruled out"
    );
    assert!(!same_format(Some(9_000), None));
    assert!(!same_format(None, Some(9_000)));
}

#[test]
fn same_offset_is_not_progress() {
    let mut attempts = Attempts::new(100);
    assert_eq!(attempts.next(100, &transport()), Recovery::Retry);
    assert_eq!(attempts.retries, 1, "the streak must continue at 100");
    assert_eq!(attempts.next(99, &transport()), Recovery::Retry);
    assert_eq!(attempts.retries, 2, "an earlier offset is not progress either");
}

#[test]
fn a_fresh_budget_starts_where_the_download_does() {
    let attempts = Attempts::new(77);
    assert_eq!(attempts, Attempts { stuck_at: 77, retries: 0, refreshes: 0 });
}

#[test]
fn a_refresh_resumes_only_the_same_direct_format() {
    let fmt = |protocol: &str, size: Option<u64>| FormatInfo {
        protocol: Some(protocol.to_string()),
        url: "https://media.example/v?sig=new".to_string(),
        filesize: size,
        http_headers: Some(vec![("User-Agent".to_string(), "turto".to_string())]),
    };
    let (url, headers) = refresh_target(Some(100), &fmt("https", Some(100))).unwrap();
    assert_eq!(url, "https://media.example/v?sig=new");
    assert_eq!(headers.get("user-agent").unwrap(), "turto");
    assert_eq!(
        refresh_target(Some(100), &fmt("https", Some(99))).unwrap_err(),
        "re-extract changed the format (Some(100) -> Some(99) bytes); cannot resume in place"
    );
    assert_eq!(
        refresh_target(None, &fmt("https", None)).unwrap_err(),
        "re-extract changed the format (None -> None bytes); cannot resume in place"
    );
    assert_eq!(
        refresh_target(Some(100), &fmt("m3u8_native", Some(100))).unwrap_err(),
        "format is no longer a direct http download"
    );
}
