use turto::ytdl::sidecar::{
    encode_cookies, error_from_response, parse_announcement, port_from_first_line, reported_version, same_version,
    sidecar_args, sidecar_base, trim_text, SidecarError, SpawnError, STARTUP_TIMEOUT_SECS,
};

#[test]
fn a_padded_version_matches_its_normalized_form() {
    assert!(same_version("2026.07.04", "2026.7.4"));
    assert!(same_version("2026.07.04.232811", "2026.7.4.232811"));
}

#[test]
fn different_releases_do_not_match() {
    assert!(!same_version("2026.07.04", "2026.07.05"));
    assert!(!same_version("2026.07.04", "2026.7.5"));
    assert!(!same_version("2026.07.04", "2026.7.4.232811"));
}

#[test]
fn a_non_numeric_version_compares_as_text() {
    assert!(same_version("2026.07.04rc1", "2026.07.04rc1"));
    assert!(!same_version("2026.07.04rc1", "2026.7.4"));
}

#[test]
fn empty_pieces_make_a_version_textual() {
    assert!(same_version("", ""));
    assert!(!same_version("1..2", "1.0.2"));
    assert!(same_version("1..2", "1..2"));
    assert!(same_version("+1.2", "1.2"), "a piece reads as a number as str::parse reads it");
    assert!(!same_version("18446744073709551616", "18446744073709551616.0"));
}

#[test]
fn the_announcement_line_names_the_number() {
    assert_eq!(parse_announcement("PORT=8123\n"), Some(8123));
    assert_eq!(parse_announcement("  PORT=1 \r\n"), Some(1));
    assert_eq!(parse_announcement("PORT=65535"), Some(65535));
    assert_eq!(parse_announcement("PORT=65536"), None);
    assert_eq!(parse_announcement("PORT="), None);
    assert_eq!(parse_announcement("port=80"), None);
    assert_eq!(parse_announcement("PORT=8 0"), None);
    assert_eq!(parse_announcement("Traceback (most recent call last):"), None);
    assert_eq!(parse_announcement(""), None);
}

#[test]
fn cookies_travel_as_standard_base64() {
    assert_eq!(encode_cookies(None), None);
    assert_eq!(encode_cookies(Some(b"")), Some(String::new()));
    assert_eq!(encode_cookies(Some(b"M")), Some("TQ==".to_string()));
    assert_eq!(encode_cookies(Some(b"Ma")), Some("TWE=".to_string()));
    assert_eq!(encode_cookies(Some(b"Man")), Some("TWFu".to_string()));
    assert_eq!(encode_cookies(Some(&[0xfb, 0xff, 0xfe])), Some("+//+".to_string()));
}

#[test]
fn the_interpreter_is_told_what_it_needs() {
    assert_eq!(
        sidecar_args("s3cr3t", "--js-runtimes=bun", 8),
        vec!["-", "--secret", "s3cr3t", "--bun", "--js-runtimes=bun", "--max-concurrency", "8"]
    );
    assert_eq!(sidecar_base(40123), "http://127.0.0.1:40123");
}

#[test]
fn spawn_failures_read_as_their_cause() {
    assert_eq!(SpawnError::NoPort.message(), "sidecar exited before announcing its port");
    assert_eq!(
        SpawnError::Launch("No such file or directory".to_string()).message(),
        "failed to launch the sidecar interpreter: No such file or directory"
    );
    assert_eq!(
        SpawnError::Timeout(STARTUP_TIMEOUT_SECS).message(),
        "sidecar did not become ready within 30"
    );
    assert_eq!(
        SpawnError::BadPortLine { line: "hello\n".to_string() }.message(),
        "expected a `PORT=<n>` line from the sidecar, got \"hello\\n\""
    );
}

#[test]
fn a_spawn_failure_folds_in_the_trimmed_stderr() {
    let err = SidecarError::spawn(SpawnError::NoPort, "\n  Traceback: boom \n");
    match &err {
        SidecarError::Spawn { stderr, .. } => assert_eq!(stderr.as_deref(), Some("Traceback: boom")),
        other => panic!("unexpected {other:?}"),
    }
    assert_eq!(
        err.message(),
        "sidecar spawn failed: sidecar exited before announcing its port; sidecar stderr: Traceback: boom"
    );
    let quiet = SidecarError::spawn(SpawnError::NoPort, " \t\n");
    assert!(matches!(quiet, SidecarError::Spawn { stderr: None, .. }));
    assert_eq!(quiet.message(), "sidecar spawn failed: sidecar exited before announcing its port");
}

#[test]
fn an_endpoint_failure_names_the_endpoint_and_status() {
    let err = error_from_response("/extract", 500, Some("Video unavailable".to_string()), Some("DownloadError".to_string()));
    assert_eq!(err.message(), "sidecar /extract failed (500, DownloadError): Video unavailable");
    let bare = error_from_response("/health", 503, None, None);
    assert_eq!(bare.message(), "sidecar /health failed (503): unknown error");
}

#[test]
fn the_other_sidecar_failures_read_as_their_cause() {
    assert_eq!(SidecarError::NotStarted.message(), "sidecar not started");
    assert_eq!(
        SidecarError::MissingHealthVersion.message(),
        "sidecar /health response did not include a yt-dlp version"
    );
    assert_eq!(
        SidecarError::Cookies { path: "c.txt".to_string(), source: "denied".to_string() }.message(),
        "failed to read cookies file c.txt: denied"
    );
    assert_eq!(SidecarError::Http("timed out".to_string()).message(), "http error: timed out");
    assert_eq!(SidecarError::Update("no uv".to_string()).message(), "yt-dlp update failed: no uv");
}

#[test]
fn a_health_answer_must_name_a_version() {
    assert_eq!(reported_version(Some("2026.07.04".to_string())).unwrap(), "2026.07.04");
    assert!(matches!(reported_version(None), Err(SidecarError::MissingHealthVersion)));
}

#[test]
fn the_first_line_announces_the_listening_port() {
    assert_eq!(port_from_first_line(Some("PORT=41234\n".to_string())).unwrap(), 41234);
    assert!(matches!(port_from_first_line(None), Err(SpawnError::NoPort)));
    match port_from_first_line(Some("Traceback\n".to_string())) {
        Err(SpawnError::BadPortLine { line }) => assert_eq!(line, "Traceback\n"),
        other => panic!("unexpected {other:?}"),
    }
    assert!(matches!(
        port_from_first_line(Some("PORT=70000".to_string())),
        Err(SpawnError::BadPortLine { .. })
    ));
}

#[test]
fn trimming_drops_whitespace_at_both_ends_only() {
    assert_eq!(trim_text("  a b \n"), "a b");
    assert_eq!(trim_text("\u{3000}x"), "x");
    assert_eq!(trim_text(" \t "), "");
}
