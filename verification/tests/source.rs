use turto::ytdl::headers::build_header_map;
use turto::ytdl::source::{classify_source, direct_url, is_direct, ByteSource, FormatInfo};
use turto::ytdl::has_yt_playlist;

fn format(protocol: Option<&str>, url: &str) -> FormatInfo {
    FormatInfo {
        protocol: protocol.map(str::to_string),
        url: url.to_string(),
        filesize: Some(1234),
        http_headers: Some(vec![
            ("User-Agent".to_string(), "turto".to_string()),
            ("Bad Name".to_string(), "x".to_string()),
            ("X-Bad-Value".to_string(), "a\nb".to_string()),
        ]),
    }
}

#[test]
fn plain_http_with_a_url_is_direct() {
    assert!(is_direct(&format(Some("https"), "https://v.invalid/a")));
    assert!(is_direct(&format(Some("http"), "http://v.invalid/a")));
    assert!(!is_direct(&format(Some("https"), "")));
    assert!(!is_direct(&format(Some("m3u8_native"), "https://v.invalid/a.m3u8")));
    assert!(!is_direct(&format(None, "https://v.invalid/a")));
    assert!(!is_direct(&format(Some("HTTPS"), "https://v.invalid/a")));
}

#[test]
fn formats_are_classified_into_their_byte_path() {
    match classify_source(&format(Some("m3u8_native"), "https://v.invalid/a.m3u8")) {
        ByteSource::Hls { url, headers } => {
            assert_eq!(url, "https://v.invalid/a.m3u8");
            assert_eq!(headers.len(), 1);
            assert_eq!(headers.get("user-agent").unwrap(), "turto");
        }
        _ => panic!("an m3u8 format is walked as HLS"),
    }
    match classify_source(&format(Some("https"), "https://v.invalid/a")) {
        ByteSource::Http { url, headers, filesize } => {
            assert_eq!(url, "https://v.invalid/a");
            assert_eq!(filesize, Some(1234));
            assert_eq!(headers.len(), 1);
        }
        _ => panic!("a direct format is fetched in ranges"),
    }
    let sidecar = classify_source(&format(Some("http_dash_segments"), "https://v.invalid/a"));
    assert!(matches!(sidecar, ByteSource::Sidecar));
    assert_eq!(sidecar.label(), "sidecar");
    assert_eq!(classify_source(&format(Some("m3u8"), "u")).label(), "hls");
    assert_eq!(classify_source(&format(Some("https"), "u")).label(), "http");
}

#[test]
fn only_a_still_direct_format_resumes_in_place() {
    let (url, headers) = direct_url(&format(Some("https"), "https://v.invalid/fresh")).expect("direct");
    assert_eq!(url, "https://v.invalid/fresh");
    assert_eq!(headers.len(), 1);
    assert!(direct_url(&format(Some("m3u8"), "https://v.invalid/a.m3u8")).is_none());
}

#[test]
fn a_later_header_of_the_same_name_replaces_an_earlier_one() {
    let pairs = Some(vec![
        ("Referer".to_string(), "https://a.invalid/".to_string()),
        ("referer".to_string(), "https://b.invalid/".to_string()),
        ("Accept".to_string(), "*/*".to_string()),
    ]);
    let map = build_header_map(&pairs);
    assert_eq!(map.len(), 2);
    assert_eq!(map.get("referer").unwrap(), "https://b.invalid/");
    assert!(build_header_map(&None).is_empty());
}

#[test]
fn youtube_playlists_are_recognized_by_host_and_list() {
    assert!(has_yt_playlist("https://www.youtube.com/playlist?list=PL123"));
    assert!(has_yt_playlist("https://music.youtube.com/watch?v=x&list=RD1"));
    assert!(has_yt_playlist("https://youtu.be/abc?list=PL1"));
    assert!(!has_yt_playlist("https://www.youtube.com/watch?v=abc"));
    assert!(!has_yt_playlist("https://example.invalid/?list=PL1"));
    assert!(!has_yt_playlist("not a url"));
}
