use turto::models::url::youtube_url::YouTubeUrl;
use turto::models::url::ParsedUrl;
use turto::models::url_type::UrlType;
use turto::utils::url::UrlParseError;

#[test]
fn youtube_links_are_read() {
    match ParsedUrl::from_str("https://www.youtube.com/watch?v=abc&list=PL9&t=42s").unwrap() {
        ParsedUrl::Youtube(u) => {
            assert_eq!(
                u,
                YouTubeUrl::Video {
                    video_id: "abc".to_string(),
                    playlist_id: Some("PL9".to_string()),
                    time: Some(42)
                }
            );
            assert_eq!(u.to_string(), "https://www.youtube.com/watch?v=abc&list=PL9&t=42s");
            assert!(u.is_video());
            assert!(!u.is_playlist());
        }
        other => panic!("got {other:?}"),
    }
    match ParsedUrl::from_str("https://youtu.be/xyz").unwrap() {
        ParsedUrl::Youtube(u) => assert_eq!(u.to_string(), "https://www.youtube.com/watch?v=xyz"),
        other => panic!("got {other:?}"),
    }
    match ParsedUrl::from_str("https://www.youtube.com/playlist?list=PL1").unwrap() {
        ParsedUrl::Youtube(u) => assert!(u.is_playlist()),
        other => panic!("got {other:?}"),
    }
}

#[test]
fn other_links_are_kept_as_written() {
    match ParsedUrl::from_str("https://example.invalid/a?b=c").unwrap() {
        ParsedUrl::Other(s) => assert_eq!(s, "https://example.invalid/a?b=c"),
        other => panic!("got {other:?}"),
    }
    assert!(matches!(ParsedUrl::from_str("not a url"), Err(UrlParseError::RelativeUrlWithoutBase)));
    assert!(matches!(ParsedUrl::from_str("https://"), Err(UrlParseError::EmptyHost)));
}

#[test]
fn the_builder_needs_an_id() {
    assert!(YouTubeUrl::builder().build().is_none());
    let mut b = YouTubeUrl::builder();
    b.playlist_id("PL").time(5);
    assert_eq!(b.build(), Some(YouTubeUrl::Playlist { playlist_id: "PL".to_string() }));
    b.video_id("v");
    assert_eq!(
        b.build().unwrap().to_string(),
        "https://www.youtube.com/watch?v=v&list=PL&t=5s"
    );
}

#[test]
fn link_types() {
    assert_eq!(
        UrlType::from_str("https://www.youtube.com/watch?v=abc&t=1m5s").unwrap(),
        UrlType::Youtube { id: "abc".to_string(), time: None }
    );
    assert_eq!(
        UrlType::from_str("https://www.youtube.com/watch?v=abc&t=65s").unwrap(),
        UrlType::Youtube { id: "abc".to_string(), time: Some(65) }
    );
    assert_eq!(
        UrlType::from_str("https://www.youtube.com/watch?v=abc&list=L").unwrap(),
        UrlType::YoutubePlaylist { playlist_id: "L".to_string() }
    );
    assert_eq!(
        UrlType::from_str("https://youtu.be/q?t=3").unwrap().to_string(),
        "https://www.youtube.com/watch?v=q&t=3"
    );
    assert_eq!(UrlType::try_from_str("data:text/plain,hi"), None);
    assert_eq!(
        UrlType::from_str("https://other.invalid/").unwrap(),
        UrlType::Other("https://other.invalid/".to_string())
    );
}

#[test]
fn a_youtube_link_reads_back_from_its_text() {
    let links = [
        YouTubeUrl::Video { video_id: "dQw4w9WgXcQ".to_string(), playlist_id: None, time: None },
        YouTubeUrl::Video { video_id: "a-b_c".to_string(), playlist_id: Some("PLx_y-z".to_string()), time: Some(0) },
        YouTubeUrl::Video { video_id: "v1".to_string(), playlist_id: None, time: Some(18446744073709551615) },
        YouTubeUrl::Playlist { playlist_id: "PL123".to_string() },
    ];
    for link in links {
        let text = ParsedUrl::Youtube(link.clone()).to_string();
        assert_eq!(text, link.to_string());
        match ParsedUrl::from_str(&text) {
            Ok(ParsedUrl::Youtube(back)) => assert_eq!(back, link),
            other => panic!("{text} read as {other:?}"),
        }
    }
}
