use reqwest::header::{HeaderMap, AUTHORIZATION, COOKIE, REFERER};
use turto::ytdl::hls::{
    body_take, bounds, expected_body, follow_master, init_to_fetch, parse, parse_master, pick_variant,
    range_shortfall, repoll_wait, snapshot_from, strip_foreign_credentials, HlsError, Init, MediaInfo,
    ResponseRefusal, Segment, SegmentInfo, StaleClock, MIN_POLL_NANOS,
};
use turto::utils::url::UrlParseError;
use url::Url;
use turto::ytdl::hls::{inclusive_range_header, playlist_status_failure, shortfall_message, timed_out_message};

#[test]
fn only_a_real_key_counts_as_encrypted() {
    let base = Url::parse("https://example.invalid/hls/index.m3u8").unwrap();
    let with_key = |key: &str| {
        format!("#EXTM3U\n#EXT-X-TARGETDURATION:1\n{key}\n#EXTINF:1.0,\nseg1.ts\n#EXT-X-ENDLIST\n")
    };

    let err = parse(
        base.as_str(),
        &with_key("#EXT-X-KEY:METHOD=AES-128,URI=\"k.key\""),
        0,
    )
    .err()
    .expect("an encrypted playlist must be refused");
    assert!(matches!(err, HlsError::Encrypted(_)), "got {err:?}");

    let snapshot = parse(base.as_str(), &with_key("#EXT-X-KEY:METHOD=NONE"), 0)
        .expect("METHOD=NONE is not encryption");
    assert_eq!(snapshot.fresh.len(), 1);
}

#[test]
fn segment_uris_resolve_against_the_playlist() {
    let base = Url::parse("https://cdn.invalid/hls/720p/index.m3u8").unwrap();
    let playlist = &[
        "#EXTM3U\n#EXT-X-TARGETDURATION:1\n#EXT-X-MEDIA-SEQUENCE:97\n",
        "#EXTINF:1.0,\nseg97.ts\n",
        "#EXTINF:1.0,\n../shared/seg98.ts\n",
        "#EXTINF:1.0,\n/root/seg99.ts\n",
        "#EXTINF:1.0,\nhttps://other.invalid/seg100.ts\n",
    ].concat();

    let snapshot = parse(base.as_str(), playlist, 0).expect("parse");

    let urls: Vec<_> = snapshot
        .fresh
        .iter()
        .map(|segment| (segment.seq, segment.url.clone()))
        .collect();
    assert_eq!(
        urls,
        vec![
            (97, "https://cdn.invalid/hls/720p/seg97.ts".to_owned()),
            (98, "https://cdn.invalid/hls/shared/seg98.ts".to_owned()),
            (99, "https://cdn.invalid/root/seg99.ts".to_owned()),
            (100, "https://other.invalid/seg100.ts".to_owned()),
        ],
        "sequence numbers must be absolute and URIs resolved against the playlist"
    );
    assert_eq!(
        snapshot.first_seq, 97,
        "the window's start is what a later poll is compared against"
    );
    assert!(!snapshot.ended, "no end list means keep polling");
}

#[test]
fn a_repoll_yields_only_what_is_new() {
    let base = Url::parse("https://cdn.invalid/hls/index.m3u8").unwrap();
    let playlist = &[
        "#EXTM3U\n#EXT-X-TARGETDURATION:1\n#EXT-X-MEDIA-SEQUENCE:10\n",
        "#EXTINF:1.0,\nseg10.ts\n",
        "#EXTINF:1.0,\nseg11.ts\n",
    ].concat();

    assert_eq!(parse(base.as_str(), playlist, 0).unwrap().fresh.len(), 2);
    assert_eq!(parse(base.as_str(), playlist, 11).unwrap().fresh.len(), 1);
    assert!(
        parse(base.as_str(), playlist, 12).unwrap().fresh.is_empty(),
        "an unchanged playlist must be a stale poll, not a refetch"
    );
}

#[test]
fn the_variant_without_video_wins_and_price_breaks_the_tie() {
    let pick = |master: &str| pick_variant(&parse_master(master).expect("parse the master"));

    assert_eq!(
        pick(&[
            "#EXTM3U\n",
            "#EXT-X-STREAM-INF:BANDWIDTH=400000,RESOLUTION=426x240\nlow.m3u8\n",
            "#EXT-X-STREAM-INF:BANDWIDTH=900000,CODECS=\"mp4a.40.2\"\naudio.m3u8\n",
        ].concat()),
        Some("audio.m3u8".to_owned()),
        "an audio-only rendition wins even when it is the more expensive one"
    );
    assert_eq!(
        pick(&[
            "#EXTM3U\n",
            "#EXT-X-STREAM-INF:BANDWIDTH=2000000,RESOLUTION=1920x1080\nhigh.m3u8\n",
            "#EXT-X-STREAM-INF:BANDWIDTH=400000,RESOLUTION=426x240\nlow.m3u8\n",
        ].concat()),
        Some("low.m3u8".to_owned()),
        "with only mixed renditions, the extra bandwidth would all be video"
    );
}

#[test]
fn a_demuxed_master_is_followed_to_its_audio_rendition() {
    let pick = |master: &str| pick_variant(&parse_master(master).expect("parse the master"));

    assert_eq!(
        pick(&[
            "#EXTM3U\n",
            "#EXT-X-MEDIA:TYPE=AUDIO,GROUP-ID=\"aud\",NAME=\"French\",URI=\"fr/audio.m3u8\"\n",
            "#EXT-X-MEDIA:TYPE=AUDIO,GROUP-ID=\"aud\",NAME=\"English\",DEFAULT=YES,\
             URI=\"en/audio.m3u8\"\n",
            "#EXT-X-STREAM-INF:BANDWIDTH=400000,RESOLUTION=426x240,AUDIO=\"aud\"\nlow.m3u8\n",
            "#EXT-X-STREAM-INF:BANDWIDTH=2000000,RESOLUTION=1920x1080,AUDIO=\"aud\"\nhigh.m3u8\n",
        ].concat()),
        Some("en/audio.m3u8".to_owned()),
        "the default audio rendition must be walked, not the cheapest video one"
    );
    assert_eq!(
        pick(&[
            "#EXTM3U\n",
            "#EXT-X-MEDIA:TYPE=AUDIO,GROUP-ID=\"aud\",NAME=\"English\",DEFAULT=YES\n",
            "#EXT-X-STREAM-INF:BANDWIDTH=400000,RESOLUTION=426x240,AUDIO=\"aud\"\nlow.m3u8\n",
        ].concat()),
        Some("low.m3u8".to_owned()),
        "a rendition with nothing to follow must leave the variant alone"
    );
    assert_eq!(
        pick(&[
            "#EXTM3U\n",
            "#EXT-X-MEDIA:TYPE=AUDIO,GROUP-ID=\"hi\",NAME=\"High\",URI=\"hi/audio.m3u8\"\n",
            "#EXT-X-MEDIA:TYPE=AUDIO,GROUP-ID=\"lo\",NAME=\"Low\",URI=\"lo/audio.m3u8\"\n",
            "#EXT-X-STREAM-INF:BANDWIDTH=400000,RESOLUTION=426x240,AUDIO=\"lo\"\nlow.m3u8\n",
            "#EXT-X-STREAM-INF:BANDWIDTH=2000000,RESOLUTION=1920x1080,AUDIO=\"hi\"\nhigh.m3u8\n",
        ].concat()),
        Some("lo/audio.m3u8".to_owned()),
        "only the variant's own audio group may be followed"
    );
}

#[test]
fn credentials_do_not_follow_a_segment_off_its_host() {
    let mut headers = HeaderMap::new();
    headers.insert(COOKIE, "session=secret".parse().unwrap());
    headers.insert(AUTHORIZATION, "Bearer token".parse().unwrap());
    headers.insert(REFERER, "https://cdn.invalid/".parse().unwrap());
    let sent = |url: &str| {
        let parsed = Url::parse(url).unwrap();
        strip_foreign_credentials(&headers, Some("cdn.invalid"), parsed.host_str())
    };

    let same = sent("https://cdn.invalid/hls/seg1.ts");
    assert_eq!(same.len(), 3, "the playlist's own host gets the whole set");

    let other = sent("https://edge.elsewhere.invalid/hls/seg1.ts");
    assert!(
        !other.contains_key(COOKIE) && !other.contains_key(AUTHORIZATION),
        "another host must not be handed our credentials"
    );
    assert!(
        other.contains_key(REFERER),
        "the headers a CDN needs to serve us at all must still travel"
    );
    assert_eq!(other.len(), 1);
}

#[test]
fn credentials_stay_when_neither_side_has_a_host() {
    let mut headers = HeaderMap::new();
    headers.insert(COOKIE, "a=b".parse().unwrap());
    assert_eq!(strip_foreign_credentials(&headers, None, None).len(), 1);
    assert_eq!(strip_foreign_credentials(&headers, Some("x.invalid"), None).len(), 0);
}

#[test]
fn a_playlist_the_parser_refuses_is_a_playlist_error() {
    let err = parse("https://cdn.invalid/a.m3u8", "not a playlist", 0).err().expect("refused");
    assert!(matches!(err, HlsError::Playlist(ref m) if !m.is_empty()), "got {err:?}");
    assert!(err.is_stream_property());
    assert!(HlsError::Encrypted("AES-128".into()).is_stream_property());
    assert!(!HlsError::Fetch("timeout".into()).is_stream_property());
    assert!(!HlsError::Url(UrlParseError::InvalidPort).is_stream_property());
}

#[test]
fn byte_ranges_and_maps_come_through() {
    let playlist = &[
        "#EXTM3U\n#EXT-X-TARGETDURATION:2\n#EXT-X-MAP:URI=\"init.mp4\",BYTERANGE=\"100@0\"\n",
        "#EXTINF:1.0,\n#EXT-X-BYTERANGE:500@100\nmedia.mp4\n",
        "#EXTINF:1.0,\n#EXT-X-BYTERANGE:500\nmedia.mp4\n",
        "#EXT-X-ENDLIST\n",
    ].concat();
    let snapshot = parse("https://cdn.invalid/v/index.m3u8", playlist, 0).expect("parse");
    assert!(snapshot.ended);
    assert_eq!(snapshot.target_nanos, 2_000_000_000);
    assert_eq!(snapshot.fresh.len(), 2);
    assert_eq!(snapshot.fresh[0].range, Some((100, 599)));
    assert_eq!(snapshot.fresh[1].range, Some((600, 1099)));
    let init = snapshot.fresh[0].init.clone().expect("a map");
    assert_eq!(init.url, "https://cdn.invalid/v/init.mp4");
    assert_eq!(init.range, Some((0, 99)));
    assert_eq!(snapshot.fresh[1].init, None, "a map applies to the segment it precedes");
}

#[test]
fn a_parsed_report_becomes_a_snapshot() {
    let media = MediaInfo(
        vec![
            SegmentInfo(5, "a.ts".to_string(), vec![None], None, None),
            SegmentInfo(6, "b.ts".to_string(), vec![], Some(("i.mp4".to_string(), None)), Some((None, 10))),
            SegmentInfo(7, "c.ts".to_string(), vec![Some("AES-128".to_string())], None, None),
        ],
        5,
        3_000_000_000,
        false,
    );
    let snap = snapshot_from("https://h.invalid/p/x.m3u8", &media, 5);
    assert!(matches!(snap, Err(HlsError::Encrypted(ref m)) if m == "AES-128"));
    let snap = snapshot_from("https://h.invalid/p/x.m3u8", &media, 7);
    assert!(matches!(snap, Err(HlsError::Encrypted(_))));
    let media = MediaInfo(media.0.into_iter().take(2).collect(), 5, 3_000_000_000, true);
    let snap = snapshot_from("https://h.invalid/p/x.m3u8", &media, 6).expect("no key");
    assert_eq!(snap.first_seq, 5);
    assert_eq!(snap.target_nanos, 3_000_000_000);
    assert!(snap.ended);
    assert_eq!(snap.fresh.len(), 1);
    assert_eq!(snap.fresh[0].seq, 6);
    assert_eq!(snap.fresh[0].url, "https://h.invalid/p/b.ts");
    assert_eq!(snap.fresh[0].range, Some((0, 9)));
    assert_eq!(
        snap.fresh[0].init,
        Some(Init { url: "https://h.invalid/p/i.mp4".to_string(), range: None })
    );
    assert!(matches!(snapshot_from("not a url", &media, 0), Err(HlsError::Url(_))));
}

#[test]
fn bounds_are_inclusive_and_skip_empty_ranges() {
    assert_eq!(bounds((Some(10), 20)), Some((10, 19)));
    assert_eq!(bounds((None, 5)), Some((0, 4)));
    assert_eq!(bounds((Some(7), 7)), None);
    assert_eq!(bounds((Some(9), 3)), None);
}

#[test]
fn only_a_206_honours_a_range() {
    assert_eq!(expected_body(None, 200), Ok(None));
    assert_eq!(expected_body(Some((0, 99)), 206), Ok(Some(100)));
    assert_eq!(
        expected_body(Some((0, 99)), 200),
        Err(ResponseRefusal::NotPartial { start: 0, end: 99, status: 200 })
    );
    assert_eq!(expected_body(None, 404), Err(ResponseRefusal::Status(404)));
    assert_eq!(expected_body(Some((5, 5)), 500), Err(ResponseRefusal::Status(500)));
}

#[test]
fn an_overlong_body_is_cut_at_the_range_and_a_short_one_is_a_hole() {
    assert_eq!(body_take(Some(100), 90, 50), 10);
    assert_eq!(body_take(Some(100), 0, 50), 50);
    assert_eq!(body_take(None, 1_000, 50), 50);
    assert_eq!(range_shortfall(Some(100), 90, false), Some((90, 100)));
    assert_eq!(range_shortfall(Some(100), 90, true), None);
    assert_eq!(range_shortfall(Some(100), 100, false), None);
    assert_eq!(range_shortfall(None, 0, false), None);
}

#[test]
fn a_still_playlist_ends_after_the_stale_budget() {
    let mut clock = StaleClock::new();
    assert!(clock.settle(false, false, 1_000, 60));
    assert_eq!(clock.since, Some(1_000));
    assert!(clock.settle(false, false, 1_059, 60));
    assert!(!clock.settle(false, false, 1_060, 60));
    assert!(clock.settle(false, true, 2_000, 60), "a grown playlist restarts the clock");
    assert_eq!(clock.since, None);
    assert!(!clock.settle(true, true, 2_001, 60), "the end list ends the walk");
    assert_eq!(repoll_wait(0, MIN_POLL_NANOS), MIN_POLL_NANOS);
    assert_eq!(repoll_wait(6_000_000_000, MIN_POLL_NANOS), 6_000_000_000);
}

#[test]
fn an_initialization_section_is_fetched_once() {
    let init = Init { url: "https://h.invalid/init.mp4".to_string(), range: Some((0, 99)) };
    let seg = Segment { seq: 1, url: "https://h.invalid/1.m4s".to_string(), range: None, init: Some(init.clone()) };
    assert!(init_to_fetch(&seg, &None));
    assert!(!init_to_fetch(&seg, &Some(init.clone())));
    let other = Init { url: init.url.clone(), range: Some((0, 100)) };
    assert!(init_to_fetch(&seg, &Some(other)));
    let bare = Segment { seq: 2, url: "https://h.invalid/2.m4s".to_string(), range: None, init: None };
    assert!(!init_to_fetch(&bare, &Some(init)));
}

#[test]
fn a_master_playlist_is_followed_once() {
    let url = "https://cdn.invalid/hls/master.m3u8";
    assert_eq!(
        follow_master(url, "#EXTM3U\n#EXT-X-TARGETDURATION:1\n#EXTINF:1.0,\na.ts\n").unwrap(),
        None
    );
    let master = "#EXTM3U\n#EXT-X-STREAM-INF:BANDWIDTH=1000\nsub/media.m3u8\n";
    assert_eq!(
        follow_master(url, master).unwrap(),
        Some("https://cdn.invalid/hls/sub/media.m3u8".to_owned())
    );
    let iframes = "#EXTM3U\n#EXT-X-I-FRAME-STREAM-INF:BANDWIDTH=1000,URI=\"if.m3u8\"\n#EXT-X-STREAM-INF:BANDWIDTH=5\n";
    assert!(matches!(follow_master(url, iframes), Err(HlsError::Playlist(_))));
}

#[test]
fn segment_request_failures_read_as_their_cause() {
    assert_eq!(inclusive_range_header(100, 199), "bytes=100-199");
    assert_eq!(
        ResponseRefusal::Status(404).message("segment"),
        "segment request failed with status 404 Not Found"
    );
    assert_eq!(
        ResponseRefusal::NotPartial { start: 0, end: 99, status: 200 }.message("initialization section"),
        "initialization section request for bytes=0-99 was answered 200 OK, not 206"
    );
    assert_eq!(shortfall_message("segment", 40, 100), "segment range request delivered 40 of 100 bytes");
    assert_eq!(timed_out_message("playlist", "fetch"), "playlist fetch timed out after 10s");
    match playlist_status_failure(403) {
        HlsError::Fetch(m) => assert_eq!(m, "playlist request failed with status 403 Forbidden"),
        other => panic!("unexpected {other:?}"),
    }
}

#[test]
fn a_segment_under_several_keys_is_refused_with_a_real_one() {
    let keys = vec![None, Some("SAMPLE-AES".to_string()), Some("AES-128".to_string())];
    let media = MediaInfo(vec![SegmentInfo(0, "seg0.ts".to_string(), keys, None, None)], 0, 1_000_000_000, true);
    match snapshot_from("https://example.invalid/hls/index.m3u8", &media, 0) {
        Err(HlsError::Encrypted(method)) => assert!(method == "SAMPLE-AES" || method == "AES-128", "{method}"),
        Err(other) => panic!("unexpected {other:?}"),
        Ok(_) => panic!("an encrypted segment must be refused"),
    }
    let clear = MediaInfo(vec![SegmentInfo(0, "seg0.ts".to_string(), vec![None, None], None, None)], 0, 1_000_000_000, true);
    assert!(snapshot_from("https://example.invalid/hls/index.m3u8", &clear, 0).is_ok());
}
