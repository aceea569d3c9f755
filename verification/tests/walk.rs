use turto::models::playlist::Playlist;
use turto::models::queue_item::{QueueItem, QueueItemKind};
use turto::utils::queue::{enqueue, QueueType};
use turto::utils::url::{error_from_message, host_of, parse_url, UrlParseError};
use turto::ytdl::hls::{numbers_fit_in, parse, parse_master, Cursor, HlsError, Init, Segment};
use turto::ytdl::playlist::YouTubePlaylist;

const BASE: &str = "https://example.invalid/hls/index.m3u8";
const UNFIT: &str = "hls playlist holds a numeric value that is not plain or too long";

fn media(body: &str) -> String {
    format!("#EXTM3U\n#EXT-X-TARGETDURATION:10\n{body}#EXT-X-ENDLIST\n")
}

fn unfit(err: HlsError) -> bool {
    matches!(err, HlsError::Playlist(m) if m == UNFIT)
}

#[test]
fn a_negative_segment_duration_is_refused_before_the_parser() {
    let err = parse(BASE, &media("#EXTINF:-1,\nseg1.ts\n"), 0).err().expect("refused");
    assert!(unfit(err));
}

#[test]
fn an_endless_or_huge_duration_is_refused() {
    for body in [
        "#EXTINF:inf,\nseg1.ts\n",
        "#EXTINF:NaN,\nseg1.ts\n",
        "#EXTINF:1e300,\nseg1.ts\n",
        "#EXTINF:1000000000000000000000,\nseg1.ts\n",
    ] {
        let err = parse(BASE, &media(body), 0).err().expect("refused");
        assert!(unfit(err), "{body}");
    }
}

#[test]
fn an_overflowing_target_duration_or_range_is_refused() {
    let text = "#EXTM3U\n#EXT-X-TARGETDURATION:18446744073709551615\n#EXTINF:1,\nseg1.ts\n#EXT-X-ENDLIST\n";
    assert!(unfit(parse(BASE, text, 0).err().expect("refused")));
    let text = media("#EXT-X-BYTERANGE:18446744073709551615@1\n#EXTINF:1,\nseg1.ts\n");
    assert!(unfit(parse(BASE, &text, 0).err().expect("refused")));
    let text = "#EXTM3U\n#EXT-X-TARGETDURATION:1\n#EXT-X-MEDIA-SEQUENCE:18446744073709551615\n#EXTINF:1,\na.ts\n#EXTINF:1,\nb.ts\n";
    assert!(unfit(parse(BASE, text, 0).err().expect("refused")));
}

#[test]
fn plain_values_still_parse() {
    let text = media("#EXT-X-BYTERANGE:1000@0\n#EXTINF:9.5,\nseg1.ts\n#EXTINF:10,title\nseg2.ts\n");
    assert!(numbers_fit_in(&text));
    let snapshot = parse(BASE, &text, 0).expect("a plain playlist parses");
    assert_eq!(snapshot.fresh.len(), 2);
    assert_eq!(snapshot.fresh[0].range, Some((0, 999)));
}

#[test]
fn the_check_looks_at_every_numeric_key() {
    assert!(numbers_fit_in("#EXTINF:4.004,\n"));
    assert!(numbers_fit_in("#EXT-X-MAP:URI=\"init.mp4\",BYTERANGE=\"720@0\"\n"));
    assert!(numbers_fit_in("no keys at all"));
    assert!(!numbers_fit_in("#EXTINF: 4,\n"));
    assert!(!numbers_fit_in("#EXT-X-DATERANGE:ID=\"a\",DURATION=-5\n"));
    assert!(!numbers_fit_in("#EXT-X-DATERANGE:ID=\"a\",PLANNED-DURATION=1e9\n"));
    assert!(!numbers_fit_in("#EXTINF"));
}

#[test]
fn a_master_with_an_unfit_number_is_refused() {
    let text = "#EXTM3U\n#EXTINF:-3,\n#EXT-X-STREAM-INF:BANDWIDTH=1\nlow.m3u8\n";
    let err = parse_master(text).err().expect("refused");
    assert!(unfit(err));
}

fn segment(seq: usize, init: Option<Init>) -> Segment {
    Segment { seq, url: format!("https://cdn.invalid/s{seq}.ts"), range: None, init }
}

fn init(url: &str) -> Init {
    Init { url: url.to_owned(), range: None }
}

#[test]
fn the_cursor_steps_past_each_segment_and_fetches_an_init_once() {
    let mut cursor = Cursor::new(5);
    assert_eq!(cursor.next_seq, 5);
    assert_eq!(cursor.init, None);

    let first = segment(5, Some(init("https://cdn.invalid/init.mp4")));
    assert_eq!(cursor.init_ahead_of(&first), Some(init("https://cdn.invalid/init.mp4")));
    cursor.advance(&first);
    assert_eq!(cursor.next_seq, 6);
    assert_eq!(cursor.init, Some(init("https://cdn.invalid/init.mp4")));

    let second = segment(6, Some(init("https://cdn.invalid/init.mp4")));
    assert_eq!(cursor.init_ahead_of(&second), None);
    cursor.advance(&second);

    let plain = segment(9, None);
    assert_eq!(cursor.init_ahead_of(&plain), None);
    cursor.advance(&plain);
    assert_eq!(cursor.next_seq, 10);
    assert_eq!(cursor.init, Some(init("https://cdn.invalid/init.mp4")));

    let other = segment(10, Some(init("https://cdn.invalid/init2.mp4")));
    assert_eq!(cursor.init_ahead_of(&other), Some(init("https://cdn.invalid/init2.mp4")));
}

#[test]
fn a_typed_link_is_queued_only_when_it_parses() {
    let item = QueueItem::from_query("https://www.youtube.com/watch?v=abc").expect("a link");
    assert_eq!(item.url(), "https://www.youtube.com/watch?v=abc");
    assert!(!item.is_playlist());
    let item = QueueItem::from_query("HTTPS://YouTube.com/playlist?list=PL1").expect("a link");
    assert_eq!(item.url(), "https://youtube.com/playlist?list=PL1");
    assert!(item.is_playlist());
    assert_eq!(QueueItem::from_query("not a link").err(), Some(UrlParseError::RelativeUrlWithoutBase));
    assert_eq!(QueueItem::from_query("http://").err(), Some(UrlParseError::EmptyHost));
}

fn queue(items: &[u32]) -> Playlist<u32> {
    let mut p = Playlist::new();
    for i in items {
        p.push_back(*i);
    }
    p
}

fn contents(p: &Playlist<u32>) -> Vec<u32> {
    (0..p.len()).map(|i| *p.get(i).expect("in range")).collect()
}

fn listed(title: Option<&str>, entries: Vec<u32>) -> YouTubePlaylist<u32> {
    YouTubePlaylist { id: None, title: title.map(str::to_owned), author: None, url: None, entries }
}

#[test]
fn what_a_link_resolves_to_joins_the_queue_where_asked() {
    let mut p = queue(&[1, 2]);
    let title = enqueue(&mut p, QueueItemKind::Single(3), Some("Song".to_owned()), QueueType::Front);
    assert_eq!(title, "Song");
    assert_eq!(contents(&p), vec![3, 1, 2]);

    let title = enqueue(&mut p, QueueItemKind::Single(4), None, QueueType::Back);
    assert_eq!(title, "");
    assert_eq!(contents(&p), vec![3, 1, 2, 4]);

    let title = enqueue(&mut p, QueueItemKind::Playlist(listed(Some("Mix"), vec![7, 8])), None, QueueType::Front);
    assert_eq!(title, "Mix");
    assert_eq!(contents(&p), vec![7, 8, 3, 1, 2, 4]);

    let title = enqueue(&mut p, QueueItemKind::Playlist(listed(None, vec![9])), Some("ignored".to_owned()), QueueType::Back);
    assert_eq!(title, "");
    assert_eq!(contents(&p), vec![7, 8, 3, 1, 2, 4, 9]);
}

#[test]
fn a_url_is_taken_apart_by_the_url_crate() {
    let parts = parse_url("https://Example.invalid/a/b?x=1").expect("a link");
    assert_eq!(parts.serialization, "https://example.invalid/a/b?x=1");
    assert_eq!(parts.host.as_deref(), Some("example.invalid"));
    assert_eq!(host_of("https://cdn.invalid/seg.ts").as_deref(), Some("cdn.invalid"));
    assert_eq!(host_of("data:text/plain,hi"), None);
    assert_eq!(host_of("relative/seg.ts"), None);
}

#[test]
fn each_url_refusal_keeps_its_reason() {
    assert_eq!(parse_url("http://example.invalid:99999/").err(), Some(UrlParseError::InvalidPort));
    assert_eq!(parse_url("http://[::1/").err(), Some(UrlParseError::InvalidIpv6Address));
    assert_eq!(parse_url("http://1.2.3.256/").err(), Some(UrlParseError::InvalidIpv4Address));
    assert_eq!(parse_url("http://exa mple.invalid/").err(), Some(UrlParseError::IdnaError));
    assert_eq!(parse_url("/just/a/path").err(), Some(UrlParseError::RelativeUrlWithoutBase));
    assert_eq!(parse_url("http:///").err(), Some(UrlParseError::EmptyHost));
    assert_eq!(error_from_message("relative URL with a cannot-be-a-base base"), UrlParseError::RelativeUrlWithCannotBeABaseBase);
    assert_eq!(error_from_message("something new"), UrlParseError::Other);
}
