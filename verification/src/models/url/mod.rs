//! Links handed to the bot: YouTube ones, understood, and everything else, kept as given.

pub mod youtube_url;

use vstd::prelude::*;
use vstd::string::*;
use crate::utils::text::{
    decimal, decimal_reads_back, find_last_value, last_value, parse_u64_without, parse_unsigned, same_text, without,
};
use crate::utils::url::{parse_url, parsed_url, UrlParseError, UrlView};
use self::youtube_url::{built, youtube_url_text, YouTubeUrl, YouTubeUrlView};

verus! {

/// A link handed to the bot, as values.
pub enum ParsedUrlView {
    Youtube(YouTubeUrlView),
    Other(Seq<char>),
}

/// A link handed to the bot: a YouTube link it understands, or any other link, kept
/// as given.
#[derive(Debug, Clone)]
pub enum ParsedUrl {
    Youtube(YouTubeUrl),
    Other(String),
}

impl View for ParsedUrl {
    type V = ParsedUrlView;

    open spec fn view(&self) -> ParsedUrlView {
        match self {
            ParsedUrl::Youtube(u) => ParsedUrlView::Youtube(u@),
            ParsedUrl::Other(s) => ParsedUrlView::Other(s@),
        }
    }
}

/// The start time a YouTube link asks for: its last `t` query value, with every `s`
/// taken out, read as a number of seconds.
pub open spec fn youtube_start(pairs: Seq<(Seq<char>, Seq<char>)>) -> Option<u64> {
    match last_value(pairs, "t"@) {
        Some(t) => match parse_unsigned(without(t, 's'), u64::MAX as nat) {
            Some(n) => Some(n as u64),
            None => None,
        },
        None => None,
    }
}

/// The video id a YouTube link's path and query name.
pub open spec fn youtube_video(segs: Seq<Seq<char>>, pairs: Seq<(Seq<char>, Seq<char>)>) -> Option<Seq<char>> {
    if segs.len() == 0 {
        None
    } else if segs[0] == "playlist"@ || segs[0] == "watch"@ {
        last_value(pairs, "v"@)
    } else if segs[0] == "shorts"@ {
        if segs.len() > 1 { Some(segs[1]) } else { None }
    } else {
        Some(segs[0])
    }
}

/// The playlist id a YouTube link's path and query name.
pub open spec fn youtube_playlist(segs: Seq<Seq<char>>, pairs: Seq<(Seq<char>, Seq<char>)>) -> Option<Seq<char>> {
    if segs.len() > 0 && (segs[0] == "playlist"@ || segs[0] == "watch"@) {
        last_value(pairs, "list"@)
    } else {
        None
    }
}

/// How a link is classified once the `url` crate has parsed it into `u`.
pub open spec fn classify_url(text: Seq<char>, u: UrlView) -> Result<ParsedUrlView, UrlParseError> {
    match u.host {
        None => Err(UrlParseError::EmptyHost),
        Some(h) => if h == "www.youtube.com"@ || h == "youtu.be"@ {
            match u.path_segments {
                None => Ok(ParsedUrlView::Other(text)),
                Some(segs) => match built(
                    youtube_video(segs, u.query_pairs),
                    youtube_playlist(segs, u.query_pairs),
                    youtube_start(u.query_pairs),
                ) {
                    Some(y) => Ok(ParsedUrlView::Youtube(y)),
                    None => Ok(ParsedUrlView::Other(text)),
                },
            }
        } else {
            Ok(ParsedUrlView::Other(text))
        },
    }
}

/// How a link text is classified: refused when the `url` crate refuses it or it has
/// no host, a YouTube link when its host is YouTube's and it names a video or a
/// playlist, and otherwise kept as given.
pub open spec fn parse_link(text: Seq<char>) -> Result<ParsedUrlView, UrlParseError> {
    match parsed_url(text) {
        Err(e) => Err(e),
        Ok(u) => classify_url(text, u),
    }
}

/// The text of a link.
pub open spec fn link_text(p: ParsedUrlView) -> Seq<char> {
    match p {
        ParsedUrlView::Youtube(y) => youtube_url_text(y),
        ParsedUrlView::Other(s) => s,
    }
}

/// The path a YouTube link's canonical text writes, split at `/`.
pub open spec fn canonical_path(y: YouTubeUrlView) -> Seq<Seq<char>> {
    match y {
        YouTubeUrlView::Video { .. } => seq!["watch"@],
        YouTubeUrlView::Playlist { .. } => seq!["playlist"@],
    }
}

/// The query pairs a YouTube link's canonical text writes, in the order written.
pub open spec fn canonical_pairs(y: YouTubeUrlView) -> Seq<(Seq<char>, Seq<char>)> {
    match y {
        YouTubeUrlView::Video { video_id, playlist_id, time } => seq![("v"@, video_id)]
            + match playlist_id {
                Some(pl) => seq![("list"@, pl)],
                None => Seq::empty(),
            } + match time {
                Some(t) => seq![("t"@, decimal(t as nat) + "s"@)],
                None => Seq::empty(),
            },
        YouTubeUrlView::Playlist { playlist_id } => seq![("list"@, playlist_id)],
    }
}

proof fn lemma_without_absent(s: Seq<char>, x: char)
    requires
        forall|i: int| 0 <= i < s.len() ==> s[i] != x,
    ensures
        without(s, x) == s,
    decreases s.len(),
{
    if s.len() > 0 {
        lemma_without_absent(s.drop_last(), x);
        assert(s.drop_last().push(s.last()) =~= s);
    }
}

proof fn lemma_time_reads_back(t: u64)
    ensures
        parse_unsigned(without(decimal(t as nat) + "s"@, 's'), u64::MAX as nat) == Some(t as nat),
{
    reveal_strlit("s");
    let d = decimal(t as nat);
    assert(d + "s"@ =~= d.push('s'));
    assert((d + "s"@).drop_last() =~= d);
    assert forall|i: int| 0 <= i < d.len() implies d[i] != 's' by {
        decimal_reads_back(t as nat, u64::MAX as nat);
        assert(parse_unsigned(d, u64::MAX as nat) is Some);
        assert(crate::utils::text::is_digit(d[i]));
    }
    lemma_without_absent(d, 's');
    decimal_reads_back(t as nat, u64::MAX as nat);
}

/// Whether `r`, where it is a YouTube video, starts at `t`.
pub open spec fn video_starts_at(r: Result<ParsedUrlView, UrlParseError>, t: Option<u64>) -> bool {
    match r {
        Ok(ParsedUrlView::Youtube(YouTubeUrlView::Video { time, .. })) => time == t,
        _ => true,
    }
}

/// Law: a YouTube video link starts at the time its last `t` query value gives, written
/// as a number of seconds with or without a trailing `s`.
pub proof fn a_video_starts_at_its_t_value(text: Seq<char>, u: UrlView, n: u64)
    ensures
        last_value(u.query_pairs, "t"@) == Some(decimal(n as nat) + "s"@)
            || last_value(u.query_pairs, "t"@) == Some(decimal(n as nat))
            ==> video_starts_at(classify_url(text, u), Some(n)),
{
    lemma_time_reads_back(n);
    let d = decimal(n as nat);
    decimal_reads_back(n as nat, u64::MAX as nat);
    reveal_strlit("s");
    assert forall|i: int| 0 <= i < d.len() implies d[i] != 's' by {
        assert(crate::utils::text::is_digit(d[i]));
    }
    lemma_without_absent(d, 's');
}

/// Law: a YouTube link's canonical text classifies back as the same link, wherever the
/// `url` crate reads that text as written: host `www.youtube.com`, the one path segment,
/// and the query pairs in the order written. The link's text is its canonical text.
pub proof fn a_youtube_link_reads_back(y: YouTubeUrlView, u: UrlView)
    requires
        parsed_url(youtube_url_text(y)) == Ok::<UrlView, UrlParseError>(u),
        u.host == Some("www.youtube.com"@),
        u.path_segments == Some(canonical_path(y)),
        u.query_pairs == canonical_pairs(y),
    ensures
        parse_link(youtube_url_text(y)) == Ok::<ParsedUrlView, UrlParseError>(ParsedUrlView::Youtube(y)),
        link_text(ParsedUrlView::Youtube(y)) == youtube_url_text(y),
{
    reveal_strlit("v");
    reveal_strlit("t");
    reveal_strlit("list");
    reveal_strlit("watch");
    reveal_strlit("playlist");
    reveal_strlit("shorts");
    let pairs = u.query_pairs;
    assert("v"@.len() == 1 && "t"@.len() == 1 && "list"@.len() == 4);
    assert("v"@ != "list"@ && "t"@ != "list"@);
    assert("v"@ != "t"@) by {
        assert("v"@[0] != "t"@[0]);
    }
    match y {
        YouTubeUrlView::Video { video_id, playlist_id, time } => {
            let first = seq![("v"@, video_id)];
            let with_list = first + match playlist_id {
                Some(pl) => seq![("list"@, pl)],
                None => Seq::empty(),
            };
            assert(with_list.len() >= 1 && with_list[0] == ("v"@, video_id));
            lemma_last_value_push(Seq::empty(), ("v"@, video_id), "v"@);
            lemma_last_value_push(Seq::empty(), ("v"@, video_id), "list"@);
            lemma_last_value_push(Seq::empty(), ("v"@, video_id), "t"@);
            assert(first =~= Seq::<(Seq<char>, Seq<char>)>::empty().push(("v"@, video_id)));
            match playlist_id {
                Some(pl) => {
                    assert(with_list =~= first.push(("list"@, pl)));
                    lemma_last_value_push(first, ("list"@, pl), "v"@);
                    lemma_last_value_push(first, ("list"@, pl), "list"@);
                    lemma_last_value_push(first, ("list"@, pl), "t"@);
                },
                None => {
                    assert(with_list =~= first);
                },
            }
            match time {
                Some(t) => {
                    let e = ("t"@, decimal(t as nat) + "s"@);
                    assert(pairs =~= with_list.push(e));
                    lemma_last_value_push(with_list, e, "v"@);
                    lemma_last_value_push(with_list, e, "list"@);
                    lemma_last_value_push(with_list, e, "t"@);
                    lemma_time_reads_back(t);
                },
                None => {
                    assert(pairs =~= with_list);
                },
            }
            assert(last_value(pairs, "v"@) == Some(video_id));
            assert(last_value(pairs, "list"@) == playlist_id);
            assert(youtube_video(canonical_path(y), pairs) == Some(video_id));
            assert(youtube_playlist(canonical_path(y), pairs) == playlist_id);
            assert(youtube_start(pairs) == time);
        },
        YouTubeUrlView::Playlist { playlist_id } => {
            assert(pairs =~= Seq::<(Seq<char>, Seq<char>)>::empty().push(("list"@, playlist_id)));
            lemma_last_value_push(Seq::empty(), ("list"@, playlist_id), "v"@);
            lemma_last_value_push(Seq::empty(), ("list"@, playlist_id), "list"@);
            lemma_last_value_push(Seq::empty(), ("list"@, playlist_id), "t"@);
            assert(youtube_video(canonical_path(y), pairs) is None);
            assert(youtube_playlist(canonical_path(y), pairs) == Some(playlist_id));
            assert(youtube_start(pairs) is None);
        },
    }
}

proof fn lemma_last_value_push(p: Seq<(Seq<char>, Seq<char>)>, e: (Seq<char>, Seq<char>), key: Seq<char>)
    ensures
        last_value(p.push(e), key) == if e.0 == key { Some(e.1) } else { last_value(p, key) },
        last_value(Seq::<(Seq<char>, Seq<char>)>::empty(), key) is None,
{
    assert(p.push(e).drop_last() =~= p);
}

/// Whether `r` is the YouTube video `id`, inside playlist `pl` where that is given.
pub open spec fn is_video(r: Result<ParsedUrlView, UrlParseError>, id: Seq<char>, pl: Option<Seq<char>>) -> bool {
    r matches Ok(ParsedUrlView::Youtube(YouTubeUrlView::Video { video_id, playlist_id, .. }))
        && video_id == id && playlist_id == pl
}

/// Whether a parsed link is on one of YouTube's hosts and has a path of at least one
/// segment.
pub open spec fn on_youtube_with_path(u: UrlView) -> bool {
    &&& (u.host == Some("www.youtube.com"@) || u.host == Some("youtu.be"@))
    &&& u.path_segments is Some
    &&& u.path_segments->0.len() > 0
}

/// Law: where a link on YouTube's hosts points, read from its path. A `shorts/` link is
/// the video its second segment names; a `watch` or `playlist` link is the video and
/// playlist its last `v` and `list` query values name, or the playlist alone when it
/// names no video; a link whose first segment is anything else (as `youtu.be/ID` is) is
/// the video that segment names. A `shorts/` or bare-id link names no playlist. A link
/// on another host is kept as written, and one with no host refused.
pub proof fn youtube_links_name_their_video(text: Seq<char>, u: UrlView)
    ensures
        u.host is None ==> classify_url(text, u) == Err::<ParsedUrlView, UrlParseError>(UrlParseError::EmptyHost),
        u.host is Some && u.host->0 != "www.youtube.com"@ && u.host->0 != "youtu.be"@
            ==> classify_url(text, u) == Ok::<ParsedUrlView, UrlParseError>(ParsedUrlView::Other(text)),
        on_youtube_with_path(u) && u.path_segments->0.len() > 1 && u.path_segments->0[0] == "shorts"@
            ==> is_video(classify_url(text, u), u.path_segments->0[1], None),
        on_youtube_with_path(u) && u.path_segments->0[0] != "shorts"@ && u.path_segments->0[0] != "watch"@
            && u.path_segments->0[0] != "playlist"@
            ==> is_video(classify_url(text, u), u.path_segments->0[0], None),
        on_youtube_with_path(u) && (u.path_segments->0[0] == "watch"@ || u.path_segments->0[0] == "playlist"@)
            && last_value(u.query_pairs, "v"@) is Some
            ==> is_video(classify_url(text, u), last_value(u.query_pairs, "v"@)->0, last_value(u.query_pairs, "list"@)),
        on_youtube_with_path(u) && (u.path_segments->0[0] == "watch"@ || u.path_segments->0[0] == "playlist"@)
            && last_value(u.query_pairs, "v"@) is None && last_value(u.query_pairs, "list"@) is Some
            ==> classify_url(text, u) == Ok::<ParsedUrlView, UrlParseError>(ParsedUrlView::Youtube(
                YouTubeUrlView::Playlist { playlist_id: last_value(u.query_pairs, "list"@)->0 })),
{
    reveal_strlit("shorts");
    reveal_strlit("watch");
    reveal_strlit("playlist");
    assert("shorts"@.len() == 6 && "watch"@.len() == 5 && "playlist"@.len() == 8);
    assert("shorts"@ != "watch"@ && "shorts"@ != "playlist"@);
}

impl ParsedUrl {
    /// Classify the link text `s`.
    pub fn from_str(s: &str) -> (r: Result<ParsedUrl, UrlParseError>)
        ensures
            match r {
                Ok(p) => parse_link(s@) == Ok::<ParsedUrlView, UrlParseError>(p@),
                Err(e) => parse_link(s@) == Err::<ParsedUrlView, UrlParseError>(e),
            },
    {
        let parts = match parse_url(s) {
            Ok(parts) => parts,
            Err(e) => return Err(e),
        };
        Self::classify(s, &parts)
    }

    /// Classify the link text `s`, which the `url` crate parsed into `parts`.
    pub fn classify(s: &str, parts: &crate::utils::url::UrlParts) -> (r: Result<ParsedUrl, UrlParseError>)
        ensures
            match r {
                Ok(p) => classify_url(s@, parts@) == Ok::<ParsedUrlView, UrlParseError>(p@),
                Err(e) => classify_url(s@, parts@) == Err::<ParsedUrlView, UrlParseError>(e),
            },
    {
        let host = match &parts.host {
            Some(h) => h,
            None => return Err(UrlParseError::EmptyHost),
        };
        if !(same_text(host.as_str(), "www.youtube.com") || same_text(host.as_str(), "youtu.be")) {
            return Ok(ParsedUrl::Other(s.to_owned()));
        }
        let segs = match &parts.path_segments {
            Some(segs) => segs,
            None => return Ok(ParsedUrl::Other(s.to_owned())),
        };
        let ghost segv = segs@.map_values(|x: String| x@);
        let ghost pairs = parts@.query_pairs;
        let mut res = YouTubeUrl::builder();
        if segs.len() > 0 {
            let first = segs[0].as_str();
            if same_text(first, "playlist") || same_text(first, "watch") {
                if let Some(v) = find_last_value(&parts.query_pairs, "v") {
                    res.video_id(v.as_str());
                }
                if let Some(pl) = find_last_value(&parts.query_pairs, "list") {
                    res.playlist_id(pl.as_str());
                }
            } else if same_text(first, "shorts") {
                if segs.len() > 1 {
                    res.video_id(segs[1].as_str());
                }
            } else {
                res.video_id(first);
            }
        }
        if let Some(t) = find_last_value(&parts.query_pairs, "t") {
            if let Some(time) = parse_u64_without(t.as_str(), 's') {
                res.time(time);
            }
        }
        proof {
            assert(res.video() == youtube_video(segv, pairs));
            assert(res.playlist() == youtube_playlist(segv, pairs));
            assert(res.start() == youtube_start(pairs));
        }
        match res.build() {
            Some(yt) => Ok(ParsedUrl::Youtube(yt)),
            None => Ok(ParsedUrl::Other(s.to_owned())),
        }
    }

    /// The link's text: a YouTube link's canonical form, any other link as given.
    pub fn to_string(&self) -> (s: String)
        ensures
            s@ == link_text(self@),
    {
        match self {
            ParsedUrl::Youtube(y) => y.to_string(),
            ParsedUrl::Other(s) => s.clone(),
        }
    }
}

} // verus!
