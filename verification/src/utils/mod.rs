//! Small helpers shared by the rest of the library.

pub mod guild;
pub mod misc;
pub mod queue;
pub mod template;
pub mod text;
pub mod url;

use vstd::prelude::*;
use vstd::string::*;
use self::misc::{digits, keycaps, push_keycaps};
use crate::models::playing::PlayState;
use crate::models::url::youtube_url::opt_view;

verus! {

/// The keycap rendering of `num`: one keycap emoji per decimal digit, behind a heavy
/// minus sign when `num` is negative.
pub open spec fn emoji_number(num: int) -> Seq<char> {
    if num < 0 {
        seq!['\u{2796}'] + keycaps(digits((-num) as nat))
    } else {
        keycaps(digits(num as nat))
    }
}

/// Write `num` with keycap emoji, e.g. `-42` as "➖4️⃣2️⃣".
pub fn i32_to_emoji(num: i32) -> (s: String)
    ensures
        s@ == emoji_number(num as int),
{
    let mut s = String::new();
    let magnitude: u64 = if num < 0 {
        proof { reveal_strlit("\u{2796}"); }
        s.append("\u{2796}");
        (0i64 - num as i64) as u64
    } else {
        num as u64
    };
    push_keycaps(&mut s, magnitude);
    s
}

/// What a "now playing" card shows of a track: the part of its yt-dlp metadata that
/// the card reads.
pub struct TrackInfo {
    pub title: Option<String>,
    pub thumbnail: Option<String>,
    pub webpage_url: Option<String>,
    pub timestamp: Option<i64>,
    pub channel: Option<String>,
    pub uploader: Option<String>,
    pub channel_url: Option<String>,
    pub uploader_url: Option<String>,
}

/// The contents of a "now playing" card, ready to be rendered.
pub struct PlayingCard {
    /// The large image: the track's thumbnail.
    pub image: Option<String>,
    /// Where the title links to: the track's page.
    pub url: Option<String>,
    /// The title, and the playback change it is announced with (`None`: the bare title).
    pub title: Option<(Option<PlayState>, String)>,
    pub timestamp: Option<i64>,
    /// The author's name, and where it links to.
    pub author: Option<(String, Option<String>)>,
}

/// The first of two optional texts that is there.
pub open spec fn or_else_text(a: Option<String>, b: Option<String>) -> Option<Seq<char>> {
    match a {
        Some(x) => Some(x@),
        None => opt_view(b),
    }
}

fn copy_text(o: &Option<String>) -> (r: Option<String>)
    ensures
        opt_view(r) == opt_view(*o),
{
    match o {
        Some(s) => Some(s.clone()),
        None => None,
    }
}

fn first_text(a: &Option<String>, b: &Option<String>) -> (r: Option<String>)
    ensures
        opt_view(r) == or_else_text(*a, *b),
{
    match a {
        Some(s) => Some(s.clone()),
        None => copy_text(b),
    }
}

/// The "now playing" card for a track: its thumbnail as the image, its page as the
/// link, its title (announced with `mode` when there is one), its timestamp, and as
/// author its channel (else its uploader), linked to the channel's page (else the
/// uploader's).
pub fn playing_card(info: &TrackInfo, mode: Option<PlayState>) -> (r: PlayingCard)
    ensures
        opt_view(r.image) == opt_view(info.thumbnail),
        opt_view(r.url) == opt_view(info.webpage_url),
        match info.title {
            Some(t) => r.title matches Some(p) && p.0 == mode && p.1@ == t@,
            None => r.title is None,
        },
        r.timestamp == info.timestamp,
        match or_else_text(info.channel, info.uploader) {
            Some(name) => r.author matches Some(a) && a.0@ == name
                && opt_view(a.1) == or_else_text(info.channel_url, info.uploader_url),
            None => r.author is None,
        },
{
    let title = match &info.title {
        Some(t) => Some((mode, t.clone())),
        None => None,
    };
    let author = match first_text(&info.channel, &info.uploader) {
        Some(name) => Some((name, first_text(&info.channel_url, &info.uploader_url))),
        None => None,
    };
    PlayingCard {
        image: copy_text(&info.thumbnail),
        url: copy_text(&info.webpage_url),
        title,
        timestamp: info.timestamp,
        author,
    }
}

} // verus!
