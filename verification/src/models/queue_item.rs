//! A link a user asked to queue, before it is known whether it is one track or a
//! playlist.

use vstd::prelude::*;
use crate::utils::url::UrlParts;
use crate::ytdl::{has_yt_playlist, names_yt_playlist};
use crate::utils::url::{parse_url, parsed_url, UrlParseError, UrlView};
use crate::ytdl::playlist::YouTubePlaylist;

verus! {

/// What a queued link resolves to: one track, or a whole playlist of them.
pub enum QueueItemKind<T> {
    Single(T),
    Playlist(YouTubePlaylist<T>),
}

/// A link waiting to be resolved into queue entries.
pub struct QueueItem {
    url: String,
}

impl QueueItem {
    /// The link's text.
    pub closed spec fn url_spec(&self) -> Seq<char> {
        self.url@
    }

    /// Queue the parsed link `url`.
    pub fn new(url: UrlParts) -> (r: Self)
        ensures
            r.url_spec() == url@.serialization,
    {
        QueueItem { url: url.serialization }
    }

    /// Queue the link a user typed, when it parses as an absolute URL; otherwise the
    /// reason it does not.
    pub fn from_query(query: &str) -> (r: Result<QueueItem, UrlParseError>)
        ensures
            match r {
                Ok(q) => parsed_url(query@) is Ok && q.url_spec() == parsed_url(query@)->Ok_0.serialization,
                Err(e) => parsed_url(query@) == Err::<UrlView, UrlParseError>(e),
            },
    {
        match parse_url(query) {
            Ok(parts) => Ok(QueueItem::new(parts)),
            Err(e) => Err(e),
        }
    }

    /// The link's text.
    pub fn url(&self) -> (r: &str)
        ensures
            r@ == self.url_spec(),
    {
        self.url.as_str()
    }

    /// Whether the link is resolved as a whole playlist rather than a single track.
    pub fn is_playlist(&self) -> (r: bool)
        ensures
            r == match parsed_url(self.url_spec()) {
                Ok(v) => names_yt_playlist(v.host, v.query_pairs),
                Err(_) => false,
            },
    {
        has_yt_playlist(self.url.as_str())
    }
}

} // verus!
