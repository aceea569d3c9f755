//! The decisions behind getting a track's bytes: which byte path serves a format, how
//! each path walks its source, and when a walk recovers or gives up.

pub mod chunked;
pub mod direct;
pub mod headers;
pub mod hls;
pub mod playlist;
pub mod sidecar;
pub mod source;
pub mod tail;

use vstd::prelude::*;
use vstd::string::*;
use crate::utils::text::same_text;
use crate::utils::url::{any_key, has_key, parse_url, parsed_url};

verus! {

/// Whether a URL with this host and these query pairs names a playlist yt-dlp can list:
/// a YouTube or YouTube Music host, and a `list` key in the query.
pub open spec fn names_yt_playlist(host: Option<Seq<char>>, pairs: Seq<(Seq<char>, Seq<char>)>) -> bool {
    match host {
        Some(h) => (h == "www.youtube.com"@ || h == "youtube.com"@ || h == "youtu.be"@
            || h == "music.youtube.com"@) && has_key(pairs, "list"@),
        None => false,
    }
}

/// Whether the link `url` names a YouTube playlist; text that is no URL names none.
pub fn has_yt_playlist(url: &str) -> (r: bool)
    ensures
        r == match parsed_url(url@) {
            Ok(v) => names_yt_playlist(v.host, v.query_pairs),
            Err(_) => false,
        },
{
    match parse_url(url) {
        Ok(parts) => match &parts.host {
            Some(h) => {
                if same_text(h.as_str(), "www.youtube.com") || same_text(h.as_str(), "youtube.com")
                    || same_text(h.as_str(), "youtu.be") || same_text(h.as_str(), "music.youtube.com") {
                    any_key(&parts.query_pairs, "list")
                } else {
                    false
                }
            },
            None => false,
        },
        Err(_) => false,
    }
}

} // verus!
