//! The older classification of links: a YouTube video, a YouTube playlist, or any
//! other link.

use vstd::prelude::*;
use vstd::string::*;
use crate::models::url::youtube_url::opt_view;
use crate::utils::text::{decimal, decimal_string, find_last_value, last_value, parse_u64_without, parse_unsigned, same_text, without};
use crate::utils::url::{parse_url, parsed_url, UrlParseError, UrlParts, UrlView};

verus! {

/// A classified link, as values.
pub enum UrlTypeView {
    Youtube { id: Seq<char>, time: Option<u32> },
    YoutubePlaylist { playlist_id: Seq<char> },
    Other(Seq<char>),
}

/// A classified link.
#[derive(Debug, PartialEq, Clone)]
pub enum UrlType {
    Youtube { id: String, time: Option<u32> },
    YoutubePlaylist { playlist_id: String },
    Other(String),
}

impl View for UrlType {
    type V = UrlTypeView;

    open spec fn view(&self) -> UrlTypeView {
        match self {
            UrlType::Youtube { id, time } => UrlTypeView::Youtube { id: id@, time: *time },
            UrlType::YoutubePlaylist { playlist_id } => UrlTypeView::YoutubePlaylist { playlist_id: playlist_id@ },
            UrlType::Other(s) => UrlTypeView::Other(s@),
        }
    }
}

/// The start time a link's query asks for: its last `t` value, every `s` taken out,
/// read as a `u32` number of seconds.
pub open spec fn start_seconds(pairs: Seq<(Seq<char>, Seq<char>)>) -> Option<u32> {
    match last_value(pairs, "t"@) {
        Some(t) => match parse_unsigned(without(t, 's'), u32::MAX as nat) {
            Some(n) => Some(n as u32),
            None => None,
        },
        None => None,
    }
}

/// How a link that the `url` crate parsed into `u`, with a host, is classified.
pub open spec fn classify_url_type(text: Seq<char>, u: UrlView) -> UrlTypeView {
    let h = u.host->0;
    let time = start_seconds(u.query_pairs);
    if h == "www.youtube.com"@ {
        match last_value(u.query_pairs, "list"@) {
            Some(pl) => UrlTypeView::YoutubePlaylist { playlist_id: pl },
            None => match last_value(u.query_pairs, "v"@) {
                Some(v) => UrlTypeView::Youtube { id: v, time: time },
                None => UrlTypeView::Other(text),
            },
        }
    } else if h == "youtu.be"@ {
        match u.path_segments {
            Some(segs) if segs.len() > 0 => UrlTypeView::Youtube { id: segs[0], time: time },
            _ => UrlTypeView::Other(text),
        }
    } else {
        UrlTypeView::Other(text)
    }
}

/// The text of a classified link.
pub open spec fn url_type_text(u: UrlTypeView) -> Seq<char> {
    match u {
        UrlTypeView::Youtube { id, time } => "https://www.youtube.com/watch?v="@ + id + match time {
            Some(t) => "&t="@ + decimal(t as nat),
            None => Seq::empty(),
        },
        UrlTypeView::YoutubePlaylist { playlist_id } => "https://www.youtube.com/playlist?list="@ + playlist_id,
        UrlTypeView::Other(s) => s,
    }
}

impl UrlType {
    /// Classify the link text `s`: refused when the `url` crate refuses it; otherwise
    /// a playlist for a `www.youtube.com` link with a `list`, a video for one with a
    /// `v` or for a `youtu.be` link, and any other link as given.
    pub fn from_str(s: &str) -> (r: Result<UrlType, UrlParseError>)
        requires
            parsed_url(s@) matches Ok(u) ==> u.host is Some,
        ensures
            match r {
                Ok(t) => parsed_url(s@) matches Ok(u) && classify_url_type(s@, u) == t@,
                Err(e) => parsed_url(s@) == Err::<UrlView, UrlParseError>(e),
            },
    {
        match parse_url(s) {
            Ok(parts) => Ok(Self::classify(s, &parts)),
            Err(e) => Err(e),
        }
    }

    /// [`Self::from_str`] for any text: `None` for a link the `url` crate parses but
    /// that has no host, which [`Self::from_str`] cannot classify.
    pub fn try_from_str(s: &str) -> (r: Option<Result<UrlType, UrlParseError>>)
        ensures
            match r {
                None => parsed_url(s@) matches Ok(u) && u.host is None,
                Some(Ok(t)) => parsed_url(s@) matches Ok(u) && classify_url_type(s@, u) == t@,
                Some(Err(e)) => parsed_url(s@) == Err::<UrlView, UrlParseError>(e),
            },
    {
        match parse_url(s) {
            Ok(parts) => {
                if parts.host.is_none() {
                    return None;
                }
            },
            Err(_) => {},
        }
        Some(Self::from_str(s))
    }

    /// Classify the link text `s`, which the `url` crate parsed into `parts`.
    pub fn classify(s: &str, parts: &UrlParts) -> (r: UrlType)
        requires
            parts@.host is Some,
        ensures
            r@ == classify_url_type(s@, parts@),
    {
        let host = match &parts.host {
            Some(h) => h,
            None => return UrlType::Other(s.to_owned()),
        };
        let time: Option<u32> = match find_last_value(&parts.query_pairs, "t") {
            Some(t) => match parse_u64_without(t.as_str(), 's') {
                Some(n) => if n <= u32::MAX as u64 { Some(n as u32) } else { None },
                None => None,
            },
            None => None,
        };
        assert(time == start_seconds(parts@.query_pairs));
        if same_text(host.as_str(), "www.youtube.com") {
            if let Some(pl) = find_last_value(&parts.query_pairs, "list") {
                return UrlType::YoutubePlaylist { playlist_id: pl.clone() };
            }
            match find_last_value(&parts.query_pairs, "v") {
                Some(v) => UrlType::Youtube { id: v.clone(), time },
                None => UrlType::Other(s.to_owned()),
            }
        } else if same_text(host.as_str(), "youtu.be") {
            match &parts.path_segments {
                Some(segs) => {
                    if segs.len() > 0 {
                        UrlType::Youtube { id: segs[0].clone(), time }
                    } else {
                        UrlType::Other(s.to_owned())
                    }
                },
                None => UrlType::Other(s.to_owned()),
            }
        } else {
            UrlType::Other(s.to_owned())
        }
    }

    /// The link's text: a video as a `watch?v=` link with its `t` in seconds, a playlist
    /// as a `playlist?list=` link, any other link as given.
    pub fn to_string(&self) -> (s: String)
        ensures
            s@ == url_type_text(self@),
    {
        match self {
            UrlType::Youtube { id, time } => {
                let mut res = String::new();
                res.append("https://www.youtube.com/watch?v=");
                res.append(id.as_str());
                if let Some(t) = time {
                    res.append("&t=");
                    let digits = decimal_string(*t as u64);
                    res.append(digits.as_str());
                }
                assert(res@ =~= url_type_text(self@));
                res
            },
            UrlType::YoutubePlaylist { playlist_id } => {
                let mut res = String::new();
                res.append("https://www.youtube.com/playlist?list=");
                res.append(playlist_id.as_str());
                res
            },
            UrlType::Other(s) => s.clone(),
        }
    }
}

} // verus!
