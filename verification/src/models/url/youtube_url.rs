//! YouTube links: a video (possibly inside a playlist, possibly at a start time), or
//! a whole playlist.

use vstd::prelude::*;
use vstd::string::*;
use crate::utils::text::{decimal, decimal_string};

verus! {

/// A YouTube link, as values.
pub enum YouTubeUrlView {
    Video { video_id: Seq<char>, playlist_id: Option<Seq<char>>, time: Option<u64> },
    Playlist { playlist_id: Seq<char> },
}

/// A YouTube link.
#[derive(Debug, PartialEq, Clone)]
pub enum YouTubeUrl {
    Video { video_id: String, playlist_id: Option<String>, time: Option<u64> },
    Playlist { playlist_id: String },
}

/// The view of an optional string.
pub open spec fn opt_view(s: Option<String>) -> Option<Seq<char>> {
    match s {
        Some(s) => Some(s@),
        None => None,
    }
}

impl View for YouTubeUrl {
    type V = YouTubeUrlView;

    open spec fn view(&self) -> YouTubeUrlView {
        match self {
            YouTubeUrl::Video { video_id, playlist_id, time } => YouTubeUrlView::Video {
                video_id: video_id@,
                playlist_id: opt_view(*playlist_id),
                time: *time,
            },
            YouTubeUrl::Playlist { playlist_id } => YouTubeUrlView::Playlist {
                playlist_id: playlist_id@,
            },
        }
    }
}

/// The canonical link text of a YouTube link.
pub open spec fn youtube_url_text(u: YouTubeUrlView) -> Seq<char> {
    "https://www.youtube.com/"@ + match u {
        YouTubeUrlView::Video { video_id, playlist_id, time } => "watch?v="@ + video_id
            + match playlist_id {
                Some(pl) => "&list="@ + pl,
                None => Seq::empty(),
            } + match time {
                Some(t) => "&t="@ + decimal(t as nat) + "s"@,
                None => Seq::empty(),
            },
        YouTubeUrlView::Playlist { playlist_id } => "playlist?list="@ + playlist_id,
    }
}

/// The YouTube link a builder holding these fields makes: a video when it has a video
/// id, else a playlist when it has a playlist id, else none.
pub open spec fn built(video_id: Option<Seq<char>>, playlist_id: Option<Seq<char>>, time: Option<u64>) -> Option<YouTubeUrlView> {
    match video_id {
        Some(v) => Some(YouTubeUrlView::Video { video_id: v, playlist_id: playlist_id, time: time }),
        None => match playlist_id {
            Some(pl) => Some(YouTubeUrlView::Playlist { playlist_id: pl }),
            None => None,
        },
    }
}

/// Collects the parts of a YouTube link one at a time.
pub struct YouTubeUrlBuilder {
    video_id: Option<String>,
    time: Option<u64>,
    playlist_id: Option<String>,
}

impl YouTubeUrlBuilder {
    pub closed spec fn video(&self) -> Option<Seq<char>> {
        opt_view(self.video_id)
    }

    pub closed spec fn playlist(&self) -> Option<Seq<char>> {
        opt_view(self.playlist_id)
    }

    pub closed spec fn start(&self) -> Option<u64> {
        self.time
    }

    /// Set the video id.
    pub fn video_id(&mut self, video_id: &str) -> (r: &mut Self)
        ensures
            r.video() == Some(video_id@),
            r.playlist() == old(self).playlist(),
            r.start() == old(self).start(),
            *final(self) == *final(r),
    {
        self.video_id = Some(video_id.to_owned());
        self
    }

    /// Set the playlist id.
    pub fn playlist_id(&mut self, playlist_id: &str) -> (r: &mut Self)
        ensures
            r.playlist() == Some(playlist_id@),
            r.video() == old(self).video(),
            r.start() == old(self).start(),
            *final(self) == *final(r),
    {
        self.playlist_id = Some(playlist_id.to_owned());
        self
    }

    /// Set the start time, in seconds.
    pub fn time(&mut self, time_sec: u64) -> (r: &mut Self)
        ensures
            r.start() == Some(time_sec),
            r.video() == old(self).video(),
            r.playlist() == old(self).playlist(),
            *final(self) == *final(r),
    {
        self.time = Some(time_sec);
        self
    }

    /// The link the parts set so far make: a video when a video id is set (with the
    /// playlist id and start time, if set), else a playlist when a playlist id is set,
    /// else nothing.
    pub fn build(&self) -> (r: Option<YouTubeUrl>)
        ensures
            match r {
                Some(u) => built(self.video(), self.playlist(), self.start()) == Some(u@),
                None => built(self.video(), self.playlist(), self.start()) is None,
            },
    {
        match &self.video_id {
            Some(v) => Some(YouTubeUrl::Video {
                video_id: v.clone(),
                playlist_id: match &self.playlist_id {
                    Some(pl) => Some(pl.clone()),
                    None => None,
                },
                time: self.time,
            }),
            None => match &self.playlist_id {
                Some(pl) => Some(YouTubeUrl::Playlist { playlist_id: pl.clone() }),
                None => None,
            },
        }
    }
}

impl YouTubeUrl {
    /// A builder with nothing set.
    pub fn builder() -> (b: YouTubeUrlBuilder)
        ensures
            b.video() is None,
            b.playlist() is None,
            b.start() is None,
    {
        YouTubeUrlBuilder { video_id: None, time: None, playlist_id: None }
    }

    pub fn is_playlist(&self) -> (r: bool)
        ensures
            r == (self@ is Playlist),
    {
        match self {
            YouTubeUrl::Playlist { .. } => true,
            _ => false,
        }
    }

    pub fn is_video(&self) -> (r: bool)
        ensures
            r == (self@ is Video),
    {
        match self {
            YouTubeUrl::Video { .. } => true,
            _ => false,
        }
    }

    /// The canonical link, e.g. `https://www.youtube.com/watch?v=ID&list=PL&t=42s`.
    pub fn to_string(&self) -> (s: String)
        ensures
            s@ == youtube_url_text(self@),
    {
        let mut res = String::new();
        res.append("https://www.youtube.com/");
        match self {
            YouTubeUrl::Video { video_id, playlist_id, time } => {
                res.append("watch?v=");
                res.append(video_id.as_str());
                if let Some(pl) = playlist_id {
                    res.append("&list=");
                    res.append(pl.as_str());
                }
                if let Some(t) = time {
                    res.append("&t=");
                    let digits = decimal_string(*t);
                    res.append(digits.as_str());
                    res.append("s");
                }
            },
            YouTubeUrl::Playlist { playlist_id } => {
                res.append("playlist?list=");
                res.append(playlist_id.as_str());
            },
        }
        proof {
            let v = self@;
            match v {
                YouTubeUrlView::Video { video_id, playlist_id, time } => {
                    assert(res@ =~= youtube_url_text(v));
                },
                YouTubeUrlView::Playlist { playlist_id } => {
                    assert(res@ =~= youtube_url_text(v));
                },
            }
        }
        res
    }
}

} // verus!
