//! A YouTube playlist as yt-dlp lists it, and the queue it becomes.

use vstd::prelude::*;
use crate::models::playlist::Playlist;

verus! {

/// What yt-dlp reports of a playlist, in the fields the bot reads; `T` is one entry's
/// metadata.
pub struct YouTubeDlPlaylistOutput<T> {
    pub id: Option<String>,
    pub title: Option<String>,
    pub channel: Option<String>,
    pub uploader: Option<String>,
    pub channel_url: Option<String>,
    pub uploader_url: Option<String>,
    pub entries: Vec<T>,
    pub webpage_url: Option<String>,
    pub original_url: Option<String>,
}

/// A playlist ready to be queued.
pub struct YouTubePlaylist<T> {
    pub id: Option<String>,
    pub title: Option<String>,
    /// The channel that owns the playlist, else its uploader.
    pub author: Option<String>,
    /// The playlist's page, else the link it was asked for by.
    pub url: Option<String>,
    pub entries: Vec<T>,
}

/// `first`, or `second` where `first` is missing.
pub open spec fn first_present<A>(first: Option<A>, second: Option<A>) -> Option<A> {
    match first {
        Some(a) => Some(a),
        None => second,
    }
}

fn either(first: Option<String>, second: Option<String>) -> (r: Option<String>)
    ensures
        r == first_present(first, second),
{
    match first {
        Some(a) => Some(a),
        None => second,
    }
}

impl<T> YouTubePlaylist<T> {
    /// The playlist yt-dlp listed in `output`: its author is the channel, else the
    /// uploader; its link the page, else the original link; its entries in order.
    pub fn from_output(output: YouTubeDlPlaylistOutput<T>) -> (r: Self)
        ensures
            r.id == output.id,
            r.title == output.title,
            r.author == first_present(output.channel, output.uploader),
            r.url == first_present(output.webpage_url, output.original_url),
            r.entries@ == output.entries@,
    {
        YouTubePlaylist {
            id: output.id,
            title: output.title,
            author: either(output.channel, output.uploader),
            url: either(output.webpage_url, output.original_url),
            entries: output.entries,
        }
    }

    /// The entries as a queue, in the playlist's order.
    pub fn to_playlist(self) -> (r: Playlist<T>)
        ensures
            r@ == self.entries@,
    {
        Playlist::from_vec(self.entries)
    }

    /// The entries, in the playlist's order.
    pub fn to_vec(self) -> (r: Vec<T>)
        ensures
            r@ == self.entries@,
    {
        self.entries
    }
}

} // verus!
