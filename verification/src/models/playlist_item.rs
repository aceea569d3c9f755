//! A track as a playlist keeps it.

use vstd::prelude::*;

verus! {

/// A track's display data, as kept in a guild's saved playlist.
#[derive(Debug)]
pub struct PlaylistItem {
    pub url: String,
    pub title: String,
    pub channel: String,
    pub duration: std::time::Duration,
    pub thumbnail: String,
}

} // verus!
