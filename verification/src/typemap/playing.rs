//! The key of the map of each guild's playing track.

use vstd::prelude::*;

verus! {

/// The key under which the map of each guild's playing track is stored.
pub struct PlayingMap;

} // verus!
