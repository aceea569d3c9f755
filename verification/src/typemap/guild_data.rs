//! The key of the map of each guild's queue and settings.

use vstd::prelude::*;

verus! {

/// The key under which the map of each guild's queue and settings is stored.
pub struct GuildDataMap;

} // verus!
