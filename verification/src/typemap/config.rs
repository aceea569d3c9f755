//! The key of the map of each guild's configuration.

use vstd::prelude::*;

verus! {

/// The key under which the map of each guild's configuration is stored.
pub struct GuildConfigs;

} // verus!
