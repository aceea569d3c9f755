//! Why a volume was refused.

use vstd::prelude::*;
use vstd::string::*;

verus! {

/// A volume outside what a guild may set.
#[derive(Debug, PartialEq, Eq, Structural, Clone, Copy)]
pub enum VolumeError {
    OutOfRange,
}

impl VolumeError {
    /// The error's message.
    pub fn message(self) -> (r: &'static str)
        ensures
            r@ == "GuildVolume should be between 0.0 ~ 1.0"@,
    {
        "GuildVolume should be between 0.0 ~ 1.0"
    }
}

} // verus!
