//! A guild's playback volume, as a whole percentage.
//!
//! The volume itself is a float in `0.0..=1.0`, which stays outside the library; what
//! is decided here is which percentages a command may set.

use vstd::prelude::*;
use vstd::string::*;

verus! {

/// A volume outside `0.0..=1.0`.
#[derive(Debug, PartialEq, Eq, Structural, Clone, Copy)]
pub enum VolumeError {
    OutOfRange,
}

impl VolumeError {
    /// The error's message.
    pub fn message(self) -> (r: &'static str)
        ensures
            r@ == "volume should be between 0.0 ~ 1.0"@,
    {
        "volume should be between 0.0 ~ 1.0"
    }
}

/// A volume given as a percentage: accepted from 0 through 100, refused past that.
pub fn check_percent(value: usize) -> (r: Result<usize, VolumeError>)
    ensures
        value <= 100 ==> r == Ok::<usize, VolumeError>(value),
        value > 100 ==> r == Err::<usize, VolumeError>(VolumeError::OutOfRange),
{
    if value <= 100 {
        Ok(value)
    } else {
        Err(VolumeError::OutOfRange)
    }
}

} // verus!
