//! What a playback command asks of the current track.

use vstd::prelude::*;

verus! {

/// A change of playback state.
#[derive(Debug, PartialEq, Eq, Structural, Clone, Copy)]
pub enum PlayState {
    Play,
    Pause,
    Skip,
    Stop,
}

} // verus!
