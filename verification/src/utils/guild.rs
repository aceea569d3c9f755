//! Where two members of a guild stand with respect to its voice channels.

use vstd::prelude::*;

verus! {

/// How the voice channels of two members compare; a channel is its Discord id.
#[derive(Debug, PartialEq, Eq, Structural, Clone, Copy)]
pub enum VoiceChannelState {
    /// Both are in this channel.
    Same(u64),
    /// The first is in one channel, the second in another.
    Different(u64, u64),
    /// Only the first is in a voice channel.
    OnlyFirst(u64),
    /// Only the second is in a voice channel.
    OnlySecond(u64),
    /// Neither is in a voice channel.
    Neither,
}

/// Compare the voice channels `first` and `second` that two members are in, `None`
/// for a member in none.
pub fn cmp_voice_channel(first: Option<u64>, second: Option<u64>) -> (r: VoiceChannelState)
    ensures
        r == match (first, second) {
            (None, None) => VoiceChannelState::Neither,
            (Some(a), None) => VoiceChannelState::OnlyFirst(a),
            (None, Some(b)) => VoiceChannelState::OnlySecond(b),
            (Some(a), Some(b)) => if a == b {
                VoiceChannelState::Same(a)
            } else {
                VoiceChannelState::Different(a, b)
            },
        },
{
    match (first, second) {
        (None, None) => VoiceChannelState::Neither,
        (Some(a), None) => VoiceChannelState::OnlyFirst(a),
        (None, Some(b)) => VoiceChannelState::OnlySecond(b),
        (Some(a), Some(b)) => {
            if a == b {
                VoiceChannelState::Same(a)
            } else {
                VoiceChannelState::Different(a, b)
            }
        },
    }
}

} // verus!
