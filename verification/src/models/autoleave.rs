//! When the bot leaves a voice channel on its own.

use vstd::prelude::*;
use vstd::string::*;

verus! {

/// A guild's auto-leave policy.
#[derive(Debug, PartialEq, Eq, Structural, Clone, Copy)]
pub enum AutoleaveType {
    /// Leave when the queue drains and when the channel empties.
    On,
    /// Leave only when the channel empties.
    Empty,
    /// Leave only when the queue drains.
    Silent,
    /// Never leave on its own.
    Off,
}

impl AutoleaveType {
    /// Leave once the queue has drained. The policy for the end of the last track,
    /// shared by the autonomous advance and the `skip` command so the two cannot
    /// diverge.
    pub fn leaves_on_empty_queue(self) -> (r: bool)
        ensures
            r == (self == AutoleaveType::On || self == AutoleaveType::Silent),
    {
        match self {
            AutoleaveType::On | AutoleaveType::Silent => true,
            _ => false,
        }
    }

    /// Leave once the last other user has left the bot's voice channel.
    pub fn leaves_on_empty_channel(self) -> (r: bool)
        ensures
            r == (self == AutoleaveType::On || self == AutoleaveType::Empty),
    {
        match self {
            AutoleaveType::On | AutoleaveType::Empty => true,
            _ => false,
        }
    }

    /// The policy's name as settings and commands spell it.
    pub fn name(self) -> (r: &'static str)
        ensures
            r@ == match self {
                AutoleaveType::On => "on"@,
                AutoleaveType::Empty => "empty"@,
                AutoleaveType::Silent => "silent"@,
                AutoleaveType::Off => "off"@,
            },
    {
        match self {
            AutoleaveType::On => "on",
            AutoleaveType::Empty => "empty",
            AutoleaveType::Silent => "silent",
            AutoleaveType::Off => "off",
        }
    }

    /// The policy spelled `name`, if any is.
    pub fn from_name(name: &str) -> (r: Option<AutoleaveType>)
        ensures
            match r {
                Some(t) => t.name_spec() == name@,
                None => forall|t: AutoleaveType| #[trigger] t.name_spec() != name@,
            },
    {
        proof {
            reveal_strlit("on");
            reveal_strlit("empty");
            reveal_strlit("silent");
            reveal_strlit("off");
        }
        if crate::utils::text::same_text(name, "on") {
            Some(AutoleaveType::On)
        } else if crate::utils::text::same_text(name, "empty") {
            Some(AutoleaveType::Empty)
        } else if crate::utils::text::same_text(name, "silent") {
            Some(AutoleaveType::Silent)
        } else if crate::utils::text::same_text(name, "off") {
            Some(AutoleaveType::Off)
        } else {
            proof {
                assert forall|t: AutoleaveType| #[trigger] t.name_spec() != name@ by {
                    match t {
                        AutoleaveType::On => {},
                        AutoleaveType::Empty => {},
                        AutoleaveType::Silent => {},
                        AutoleaveType::Off => {},
                    }
                }
            }
            None
        }
    }

    /// The policy's name, as values.
    pub open spec fn name_spec(self) -> Seq<char> {
        match self {
            AutoleaveType::On => "on"@,
            AutoleaveType::Empty => "empty"@,
            AutoleaveType::Silent => "silent"@,
            AutoleaveType::Off => "off"@,
        }
    }
}

} // verus!
