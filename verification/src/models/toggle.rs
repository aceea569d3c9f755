//! An on/off command option.

use vstd::prelude::*;
use vstd::string::*;

verus! {

/// A switch a command turns on or off.
#[derive(Debug, PartialEq, Eq, Structural, Clone, Copy)]
pub enum ToggleOption {
    On,
    Off,
}

impl ToggleOption {
    /// The option's name as commands spell it.
    pub fn name(self) -> (r: &'static str)
        ensures
            r@ == match self {
                ToggleOption::On => "on"@,
                ToggleOption::Off => "off"@,
            },
    {
        match self {
            ToggleOption::On => "on",
            ToggleOption::Off => "off",
        }
    }

    /// Whether the switch is on.
    pub fn is_on(self) -> (r: bool)
        ensures
            r == (self == ToggleOption::On),
    {
        match self {
            ToggleOption::On => true,
            ToggleOption::Off => false,
        }
    }
}

} // verus!
