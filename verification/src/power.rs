//! What a battery reports about itself: its operating mode, and whether a
//! reading could be had at all.

use vstd::prelude::*;
use vstd::string::*;
use crate::charge::Charge;

verus! {

/// The operating mode of a battery. `Unknown` stands for every mode that a
/// device reports and that is none of the other four.
#[derive(Clone, Copy, Debug, PartialEq, Eq, Structural)]
pub enum PowerState {
    Charging,
    Discharging,
    Full,
    Empty,
    Unknown,
}

/// One reading of the primary battery.
#[derive(Clone, Copy, Debug, PartialEq, Eq, Structural)]
pub struct Reading {
    pub charge: Charge,
    pub state: PowerState,
}

/// How an attempt to read the primary battery ended.
#[derive(Clone, Copy, Debug, PartialEq, Eq, Structural)]
pub enum Probe {
    /// The batteries could not be listed.
    Unavailable,
    /// The list of batteries is empty.
    Missing,
    /// The first battery is listed but could not be read.
    Unreadable,
    /// The first battery was read.
    Found(Reading),
}

/// The word shown for an operating mode.
pub open spec fn state_label(state: PowerState) -> Seq<char> {
    match state {
        PowerState::Charging => "Charging"@,
        PowerState::Discharging => "Discharging"@,
        PowerState::Full => "Full"@,
        PowerState::Empty => "Empty"@,
        PowerState::Unknown => "Unknown"@,
    }
}

/// The word shown for an operating mode.
pub fn state_text(state: PowerState) -> (text: String)
    ensures
        text@ == state_label(state),
{
    match state {
        PowerState::Charging => String::from_str("Charging"),
        PowerState::Discharging => String::from_str("Discharging"),
        PowerState::Full => String::from_str("Full"),
        PowerState::Empty => String::from_str("Empty"),
        PowerState::Unknown => String::from_str("Unknown"),
    }
}

/// Every operating mode has a word, and none of the words is empty.
pub proof fn lemma_state_label_nonempty(state: PowerState)
    ensures
        state_label(state).len() > 0,
        state == PowerState::Unknown ==> state_label(state) == "Unknown"@,
{
    reveal_strlit("Charging");
    reveal_strlit("Discharging");
    reveal_strlit("Full");
    reveal_strlit("Empty");
    reveal_strlit("Unknown");
}

/// The reading that a probe gave, if it gave one.
pub open spec fn reading_of(probe: Probe) -> Option<Reading> {
    match probe {
        Probe::Found(reading) => Some(reading),
        _ => None,
    }
}

/// The reading to display after a probe. A failure to list or to read the
/// battery counts as no battery: the display does not tell them apart.
pub fn get_battery_info(probe: Probe) -> (info: Option<Reading>)
    ensures
        info == reading_of(probe),
{
    match probe {
        Probe::Unavailable => None,
        Probe::Missing => None,
        Probe::Unreadable => None,
        Probe::Found(reading) => Some(reading),
    }
}

} // verus!
