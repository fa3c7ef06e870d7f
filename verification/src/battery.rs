//! Battery state reporting.
//!
//! The charge level is a six-step scale delivered by the platform as a raw
//! byte; [`BatteryCharge`] gives it a name and [`charge_of`] fixes the
//! mapping from raw bytes to steps.

use vstd::prelude::*;

verus! {

/// Battery charge level, from empty to full, as reported by the platform.
#[derive(Clone, Copy, Debug, PartialEq, Eq, Structural)]
pub enum BatteryCharge {
    /// 0%: the battery is exhausted.
    Empty,
    /// Around 20%.
    Critical,
    /// Around 40%.
    Low,
    /// Around 60%.
    Medium,
    /// Around 80%.
    High,
    /// 100%: fully charged.
    Full,
}

/// The charge level a raw platform byte stands for: bytes above the scale
/// are clamped to `Full`.
pub open spec fn charge_of(val: u8) -> BatteryCharge {
    if val == 0 {
        BatteryCharge::Empty
    } else if val == 1 {
        BatteryCharge::Critical
    } else if val == 2 {
        BatteryCharge::Low
    } else if val == 3 {
        BatteryCharge::Medium
    } else if val == 4 {
        BatteryCharge::High
    } else {
        BatteryCharge::Full
    }
}

impl From<u8> for BatteryCharge {
    fn from(val: u8) -> (r: Self) {
        match val {
            0 => BatteryCharge::Empty,
            1 => BatteryCharge::Critical,
            2 => BatteryCharge::Low,
            3 => BatteryCharge::Medium,
            4 => BatteryCharge::High,
            _ => BatteryCharge::Full,
        }
    }
}

impl vstd::std_specs::convert::FromSpecImpl<u8> for BatteryCharge {
    open spec fn obeys_from_spec() -> bool {
        true
    }

    open spec fn from_spec(val: u8) -> Self {
        charge_of(val)
    }
}

impl BatteryCharge {
    /// The level's name, for reporting.
    pub fn to_str(&self) -> (r: &'static str)
        ensures
            *self == BatteryCharge::Empty ==> r@ == "Empty"@,
            *self == BatteryCharge::Critical ==> r@ == "Critical"@,
            *self == BatteryCharge::Low ==> r@ == "Low"@,
            *self == BatteryCharge::Medium ==> r@ == "Medium"@,
            *self == BatteryCharge::High ==> r@ == "High"@,
            *self == BatteryCharge::Full ==> r@ == "Full"@,
    {
        match self {
            BatteryCharge::Empty => "Empty",
            BatteryCharge::Critical => "Critical",
            BatteryCharge::Low => "Low",
            BatteryCharge::Medium => "Medium",
            BatteryCharge::High => "High",
            BatteryCharge::Full => "Full",
        }
    }
}

/// The battery level on an execution environment without the platform's
/// battery line: a fixed, optimistic placeholder.
pub fn level() -> (r: BatteryCharge)
    ensures
        r == BatteryCharge::High,
{
    BatteryCharge::High
}

/// Whether the battery is charging, on an execution environment without
/// the platform's battery line: never.
pub fn is_charging() -> (r: bool)
    ensures
        !r,
{
    false
}

} // verus!
