//! What the buck converter reports and accepts, as plain values.

use crate::float::F32;
use vstd::prelude::*;

verus! {

/// Latched protection cause of the buck (its `PROTECT` register). `Normal` is the
/// only state that is not tripped.
#[derive(Copy, Clone, Debug, PartialEq, Eq, Structural)]
pub enum ProtectionStatus {
    /// Operating normally.
    Normal,
    /// Output overvoltage.
    Ovp,
    /// Output overcurrent.
    Ocp,
    /// Output overpower.
    Opp,
    /// Input undervoltage.
    Lvp,
    /// Cumulative charge limit reached.
    Oah,
    /// Output-on time limit reached.
    Ohp,
    /// Over-temperature.
    Otp,
    /// Cumulative energy (Ah) limit reached.
    Oep,
    /// Cumulative energy (Wh) limit reached.
    Owh,
    /// Input overcurrent or inrush.
    Icp,
}

impl ProtectionStatus {
    /// The text of `name`.
    pub open spec fn name_text(self) -> Seq<char> {
        match self {
            ProtectionStatus::Normal => "normal"@,
            ProtectionStatus::Ovp => "ovp"@,
            ProtectionStatus::Ocp => "ocp"@,
            ProtectionStatus::Opp => "opp"@,
            ProtectionStatus::Lvp => "lvp"@,
            ProtectionStatus::Oah => "oah"@,
            ProtectionStatus::Ohp => "ohp"@,
            ProtectionStatus::Otp => "otp"@,
            ProtectionStatus::Oep => "oep"@,
            ProtectionStatus::Owh => "owh"@,
            ProtectionStatus::Icp => "icp"@,
        }
    }

    /// The cause in lower case, as it stands in log lines.
    pub fn name(self) -> (name: &'static str)
        ensures
            name@ == self.name_text(),
    {
        match self {
            ProtectionStatus::Normal => "normal",
            ProtectionStatus::Ovp => "ovp",
            ProtectionStatus::Ocp => "ocp",
            ProtectionStatus::Opp => "opp",
            ProtectionStatus::Lvp => "lvp",
            ProtectionStatus::Oah => "oah",
            ProtectionStatus::Ohp => "ohp",
            ProtectionStatus::Otp => "otp",
            ProtectionStatus::Oep => "oep",
            ProtectionStatus::Owh => "owh",
            ProtectionStatus::Icp => "icp",
        }
    }
}

/// Output voltage and current setpoints.
#[derive(Copy, Clone, Debug, PartialEq, Eq, Structural)]
pub struct Setpoints {
    pub v_set: F32,
    pub i_set: F32,
}

/// Hard trip limits programmed into the buck's protection registers.
#[derive(Copy, Clone, Debug, PartialEq, Eq, Structural)]
pub struct SafetyLimits {
    pub lvp_v: F32,
    pub ovp_v: F32,
    pub ocp_a: F32,
}

} // verus!
