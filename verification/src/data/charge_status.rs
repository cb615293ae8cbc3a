//! What the charge supervisor publishes about itself.

use crate::charging::fault_reason::FaultReason;
use crate::charging::inhibit_reason::InhibitReason;
use crate::charging::phase::Phase;
use vstd::prelude::*;

verus! {

/// What the poll loop writes once per poll for displays to read. Small and `Copy`,
/// so that a reader copies it out and holds no lock.
#[derive(Clone, Copy, Debug, PartialEq, Eq, Structural)]
pub struct ChargeStatus {
    /// The buck's model register, read once at boot; 0 means not yet read.
    pub model_code: u16,
    /// The DC supply is disconnected or sagged; clears when it returns.
    pub ps_offline: bool,
    /// Charging phase; `None` while the output is off.
    pub phase: Option<Phase>,
    /// Latched fault; stays until a reboot.
    pub fault: Option<FaultReason>,
    /// Why the buck is held off without a latched fault.
    pub inhibit: Option<InhibitReason>,
}

impl Default for ChargeStatus {
    /// Nothing read yet.
    fn default() -> (s: Self)
        ensures
            s.model_code == 0,
            !s.ps_offline,
            s.phase is None && s.fault is None && s.inhibit is None,
    {
        ChargeStatus { model_code: 0, ps_offline: false, phase: None, fault: None, inhibit: None }
    }
}

} // verus!
