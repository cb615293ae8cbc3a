//! One poll cycle's view of the world, as handed to the supervisor.

use crate::device::{ProtectionStatus, Setpoints};
use crate::float::F32;
use vstd::prelude::*;

verus! {

/// One poll cycle's view of the world. `setpoints` is the readback; that it is
/// there at all doubles as the sign of a healthy link. `battery` is independent:
/// the latest fresh reading of the pack.
#[derive(Copy, Clone, Debug, PartialEq, Eq, Structural)]
pub struct PollResult {
    pub battery: Option<BatterySample>,
    pub setpoints: Option<Setpoints>,
    /// `None` means that reading the output state failed.
    pub output: Option<BuckOutput>,
}

impl Default for PollResult {
    /// A poll that read nothing.
    fn default() -> (p: Self)
        ensures
            p.battery is None && p.setpoints is None && p.output is None,
    {
        PollResult { battery: None, setpoints: None, output: None }
    }
}

/// What the buck reported of its output this poll, with the protection cause
/// where it is off. `Off` with `Normal` covers an output that is off for no
/// reported cause: fresh after boot, after a disable, a panel toggle.
#[derive(Copy, Clone, Debug, PartialEq, Eq, Structural)]
pub enum BuckOutput {
    On,
    Off { cause: ProtectionStatus },
}

/// Latest fresh battery reading. Voltage serves overvoltage detection, current
/// drives the phase machine; it is negative while charging.
#[derive(Copy, Clone, Debug, PartialEq, Eq, Structural)]
pub struct BatterySample {
    pub voltage: F32,
    pub current: F32,
}

} // verus!
