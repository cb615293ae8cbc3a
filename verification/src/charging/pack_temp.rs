//! Whether this board can see the pack's temperature at all.

use vstd::prelude::*;

verus! {

/// Whether a pack temperature sensor is fitted.
///
/// Declared, not inferred: a sensor that failed and a sensor that was never
/// fitted give the same absent reading, and only one of them is safe to charge
/// through.
#[derive(Copy, Clone, Debug, PartialEq, Eq, Structural)]
pub enum PackTemp {
    /// No sensor fitted. Charging goes on with no temperature check, an accepted
    /// risk that the pack's own protection has to cover.
    Absent,
    /// Sensor fitted. An absent or stale reading is a fault.
    Fitted,
}

} // verus!
