//! Two-phase constant-voltage charging with hysteresis and a supervisor latch.
//!
//! Sits in Float (low target) by default. When the battery draws more than
//! `enter_absorb_a` of charging current, switches to Absorb (high target) to
//! finish the pack. Once the current tapers below `exit_absorb_a`, drops back to
//! Float.
//!
//! The phase logic is wrapped in fault handling: overvoltage, a stuck absorb, a
//! missing battery, an unhealthy link and the like stop the charge, and only a
//! reboot resumes it. A fault latches only while the buck is sourcing; the same
//! condition found while the output is off inhibits instead, and clears by
//! itself.
//!
//! Battery current is negative while charging. The supervisor takes signed amps
//! and negates internally, so that profile thresholds stay positive.
//!
//! Voltages, currents and fractions below are binary32 bit patterns, durations
//! are seconds.

pub mod action;
pub mod charge_state;
pub mod charge_supervisor;
pub mod debounce;
pub mod decision_laws;
pub mod fault_reason;
pub mod hold_budget;
pub mod inhibit_reason;
pub mod pack_temp;
pub mod phase;
pub mod poll_result;
pub mod profile;
pub mod profile_laws;
pub mod protection_policy;
pub mod rating_laws;
pub mod state_decision_laws;
pub mod state_laws;
pub mod state_supervisor;
pub mod supervision_laws;
pub mod two_phase;
pub mod voltage_writer;

use crate::data::STALE_WINDOW;
use crate::float::{number, F32};
use vstd::prelude::*;

verus! {

/// Charge rate as a fraction of pack capacity: 0.2.
pub const REGULATION_C: u32 = 0x3e4c_cccd;

/// Tail current that ends Absorb, as a fraction of capacity: 0.05.
pub const EXIT_ABSORB_C: u32 = 0x3d4c_cccd;

/// Current that enters Absorb, as a fraction of capacity: 0.06. Just above the
/// tail, so that the hysteresis band straddles it.
pub const ENTER_ABSORB_C: u32 = 0x3d75_c28f;

/// How far above `absorb_v` the pack must sit before the debounced overvoltage trip
/// starts counting: 0.2 V.
pub const OV_MARGIN_V: u32 = 0x3e4c_cccd;

/// Margin above `absorb_v` of the buck's own overvoltage trip: three times
/// `OV_MARGIN_V`, so that the supervisor's trip fires first.
pub const HARDWARE_OVP_MARGIN_V: u32 = 0x3f19_999a;

/// Headroom below the DC input rail before the buck cuts its output: 2 V.
pub const INPUT_LVP_MARGIN_V: u32 = 0x4000_0000;

/// Pack voltage within this of `absorb_v` counts as being at the constant-voltage
/// plateau: 0.1 V.
pub const ABSORB_CV_BAND_V: u32 = 0x3dcc_cccd;

/// How far over the profile's charge rate the pack may draw: a factor of 1.25.
pub const OVERCURRENT_TOL: u32 = 0x3fa0_0000;

/// Lowest pack temperature to charge at: 0 degrees Celsius.
pub const CHARGE_TEMP_MIN_C: u32 = 0x0000_0000;

/// Highest pack temperature to charge at: 45 degrees Celsius.
pub const CHARGE_TEMP_MAX_C: u32 = 0x4234_0000;

/// Allowed drift between commanded and observed setpoint: 0.02, two register
/// quanta.
pub const SETPOINT_DRIFT_TOL: u32 = 0x3ca3_d70a;

/// How long the pack must hold above `absorb_v + OV_MARGIN_V` before tripping.
pub const OV_DURATION: u64 = 3;

/// Cap on how long the pack may hold at the constant-voltage plateau without the
/// current tapering out. The ramp up to the plateau is not clocked.
pub const MAX_ABSORB: u64 = 7200;

/// Cap on one charge cycle, counted from entering Absorb.
pub const MAX_CHARGE: u64 = 28800;

/// How long charging current must hold below `exit_absorb_a`, net of pulses above
/// it, before the taper is taken as real.
pub const EXIT_DEBOUNCE: u64 = 60;

/// How long the battery reading may be missing before failing closed.
pub const BATTERY_MISSING_TIMEOUT: u64 = 10;

/// How long charging current must hold over the tolerance before tripping.
pub const OVERCURRENT_DURATION: u64 = 5;

/// How long the supervisor must go without a new self-clearing hold before it
/// forgets the ones before it.
pub const FLAP_WINDOW: u64 = 300;

/// How long a fitted pack-temperature sensor may go unread before failing closed.
pub const PACK_TEMP_STALE_TIMEOUT: u64 = 10;

/// How long reads from the buck may keep failing before failing closed.
pub const MODBUS_UNHEALTHY_TIMEOUT: u64 = 5;

/// Self-clearing holds tolerated inside one run before the supervisor stops
/// waiting them out.
pub const MAX_HOLDS: u8 = 4;

/// How many transitions the supervisor buffers between drains.
pub const TRANSITION_BUFFER: usize = 8;

/// The rates and margins are ordered as their uses need: the charge rate is above
/// the current that enters Absorb, that one above the tail, the buck's own trip
/// above the supervisor's, and the cap on a cycle above the cap on its plateau. The
/// two windows that a dead battery sensor has to cross add up to 15 seconds.
pub proof fn constants_are_ordered()
    ensures
        number(ENTER_ABSORB_C).below(number(REGULATION_C)),
        number(EXIT_ABSORB_C).below(number(ENTER_ABSORB_C)),
        number(OV_MARGIN_V).below(number(HARDWARE_OVP_MARGIN_V)),
        number(CHARGE_TEMP_MIN_C).below(number(CHARGE_TEMP_MAX_C)),
        MAX_ABSORB < MAX_CHARGE,
        STALE_WINDOW + BATTERY_MISSING_TIMEOUT == 15,
{
    reveal(F32::below);
}

} // verus!
