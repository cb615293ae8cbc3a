//! Why the supervisor latched the buck off.

use crate::device::ProtectionStatus;
use vstd::prelude::*;
use vstd::string::StringExecFns;

verus! {

/// Why the supervisor latched the buck off. Once latched, only a reboot clears
/// it: recovering by itself would mean trying again under the same conditions.
#[derive(Copy, Clone, Debug, PartialEq, Eq, Structural)]
pub enum FaultReason {
    /// No fresh battery reading for `BATTERY_MISSING_TIMEOUT`. Without current and
    /// voltage charging cannot be supervised, so this fails closed.
    BatterySensorStale,
    /// Reads from the buck have failed for `MODBUS_UNHEALTHY_TIMEOUT` without a
    /// break: closed-loop control is lost, so disable while that is possible.
    ModbusUnhealthy,
    /// Pack voltage exceeded `absorb_v + OV_MARGIN_V` for `OV_DURATION`. Catches
    /// drift below the buck's own trip but above the profile target.
    Overvoltage,
    /// The pack held at the constant-voltage plateau for `MAX_ABSORB` without
    /// tapering out. The ramp up to the plateau does not count.
    AbsorbTimeout,
    /// The pack spent `MAX_CHARGE` in Absorb without the taper ever ending the
    /// cycle: the cap on a pack that never reaches the plateau.
    ChargeTimeout,
    /// The pack drew more than `OVERCURRENT_TOL` times its charge rate for
    /// `OVERCURRENT_DURATION`. The current setpoint covers the load as well, so
    /// only the reading at the pack can tell.
    ChargeOvercurrent,
    /// More than `MAX_HOLDS` self-clearing holds in one run: the rail cannot carry
    /// the charge current.
    ProtectionFlapping,
    /// The pack is below `CHARGE_TEMP_MIN_C`: charging it would plate lithium.
    PackTooCold,
    /// The pack is above `CHARGE_TEMP_MAX_C`.
    PackTooHot,
    /// A fitted pack-temperature sensor has not read for
    /// `PACK_TEMP_STALE_TIMEOUT`.
    PackTempStale,
    /// Setpoint readback disagreed with what was commanded. The buck is sourcing
    /// under unknown setpoints; the read itself succeeded, so no debounce.
    SettingsDrift,
    /// The output read off while the supervisor was sourcing: the buck tripped its
    /// own protection or someone toggled the panel. Carries the reported cause.
    OutputUnexpectedlyOff(ProtectionStatus),
    /// The output read on at cold boot, where it has to stay off until the
    /// supervisor enables it.
    OutputOnInPending,
}

impl FaultReason {
    /// The text of `label`.
    pub open spec fn label_text(self) -> Seq<char> {
        match self {
            FaultReason::BatterySensorStale => "battery_sensor_stale"@,
            FaultReason::ModbusUnhealthy => "modbus_unhealthy"@,
            FaultReason::Overvoltage => "overvoltage"@,
            FaultReason::AbsorbTimeout => "absorb_timeout"@,
            FaultReason::ChargeTimeout => "charge_timeout"@,
            FaultReason::ChargeOvercurrent => "charge_overcurrent"@,
            FaultReason::ProtectionFlapping => "protection_flapping"@,
            FaultReason::PackTooCold => "pack_too_cold"@,
            FaultReason::PackTooHot => "pack_too_hot"@,
            FaultReason::PackTempStale => "pack_temp_stale"@,
            FaultReason::SettingsDrift => "settings_drift"@,
            FaultReason::OutputUnexpectedlyOff(_) => "output_unexpectedly_off"@,
            FaultReason::OutputOnInPending => "output_on_in_pending"@,
        }
    }

    /// Stable identifier in snake case: what API consumers and dashboards match on.
    pub fn label(self) -> (name: &'static str)
        ensures
            name@ == self.label_text(),
    {
        match self {
            FaultReason::BatterySensorStale => "battery_sensor_stale",
            FaultReason::ModbusUnhealthy => "modbus_unhealthy",
            FaultReason::Overvoltage => "overvoltage",
            FaultReason::AbsorbTimeout => "absorb_timeout",
            FaultReason::ChargeTimeout => "charge_timeout",
            FaultReason::ChargeOvercurrent => "charge_overcurrent",
            FaultReason::ProtectionFlapping => "protection_flapping",
            FaultReason::PackTooCold => "pack_too_cold",
            FaultReason::PackTooHot => "pack_too_hot",
            FaultReason::PackTempStale => "pack_temp_stale",
            FaultReason::SettingsDrift => "settings_drift",
            FaultReason::OutputUnexpectedlyOff(_) => "output_unexpectedly_off",
            FaultReason::OutputOnInPending => "output_on_in_pending",
        }
    }

    /// The text of `message`.
    pub open spec fn message_text(self) -> Seq<char> {
        match self {
            FaultReason::BatterySensorStale => "battery sensor stale"@,
            FaultReason::ModbusUnhealthy => "modbus link unhealthy"@,
            FaultReason::Overvoltage => "pack overvoltage"@,
            FaultReason::AbsorbTimeout => "absorb time cap reached"@,
            FaultReason::ChargeTimeout => "total charge time cap reached"@,
            FaultReason::ChargeOvercurrent => "charge current over the pack rate"@,
            FaultReason::ProtectionFlapping => "buck protection flapping"@,
            FaultReason::PackTooCold => "pack too cold to charge"@,
            FaultReason::PackTooHot => "pack too hot to charge"@,
            FaultReason::PackTempStale => "pack temperature sensor stale"@,
            FaultReason::SettingsDrift => "setpoint readback drift"@,
            FaultReason::OutputUnexpectedlyOff(s) => "buck self-disabled ("@ + s.name_text() + ")"@,
            FaultReason::OutputOnInPending => "buck output on while supervisor pending"@,
        }
    }

    /// The human-readable form, for logs.
    pub fn message(self) -> (text: String)
        ensures
            text@ == self.message_text(),
    {
        match self {
            FaultReason::BatterySensorStale => "battery sensor stale".to_owned(),
            FaultReason::ModbusUnhealthy => "modbus link unhealthy".to_owned(),
            FaultReason::Overvoltage => "pack overvoltage".to_owned(),
            FaultReason::AbsorbTimeout => "absorb time cap reached".to_owned(),
            FaultReason::ChargeTimeout => "total charge time cap reached".to_owned(),
            FaultReason::ChargeOvercurrent => "charge current over the pack rate".to_owned(),
            FaultReason::ProtectionFlapping => "buck protection flapping".to_owned(),
            FaultReason::PackTooCold => "pack too cold to charge".to_owned(),
            FaultReason::PackTooHot => "pack too hot to charge".to_owned(),
            FaultReason::PackTempStale => "pack temperature sensor stale".to_owned(),
            FaultReason::SettingsDrift => "setpoint readback drift".to_owned(),
            FaultReason::OutputUnexpectedlyOff(s) => {
                let mut text = "buck self-disabled (".to_owned();
                text.append(s.name());
                text.append(")");
                text
            }
            FaultReason::OutputOnInPending => "buck output on while supervisor pending".to_owned(),
        }
    }
}

} // verus!
