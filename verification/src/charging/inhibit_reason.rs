//! Why the supervisor is holding the buck off without latching.

use crate::device::ProtectionStatus;
use vstd::prelude::*;
use vstd::string::StringExecFns;

verus! {

/// Why the supervisor declines to energise the buck this tick, with nothing
/// latched. Every reason clears by itself: the supervisor checks again each tick
/// and brings the buck up as soon as the condition lifts.
#[derive(Copy, Clone, Debug, PartialEq, Eq, Structural)]
pub enum InhibitReason {
    /// Setpoint readback disagrees with what was commanded. Regulating on unknown
    /// setpoints would latch; refusing to start on them only waits.
    SettingsDrift,
    /// Reads have failed past `MODBUS_UNHEALTHY_TIMEOUT`, or no setpoint readback
    /// has landed this tick.
    ModbusUnhealthy,
    /// No fresh battery sample for `BATTERY_MISSING_TIMEOUT`.
    BatterySensorStale,
    /// A sample is simply absent this tick, not yet for long enough to be stale.
    NoBatterySample,
    /// The pack sits above `absorb_v + OV_MARGIN_V`. One sample over the line is
    /// enough to refuse bring-up.
    Overvoltage,
    /// The pack is below `CHARGE_TEMP_MIN_C`.
    PackTooCold,
    /// The pack is above `CHARGE_TEMP_MAX_C`.
    PackTooHot,
    /// A fitted pack-temperature sensor has not read for
    /// `PACK_TEMP_STALE_TIMEOUT`.
    PackTempStale,
    /// The buck holds itself off on a self-clearing cause. Enabling it would
    /// succeed on the bus and change nothing, so wait for the cause instead.
    BuckProtection(ProtectionStatus),
}

impl InhibitReason {
    /// The text of `label`.
    pub open spec fn label_text(self) -> Seq<char> {
        match self {
            InhibitReason::SettingsDrift => "settings_drift"@,
            InhibitReason::ModbusUnhealthy => "modbus_unhealthy"@,
            InhibitReason::BatterySensorStale => "battery_sensor_stale"@,
            InhibitReason::NoBatterySample => "no_battery_sample"@,
            InhibitReason::Overvoltage => "overvoltage"@,
            InhibitReason::PackTooCold => "pack_too_cold"@,
            InhibitReason::PackTooHot => "pack_too_hot"@,
            InhibitReason::PackTempStale => "pack_temp_stale"@,
            InhibitReason::BuckProtection(_) => "buck_protection"@,
        }
    }

    /// Stable identifier in snake case: what API consumers and dashboards match on.
    pub fn label(self) -> (name: &'static str)
        ensures
            name@ == self.label_text(),
    {
        match self {
            InhibitReason::SettingsDrift => "settings_drift",
            InhibitReason::ModbusUnhealthy => "modbus_unhealthy",
            InhibitReason::BatterySensorStale => "battery_sensor_stale",
            InhibitReason::NoBatterySample => "no_battery_sample",
            InhibitReason::Overvoltage => "overvoltage",
            InhibitReason::PackTooCold => "pack_too_cold",
            InhibitReason::PackTooHot => "pack_too_hot",
            InhibitReason::PackTempStale => "pack_temp_stale",
            InhibitReason::BuckProtection(_) => "buck_protection",
        }
    }

    /// The text of `message`.
    pub open spec fn message_text(self) -> Seq<char> {
        match self {
            InhibitReason::SettingsDrift => "waiting: setpoint readback drift"@,
            InhibitReason::ModbusUnhealthy => "waiting: modbus link unhealthy"@,
            InhibitReason::BatterySensorStale => "waiting: battery sensor stale"@,
            InhibitReason::NoBatterySample => "waiting: no battery sample"@,
            InhibitReason::Overvoltage => "waiting: pack overvoltage"@,
            InhibitReason::PackTooCold => "waiting: pack too cold to charge"@,
            InhibitReason::PackTooHot => "waiting: pack too hot to charge"@,
            InhibitReason::PackTempStale => "waiting: pack temperature sensor stale"@,
            InhibitReason::BuckProtection(s) => "waiting: buck protection ("@ + s.name_text() + ")"@,
        }
    }

    /// The human-readable form, for logs.
    pub fn message(self) -> (text: String)
        ensures
            text@ == self.message_text(),
    {
        match self {
            InhibitReason::SettingsDrift => "waiting: setpoint readback drift".to_owned(),
            InhibitReason::ModbusUnhealthy => "waiting: modbus link unhealthy".to_owned(),
            InhibitReason::BatterySensorStale => "waiting: battery sensor stale".to_owned(),
            InhibitReason::NoBatterySample => "waiting: no battery sample".to_owned(),
            InhibitReason::Overvoltage => "waiting: pack overvoltage".to_owned(),
            InhibitReason::PackTooCold => "waiting: pack too cold to charge".to_owned(),
            InhibitReason::PackTooHot => "waiting: pack too hot to charge".to_owned(),
            InhibitReason::PackTempStale => "waiting: pack temperature sensor stale".to_owned(),
            InhibitReason::BuckProtection(s) => {
                let mut text = "waiting: buck protection (".to_owned();
                text.append(s.name());
                text.append(")");
                text
            }
        }
    }
}

} // verus!
