//! Pure logic of a battery charger's firmware: charge supervision, sensor history,
//! the event log, and the small protocols around them. No I/O, no clock, no
//! hardware.
//!
//! Numbers with a fraction are [`float::F32`], binary32 bit patterns computed on
//! with verified integer arithmetic.

pub mod battery;
pub mod battery_laws;
pub mod charging;
pub mod data;
pub mod device;
pub mod dns_packet;
pub mod error;
pub mod error_log;
pub mod float;
pub mod form;
pub mod log_ring;
pub mod modbus;
pub mod soc_laws;
pub mod text;
pub mod time;
pub mod wire;

pub use crate::battery::Chemistry;
pub use crate::charging::action::{Action, DisableTicket, EnableTicket, VoltageTicket};
pub use crate::charging::charge_supervisor::ChargeSupervisor;
pub use crate::charging::fault_reason::FaultReason;
pub use crate::charging::inhibit_reason::InhibitReason;
pub use crate::charging::phase::Phase;
pub use crate::charging::poll_result::{BatterySample, BuckOutput, PollResult};
pub use crate::charging::profile::Profile;
pub use crate::charging::voltage_writer::{
    apply_update_voltage, VoltageWriteOutcome, VoltageWriter,
};
pub use crate::charging::INPUT_LVP_MARGIN_V;
pub use crate::data::{Ina228Reading, PsReading, Sample, SensorData};
pub use crate::device::{ProtectionStatus, SafetyLimits, Setpoints};
pub use crate::dns_packet::build_response;
pub use crate::error_log::{ChargeTransition, Event, EventLog, InaError, TimedEvent, XyError};
pub use crate::float::F32;
pub use crate::form::{parse_form, url_decode};
pub use crate::log_ring::Ring;
pub use crate::time::Duration;
