//! What the poll loop should do this tick, and the tickets that authorise
//! committing each one.

use crate::charging::fault_reason::FaultReason;
use crate::charging::phase::Phase;
use crate::float::F32;
use vstd::prelude::*;

verus! {

/// Proof that this tick asked for output-on, and the only key that opens
/// `commit_enable`. Neither `Copy` nor `Clone`, and its field is private, so a
/// caller cannot commit an enable it was never handed, commit one twice, or make
/// up the answer inside.
#[derive(Debug)]
pub struct EnableTicket {
    resume_absorb: bool,
}

impl EnableTicket {
    /// Regulation is to start with a step up to absorb.
    pub closed spec fn resumes(&self) -> bool {
        self.resume_absorb
    }

    pub(crate) fn mint(resume_absorb: bool) -> (t: EnableTicket)
        ensures
            t.resumes() == resume_absorb,
    {
        EnableTicket { resume_absorb }
    }

    /// Whether the first regulating tick steps the setpoint straight to absorb
    /// (the pack rested below the plateau, so it is not full).
    pub fn resume_absorb(&self) -> (b: bool)
        ensures
            b == self.resumes(),
    {
        self.resume_absorb
    }
}

/// Proof that this tick asked for a voltage change, and the key to
/// `commit_voltage`.
#[derive(Debug)]
pub struct VoltageTicket {
    phase: Phase,
    target_v: F32,
    cycle_output: bool,
}

impl VoltageTicket {
    /// Phase this write moves into once committed.
    pub closed spec fn to_phase(&self) -> Phase {
        self.phase
    }

    /// The voltage to write.
    pub closed spec fn target(&self) -> F32 {
        self.target_v
    }

    /// The target is below the live setpoint, so the output has to be off while
    /// it is written.
    pub closed spec fn cycles(&self) -> bool {
        self.cycle_output
    }

    pub(crate) fn mint(phase: Phase, target_v: F32, cycle_output: bool) -> (t: VoltageTicket)
        ensures
            t.to_phase() == phase,
            t.target() == target_v,
            t.cycles() == cycle_output,
    {
        VoltageTicket { phase, target_v, cycle_output }
    }

    /// Phase this write moves into once committed.
    pub fn phase(&self) -> (p: Phase)
        ensures
            p == self.to_phase(),
    {
        self.phase
    }

    /// The voltage to write.
    pub fn target_v(&self) -> (v: F32)
        ensures
            v == self.target(),
    {
        self.target_v
    }

    /// Whether the output has to be off while the voltage is written. Stepping
    /// the setpoint down with the output on would drive reverse current through
    /// the buck; a step up is safe to do live.
    pub fn cycle_output(&self) -> (b: bool)
        ensures
            b == self.cycles(),
    {
        self.cycle_output
    }
}

/// Proof that this tick latched a fault, and the key to `commit_disable`.
#[derive(Debug)]
pub struct DisableTicket {
    reason: FaultReason,
}

impl DisableTicket {
    /// The latched fault.
    pub closed spec fn fault(&self) -> FaultReason {
        self.reason
    }

    pub(crate) fn mint(reason: FaultReason) -> (t: DisableTicket)
        ensures
            t.fault() == reason,
    {
        DisableTicket { reason }
    }

    /// The latched fault.
    pub fn reason(&self) -> (r: FaultReason)
        ensures
            r == self.fault(),
    {
        self.reason
    }
}

/// What the poll loop should do this tick.
///
/// Every variant but `Idle` carries a ticket. Perform the write, then commit the
/// ticket only if the write succeeded: dropping it is how a failed write becomes a
/// retry on the next tick.
#[derive(Debug)]
pub enum Action {
    /// Nothing to do.
    Idle,
    /// Switch the output on, then `commit_enable`.
    EnableOutput(EnableTicket),
    /// Hand the ticket to `apply_update_voltage`, then `commit_voltage` if it
    /// reports `Committed`.
    UpdateVoltage(VoltageTicket),
    /// Switch the output off, then `commit_disable`.
    DisableOutput(DisableTicket),
}

/// An action and what its ticket says.
pub ghost enum Request {
    Nothing,
    Enable { resume_absorb: bool },
    Update { phase: Phase, target_v: F32, cycle_output: bool },
    Disable { reason: FaultReason },
}

impl Action {
    /// What the action asks for.
    pub open spec fn view(&self) -> Request {
        match self {
            Action::Idle => Request::Nothing,
            Action::EnableOutput(t) => Request::Enable { resume_absorb: t.resumes() },
            Action::UpdateVoltage(t) => Request::Update {
                phase: t.to_phase(),
                target_v: t.target(),
                cycle_output: t.cycles(),
            },
            Action::DisableOutput(t) => Request::Disable { reason: t.fault() },
        }
    }
}

} // verus!
