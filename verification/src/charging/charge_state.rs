//! The supervisor's states as one flat machine: every state it can occupy, every
//! event that moves it, and the table that says where each pair lands.

use crate::charging::phase::Phase;
use crate::error_log::ChargeTransition;
use vstd::prelude::*;

verus! {

/// Every state the charge supervisor can occupy. Flat and without payload: whether
/// the buck is meant to be sourcing and which target the device holds are
/// functions of the state alone.
#[derive(Copy, Clone, Debug, PartialEq, Eq, Structural)]
pub enum ChargeState {
    /// Cold start: output off, device at the float target. A buck reporting on is
    /// an anomaly.
    Boot,
    /// The buck disabled itself out of `Float` on a cause that clears by itself.
    HoldFloat,
    /// As `HoldFloat`, out of `Absorb`: the device is still at the absorb target.
    HoldAbsorb,
    /// As `HoldFloat`, out of `Parked`, and resuming to it.
    HoldParked,
    /// Sourcing at the float target.
    Float,
    /// Sourcing at the absorb target.
    Absorb,
    /// Sourcing at the float target, a step up to absorb outstanding.
    ToAbsorb,
    /// Sourcing at the absorb target, a step down to float outstanding.
    ToFloat,
    /// As `ToFloat`, because a fault said to stop charging.
    ToParked,
    /// Sourcing at the float target with a fault latched and the phase machine
    /// frozen: charging has stopped, the load is still fed.
    Parked,
    /// A fault latched, and the disable is not yet confirmed.
    Tripping,
    /// The disable landed. Final until a reboot.
    Latched,
}

/// What one tick concluded. At most one is produced per tick.
#[derive(Copy, Clone, Debug, PartialEq, Eq, Structural)]
pub enum ChargeEvent {
    /// A fault whose answer is to stop sourcing.
    Fault,
    /// A fault whose answer is to stop charging and keep the load fed.
    Park,
    /// The buck disabled itself on a self-clearing cause while sourcing.
    SelfDisabled,
    /// The output came back on unasked.
    SelfEnabled,
    /// The output was switched on, with a full pack.
    Enabled,
    /// The output was switched on, with a pack that is not full.
    EnabledBelowFull,
    /// Charging current rose past `enter_absorb_a`.
    TaperRose,
    /// Charging current held under `exit_absorb_a` for `EXIT_DEBOUNCE`.
    TaperFell,
    /// The outstanding voltage write landed.
    VoltageWritten,
    /// The output was switched off after a latch.
    Disabled,
}

/// How many states there are.
pub const STATE_COUNT: usize = 12;

/// How many events there are.
pub const EVENT_COUNT: usize = 10;

impl ChargeEvent {
    /// Every event, in order.
    pub open spec fn each() -> Seq<ChargeEvent> {
        seq![
            ChargeEvent::Fault,
            ChargeEvent::Park,
            ChargeEvent::SelfDisabled,
            ChargeEvent::SelfEnabled,
            ChargeEvent::Enabled,
            ChargeEvent::EnabledBelowFull,
            ChargeEvent::TaperRose,
            ChargeEvent::TaperFell,
            ChargeEvent::VoltageWritten,
            ChargeEvent::Disabled,
        ]
    }

    /// Every event, in order.
    pub fn all() -> (v: Vec<ChargeEvent>)
        ensures
            v@ == ChargeEvent::each(),
    {
        let v = vec![
            ChargeEvent::Fault,
            ChargeEvent::Park,
            ChargeEvent::SelfDisabled,
            ChargeEvent::SelfEnabled,
            ChargeEvent::Enabled,
            ChargeEvent::EnabledBelowFull,
            ChargeEvent::TaperRose,
            ChargeEvent::TaperFell,
            ChargeEvent::VoltageWritten,
            ChargeEvent::Disabled,
        ];
        assert(v@ =~= ChargeEvent::each());
        v
    }
}

impl ChargeState {
    /// Every state, in order.
    pub open spec fn each() -> Seq<ChargeState> {
        seq![
            ChargeState::Boot,
            ChargeState::HoldFloat,
            ChargeState::HoldAbsorb,
            ChargeState::HoldParked,
            ChargeState::Float,
            ChargeState::Absorb,
            ChargeState::ToAbsorb,
            ChargeState::ToFloat,
            ChargeState::ToParked,
            ChargeState::Parked,
            ChargeState::Tripping,
            ChargeState::Latched,
        ]
    }

    /// Every state, in order.
    pub fn all() -> (v: Vec<ChargeState>)
        ensures
            v@ == ChargeState::each(),
    {
        let v = vec![
            ChargeState::Boot,
            ChargeState::HoldFloat,
            ChargeState::HoldAbsorb,
            ChargeState::HoldParked,
            ChargeState::Float,
            ChargeState::Absorb,
            ChargeState::ToAbsorb,
            ChargeState::ToFloat,
            ChargeState::ToParked,
            ChargeState::Parked,
            ChargeState::Tripping,
            ChargeState::Latched,
        ];
        assert(v@ =~= ChargeState::each());
        v
    }

    /// Where `event` takes this state, or `None` where the pair cannot arise.
    ///
    /// A hold for the absorb target resumes at it on either enable event, since
    /// there is nothing to write. An outstanding write falls back to the hold for
    /// the target the device still holds. A latched buck that comes back on is
    /// disabled again. Parking goes straight to `Parked` from the float target and
    /// through a step down from the absorb target.
    pub open spec fn after(self, event: ChargeEvent) -> Option<ChargeState> {
        match self {
            ChargeState::Boot => match event {
                ChargeEvent::Fault => Some(ChargeState::Tripping),
                ChargeEvent::Enabled => Some(ChargeState::Float),
                ChargeEvent::EnabledBelowFull => Some(ChargeState::ToAbsorb),
                _ => None,
            },
            ChargeState::HoldFloat => match event {
                ChargeEvent::Fault => Some(ChargeState::Tripping),
                ChargeEvent::SelfEnabled => Some(ChargeState::Float),
                ChargeEvent::Enabled => Some(ChargeState::Float),
                ChargeEvent::EnabledBelowFull => Some(ChargeState::ToAbsorb),
                _ => None,
            },
            ChargeState::HoldAbsorb => match event {
                ChargeEvent::Fault => Some(ChargeState::Tripping),
                ChargeEvent::SelfEnabled => Some(ChargeState::Absorb),
                ChargeEvent::Enabled => Some(ChargeState::Absorb),
                ChargeEvent::EnabledBelowFull => Some(ChargeState::Absorb),
                _ => None,
            },
            ChargeState::HoldParked => match event {
                ChargeEvent::Fault => Some(ChargeState::Tripping),
                ChargeEvent::SelfEnabled => Some(ChargeState::Parked),
                ChargeEvent::Enabled => Some(ChargeState::Parked),
                ChargeEvent::EnabledBelowFull => Some(ChargeState::Parked),
                _ => None,
            },
            ChargeState::Float => match event {
                ChargeEvent::Fault => Some(ChargeState::Tripping),
                ChargeEvent::Park => Some(ChargeState::Parked),
                ChargeEvent::SelfDisabled => Some(ChargeState::HoldFloat),
                ChargeEvent::TaperRose => Some(ChargeState::ToAbsorb),
                _ => None,
            },
            ChargeState::Absorb => match event {
                ChargeEvent::Fault => Some(ChargeState::Tripping),
                ChargeEvent::Park => Some(ChargeState::ToParked),
                ChargeEvent::SelfDisabled => Some(ChargeState::HoldAbsorb),
                ChargeEvent::TaperFell => Some(ChargeState::ToFloat),
                _ => None,
            },
            ChargeState::ToAbsorb => match event {
                ChargeEvent::Fault => Some(ChargeState::Tripping),
                ChargeEvent::Park => Some(ChargeState::Parked),
                ChargeEvent::SelfDisabled => Some(ChargeState::HoldFloat),
                ChargeEvent::VoltageWritten => Some(ChargeState::Absorb),
                _ => None,
            },
            ChargeState::ToFloat => match event {
                ChargeEvent::Fault => Some(ChargeState::Tripping),
                ChargeEvent::Park => Some(ChargeState::ToParked),
                ChargeEvent::SelfDisabled => Some(ChargeState::HoldAbsorb),
                ChargeEvent::VoltageWritten => Some(ChargeState::Float),
                _ => None,
            },
            ChargeState::ToParked => match event {
                ChargeEvent::Fault => Some(ChargeState::Tripping),
                ChargeEvent::VoltageWritten => Some(ChargeState::Parked),
                _ => None,
            },
            ChargeState::Parked => match event {
                ChargeEvent::Fault => Some(ChargeState::Tripping),
                ChargeEvent::SelfDisabled => Some(ChargeState::HoldParked),
                _ => None,
            },
            ChargeState::Tripping => match event {
                ChargeEvent::Disabled => Some(ChargeState::Latched),
                _ => None,
            },
            ChargeState::Latched => match event {
                ChargeEvent::SelfEnabled => Some(ChargeState::Tripping),
                _ => None,
            },
        }
    }

    /// Where `event` takes this state, or `None` where the pair cannot arise.
    pub fn next(self, event: ChargeEvent) -> (to: Option<ChargeState>)
        ensures
            to == self.after(event),
    {
        match self {
            ChargeState::Boot => match event {
                ChargeEvent::Fault => Some(ChargeState::Tripping),
                ChargeEvent::Enabled => Some(ChargeState::Float),
                ChargeEvent::EnabledBelowFull => Some(ChargeState::ToAbsorb),
                _ => None,
            },
            ChargeState::HoldFloat => match event {
                ChargeEvent::Fault => Some(ChargeState::Tripping),
                ChargeEvent::SelfEnabled => Some(ChargeState::Float),
                ChargeEvent::Enabled => Some(ChargeState::Float),
                ChargeEvent::EnabledBelowFull => Some(ChargeState::ToAbsorb),
                _ => None,
            },
            ChargeState::HoldAbsorb => match event {
                ChargeEvent::Fault => Some(ChargeState::Tripping),
                ChargeEvent::SelfEnabled => Some(ChargeState::Absorb),
                ChargeEvent::Enabled => Some(ChargeState::Absorb),
                ChargeEvent::EnabledBelowFull => Some(ChargeState::Absorb),
                _ => None,
            },
            ChargeState::HoldParked => match event {
                ChargeEvent::Fault => Some(ChargeState::Tripping),
                ChargeEvent::SelfEnabled => Some(ChargeState::Parked),
                ChargeEvent::Enabled => Some(ChargeState::Parked),
                ChargeEvent::EnabledBelowFull => Some(ChargeState::Parked),
                _ => None,
            },
            ChargeState::Float => match event {
                ChargeEvent::Fault => Some(ChargeState::Tripping),
                ChargeEvent::Park => Some(ChargeState::Parked),
                ChargeEvent::SelfDisabled => Some(ChargeState::HoldFloat),
                ChargeEvent::TaperRose => Some(ChargeState::ToAbsorb),
                _ => None,
            },
            ChargeState::Absorb => match event {
                ChargeEvent::Fault => Some(ChargeState::Tripping),
                ChargeEvent::Park => Some(ChargeState::ToParked),
                ChargeEvent::SelfDisabled => Some(ChargeState::HoldAbsorb),
                ChargeEvent::TaperFell => Some(ChargeState::ToFloat),
                _ => None,
            },
            ChargeState::ToAbsorb => match event {
                ChargeEvent::Fault => Some(ChargeState::Tripping),
                ChargeEvent::Park => Some(ChargeState::Parked),
                ChargeEvent::SelfDisabled => Some(ChargeState::HoldFloat),
                ChargeEvent::VoltageWritten => Some(ChargeState::Absorb),
                _ => None,
            },
            ChargeState::ToFloat => match event {
                ChargeEvent::Fault => Some(ChargeState::Tripping),
                ChargeEvent::Park => Some(ChargeState::ToParked),
                ChargeEvent::SelfDisabled => Some(ChargeState::HoldAbsorb),
                ChargeEvent::VoltageWritten => Some(ChargeState::Float),
                _ => None,
            },
            ChargeState::ToParked => match event {
                ChargeEvent::Fault => Some(ChargeState::Tripping),
                ChargeEvent::VoltageWritten => Some(ChargeState::Parked),
                _ => None,
            },
            ChargeState::Parked => match event {
                ChargeEvent::Fault => Some(ChargeState::Tripping),
                ChargeEvent::SelfDisabled => Some(ChargeState::HoldParked),
                _ => None,
            },
            ChargeState::Tripping => match event {
                ChargeEvent::Disabled => Some(ChargeState::Latched),
                _ => None,
            },
            ChargeState::Latched => match event {
                ChargeEvent::SelfEnabled => Some(ChargeState::Tripping),
                _ => None,
            },
        }
    }

    /// The buck is meant to be sourcing.
    pub open spec fn is_sourcing(self) -> bool {
        match self {
            ChargeState::Float
            | ChargeState::Absorb
            | ChargeState::ToAbsorb
            | ChargeState::ToFloat
            | ChargeState::ToParked
            | ChargeState::Parked => true,
            _ => false,
        }
    }

    /// The buck is meant to be sourcing.
    pub fn sourcing(self) -> (b: bool)
        ensures
            b == self.is_sourcing(),
    {
        match self {
            ChargeState::Float
            | ChargeState::Absorb
            | ChargeState::ToAbsorb
            | ChargeState::ToFloat
            | ChargeState::ToParked
            | ChargeState::Parked => true,
            _ => false,
        }
    }

    /// Output is off and the supervisor is deciding whether to bring it up.
    pub open spec fn is_bringing_up(self) -> bool {
        match self {
            ChargeState::Boot
            | ChargeState::HoldFloat
            | ChargeState::HoldAbsorb
            | ChargeState::HoldParked => true,
            _ => false,
        }
    }

    /// Output is off and the supervisor is deciding whether to bring it up.
    pub fn bringing_up(self) -> (b: bool)
        ensures
            b == self.is_bringing_up(),
    {
        match self {
            ChargeState::Boot
            | ChargeState::HoldFloat
            | ChargeState::HoldAbsorb
            | ChargeState::HoldParked => true,
            _ => false,
        }
    }

    /// Parked on a fault, or on the way there: the load is fed, charging has stopped.
    pub open spec fn is_parked(self) -> bool {
        match self {
            ChargeState::ToParked
            | ChargeState::Parked => true,
            _ => false,
        }
    }

    /// Parked on a fault, or on the way there: the load is fed, charging has stopped.
    pub fn parked(self) -> (b: bool)
        ensures
            b == self.is_parked(),
    {
        match self {
            ChargeState::ToParked
            | ChargeState::Parked => true,
            _ => false,
        }
    }

    /// Waiting out a self-clearing protection.
    pub open spec fn is_holding(self) -> bool {
        match self {
            ChargeState::HoldFloat
            | ChargeState::HoldAbsorb
            | ChargeState::HoldParked => true,
            _ => false,
        }
    }

    /// Waiting out a self-clearing protection.
    pub fn holding(self) -> (b: bool)
        ensures
            b == self.is_holding(),
    {
        match self {
            ChargeState::HoldFloat
            | ChargeState::HoldAbsorb
            | ChargeState::HoldParked => true,
            _ => false,
        }
    }

    /// Which target the device holds; `None` once a fault has latched.
    pub open spec fn held_phase(self) -> Option<Phase> {
        match self {
            ChargeState::Boot
            | ChargeState::HoldFloat
            | ChargeState::HoldParked
            | ChargeState::Float
            | ChargeState::ToAbsorb
            | ChargeState::Parked => Some(Phase::Float),
            ChargeState::HoldAbsorb
            | ChargeState::Absorb
            | ChargeState::ToFloat
            | ChargeState::ToParked => Some(Phase::Absorb),
            ChargeState::Tripping | ChargeState::Latched => None,
        }
    }

    /// Which target the device holds; `None` once a fault has latched. A write
    /// that is outstanding has not moved it yet.
    pub fn setpoint_phase(self) -> (p: Option<Phase>)
        ensures
            p == self.held_phase(),
    {
        match self {
            ChargeState::Boot
            | ChargeState::HoldFloat
            | ChargeState::HoldParked
            | ChargeState::Float
            | ChargeState::ToAbsorb
            | ChargeState::Parked => Some(Phase::Float),
            ChargeState::HoldAbsorb
            | ChargeState::Absorb
            | ChargeState::ToFloat
            | ChargeState::ToParked => Some(Phase::Absorb),
            ChargeState::Tripping | ChargeState::Latched => None,
        }
    }

    /// The phase to show: `Some` only while the buck regulates to it.
    pub open spec fn shown_phase(self) -> Option<Phase> {
        if self.is_sourcing() {
            self.held_phase()
        } else {
            None
        }
    }

    /// The phase to show: `Some` only while the buck regulates to it, so that no
    /// phase ever labels a dark output.
    pub fn regulating_phase(self) -> (p: Option<Phase>)
        ensures
            p == self.shown_phase(),
    {
        if self.sourcing() {
            self.setpoint_phase()
        } else {
            None
        }
    }

    /// The phase an outstanding write moves to.
    pub open spec fn target_phase(self) -> Option<Phase> {
        match self {
            ChargeState::ToAbsorb => Some(Phase::Absorb),
            ChargeState::ToFloat | ChargeState::ToParked => Some(Phase::Float),
            _ => None,
        }
    }

    /// The phase an outstanding write moves to, if one is outstanding.
    pub fn retarget_to(self) -> (p: Option<Phase>)
        ensures
            p == self.target_phase(),
    {
        match self {
            ChargeState::ToAbsorb => Some(Phase::Absorb),
            ChargeState::ToFloat | ChargeState::ToParked => Some(Phase::Float),
            _ => None,
        }
    }

    /// What moving to `next` means to the event log: coming up out of boot is
    /// energising, out of a hold the protection clearing, into a hold a
    /// protection, into `Tripping` a latch, into a park from outside one a park.
    pub open spec fn log_entry(self, next: ChargeState) -> Option<ChargeTransition> {
        if self == ChargeState::Boot && next.is_sourcing() {
            Some(ChargeTransition::Energised)
        } else if self.is_holding() && next.is_sourcing() {
            Some(ChargeTransition::ProtectCleared)
        } else if self.is_sourcing() && next.is_holding() {
            Some(ChargeTransition::ProtectHold)
        } else if next == ChargeState::Tripping {
            Some(ChargeTransition::Latched)
        } else if !self.is_parked() && next.is_parked() {
            Some(ChargeTransition::Parked)
        } else {
            None
        }
    }

    /// What moving to `next` means to the event log, or `None` for a move not
    /// worth an entry.
    pub fn logged_as(self, next: ChargeState) -> (t: Option<ChargeTransition>)
        ensures
            t == self.log_entry(next),
    {
        if self == ChargeState::Boot && next.sourcing() {
            Some(ChargeTransition::Energised)
        } else if self.holding() && next.sourcing() {
            Some(ChargeTransition::ProtectCleared)
        } else if self.sourcing() && next.holding() {
            Some(ChargeTransition::ProtectHold)
        } else if next == ChargeState::Tripping {
            Some(ChargeTransition::Latched)
        } else if !self.parked() && next.parked() {
            Some(ChargeTransition::Parked)
        } else {
            None
        }
    }
}

/// `Tripping` and `Latched`.
pub open spec fn is_latched(s: ChargeState) -> bool {
    s == ChargeState::Tripping || s == ChargeState::Latched
}

/// Every state is sourcing, bringing up or latched, and only one of these. It
/// holds a target exactly while it is not latched, shows a phase exactly while it
/// is sourcing, and an outstanding write moves away from the target held.
pub proof fn groups_partition_the_states(s: ChargeState)
    ensures
        s.is_sourcing() || s.is_bringing_up() || is_latched(s),
        !(s.is_sourcing() && s.is_bringing_up()),
        !(s.is_sourcing() && is_latched(s)),
        !(s.is_bringing_up() && is_latched(s)),
        s.is_holding() <==> s.is_bringing_up() && s != ChargeState::Boot,
        s.held_phase() is Some <==> !is_latched(s),
        s.shown_phase() is Some <==> s.is_sourcing(),
        s.is_parked() ==> s.is_sourcing(),
        s.target_phase() is Some ==> s.is_sourcing() && s.target_phase() != s.held_phase(),
{
}

/// Nothing that has latched ever sources again.
pub proof fn latched_states_stay_off(s: ChargeState, e: ChargeEvent)
    requires
        is_latched(s),
        s.after(e) is Some,
    ensures
        is_latched(s.after(e)->0),
{
}

/// Every event leads where its meaning says, and no state leads to itself. The
/// target held changes only when a write lands.
pub proof fn transitions_are_coherent(s: ChargeState, e: ChargeEvent)
    requires
        s.after(e) is Some,
    ensures
        s.after(e)->0 != s,
        e == ChargeEvent::Fault ==> s.after(e)->0 == ChargeState::Tripping && (s.is_sourcing()
            || s.is_bringing_up()),
        e == ChargeEvent::Park ==> s.is_sourcing() && !s.is_parked() && (s.after(e)->0).is_parked(),
        e == ChargeEvent::SelfDisabled ==> s.is_sourcing() && (s.after(e)->0).is_holding(),
        e == ChargeEvent::SelfEnabled ==> (if s.is_holding() {
            (s.after(e)->0).is_sourcing()
        } else {
            s == ChargeState::Latched && s.after(e)->0 == ChargeState::Tripping
        }),
        e == ChargeEvent::Enabled || e == ChargeEvent::EnabledBelowFull ==> s.is_bringing_up() && (
        s.after(e)->0).is_sourcing(),
        e == ChargeEvent::TaperRose || e == ChargeEvent::TaperFell ==> (
        s.after(e)->0).target_phase() is Some,
        e == ChargeEvent::VoltageWritten ==> s.target_phase() is Some && (
        s.after(e)->0).is_sourcing() && (s.after(e)->0).target_phase() is None && (
        s.after(e)->0).held_phase() == s.target_phase(),
        e == ChargeEvent::Disabled ==> s == ChargeState::Tripping && s.after(e)->0
            == ChargeState::Latched,
        (e != ChargeEvent::Fault && e != ChargeEvent::VoltageWritten) ==> (
        s.after(e)->0).held_phase() == s.held_phase(),
{
}

/// The state after a run of events; `None` once a pair that cannot arise came up.
pub open spec fn run(s: ChargeState, events: Seq<ChargeEvent>) -> Option<ChargeState>
    decreases events.len(),
{
    if events.len() == 0 {
        Some(s)
    } else {
        match run(s, events.drop_last()) {
            Some(t) => t.after(events.last()),
            None => None,
        }
    }
}

/// From a latched state no run of events brings the output back.
pub proof fn latch_survives_every_run(s: ChargeState, events: Seq<ChargeEvent>)
    requires
        is_latched(s),
        run(s, events) is Some,
    ensures
        is_latched(run(s, events)->0),
    decreases events.len(),
{
    if events.len() > 0 {
        latch_survives_every_run(s, events.drop_last());
    }
}

/// Out of a park, charging never starts again: whatever happens, the machine is
/// parked, waiting to park, or latched.
pub proof fn park_survives_every_run(s: ChargeState, events: Seq<ChargeEvent>)
    requires
        s.is_parked() || s == ChargeState::HoldParked,
        run(s, events) is Some,
    ensures
        (run(s, events)->0).is_parked() || run(s, events)->0 == ChargeState::HoldParked
            || is_latched(run(s, events)->0),
    decreases events.len(),
{
    if events.len() > 0 {
        park_survives_every_run(s, events.drop_last());
    }
}

/// Every state can be reached from boot.
pub proof fn every_state_is_reachable(s: ChargeState) -> (events: Seq<ChargeEvent>)
    ensures
        run(ChargeState::Boot, events) == Some(s),
{
    let path: Seq<ChargeEvent> = match s {
        ChargeState::Boot => seq![],
        ChargeState::Float => seq![ChargeEvent::Enabled],
        ChargeState::ToAbsorb => seq![ChargeEvent::EnabledBelowFull],
        ChargeState::Absorb => seq![ChargeEvent::EnabledBelowFull, ChargeEvent::VoltageWritten],
        ChargeState::ToFloat => seq![
            ChargeEvent::EnabledBelowFull,
            ChargeEvent::VoltageWritten,
            ChargeEvent::TaperFell,
        ],
        ChargeState::HoldFloat => seq![ChargeEvent::Enabled, ChargeEvent::SelfDisabled],
        ChargeState::HoldAbsorb => seq![
            ChargeEvent::EnabledBelowFull,
            ChargeEvent::VoltageWritten,
            ChargeEvent::SelfDisabled,
        ],
        ChargeState::Parked => seq![ChargeEvent::Enabled, ChargeEvent::Park],
        ChargeState::ToParked => seq![
            ChargeEvent::EnabledBelowFull,
            ChargeEvent::VoltageWritten,
            ChargeEvent::Park,
        ],
        ChargeState::HoldParked => seq![
            ChargeEvent::Enabled,
            ChargeEvent::Park,
            ChargeEvent::SelfDisabled,
        ],
        ChargeState::Tripping => seq![ChargeEvent::Fault],
        ChargeState::Latched => seq![ChargeEvent::Fault, ChargeEvent::Disabled],
    };
    reveal_with_fuel(run, 4);
    assert(path.len() > 0 ==> path.drop_last().len() == path.len() - 1);
    assert(path.len() > 1 ==> path.drop_last().last() == path[path.len() - 2]);
    assert(path.len() > 2 ==> path.drop_last().drop_last().last() == path[path.len() - 3]);
    path
}

/// Every state and every event is listed once, in order.
pub proof fn listings_are_complete(s: ChargeState, e: ChargeEvent)
    ensures
        ChargeState::each().len() == STATE_COUNT,
        ChargeEvent::each().len() == EVENT_COUNT,
        ChargeState::each().contains(s),
        ChargeEvent::each().contains(e),
        ChargeState::each().no_duplicates(),
        ChargeEvent::each().no_duplicates(),
{
    assert(ChargeState::each()[0] == ChargeState::Boot);
    assert(ChargeState::each()[1] == ChargeState::HoldFloat);
    assert(ChargeState::each()[2] == ChargeState::HoldAbsorb);
    assert(ChargeState::each()[3] == ChargeState::HoldParked);
    assert(ChargeState::each()[4] == ChargeState::Float);
    assert(ChargeState::each()[5] == ChargeState::Absorb);
    assert(ChargeState::each()[6] == ChargeState::ToAbsorb);
    assert(ChargeState::each()[7] == ChargeState::ToFloat);
    assert(ChargeState::each()[8] == ChargeState::ToParked);
    assert(ChargeState::each()[9] == ChargeState::Parked);
    assert(ChargeState::each()[10] == ChargeState::Tripping);
    assert(ChargeState::each()[11] == ChargeState::Latched);
    assert(ChargeEvent::each()[0] == ChargeEvent::Fault);
    assert(ChargeEvent::each()[1] == ChargeEvent::Park);
    assert(ChargeEvent::each()[2] == ChargeEvent::SelfDisabled);
    assert(ChargeEvent::each()[3] == ChargeEvent::SelfEnabled);
    assert(ChargeEvent::each()[4] == ChargeEvent::Enabled);
    assert(ChargeEvent::each()[5] == ChargeEvent::EnabledBelowFull);
    assert(ChargeEvent::each()[6] == ChargeEvent::TaperRose);
    assert(ChargeEvent::each()[7] == ChargeEvent::TaperFell);
    assert(ChargeEvent::each()[8] == ChargeEvent::VoltageWritten);
    assert(ChargeEvent::each()[9] == ChargeEvent::Disabled);
}

} // verus!
