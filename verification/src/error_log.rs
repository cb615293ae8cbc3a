//! Structured event log for non-fatal sensor and buck failures.
//!
//! Recent entries in a ring of fixed capacity, plus lifetime counters per kind
//! that survive eviction from the ring. Pure data: producers pass an epoch
//! timestamp.

use crate::device::ProtectionStatus;
use heapless::Deque;
use vstd::prelude::*;

verus! {

/// Failures on the path to the current sensor.
#[derive(Copy, Clone, Debug, PartialEq, Eq, Structural)]
pub enum InaError {
    /// Probe or calibration at start-up failed.
    Init,
    BusVoltageRead,
    CurrentRead,
    PowerRead,
}

/// Failures on the path to the buck converter. The `Protect` kinds are its
/// latched protection causes, one each, so that a cause survives in the counts.
#[derive(Copy, Clone, Debug, PartialEq, Eq, Structural)]
pub enum XyError {
    ReadStatus,
    SetVoltage,
    SetOutput,
    BootSequence,
    ProtectOvp,
    ProtectOcp,
    ProtectOpp,
    ProtectLvp,
    ProtectOah,
    ProtectOhp,
    ProtectOtp,
    ProtectOep,
    ProtectOwh,
    ProtectIcp,
}

/// Transitions of the charge supervisor. Recorded on every change, so the log
/// shows the route into a state and not only the state.
#[derive(Copy, Clone, Debug, PartialEq, Eq, Structural)]
pub enum ChargeTransition {
    /// Bring-up committed: the buck is on and the phase machine starts.
    Energised,
    /// A regulating buck disabled itself on a self-clearing protection.
    ProtectHold,
    /// The protection cause cleared and the buck came back on.
    ProtectCleared,
    /// A fault latched. Only a reboot recovers from here.
    Latched,
    /// A fault stopped the charge but left the output up.
    Parked,
}

/// How many kinds the current sensor has.
pub const INA_KINDS: usize = 4;

/// How many kinds the buck has.
pub const XY_KINDS: usize = 14;

/// How many kinds the supervisor has.
pub const CHARGE_KINDS: usize = 5;

/// Width of the counter array: every source's block, end to end.
pub const TOTAL_KINDS: usize = 23;

/// Entries kept in the ring.
pub const CAPACITY: usize = 32;

/// One source's event kinds, as the log counts them: each source has a block of
/// the counter array, and each kind a place in its block.
pub trait EventKind: Copy {
    /// Where this source's block starts.
    spec fn offset() -> nat;

    /// Place within this source's block.
    spec fn position(self) -> nat;

    /// The text of `name`.
    spec fn name_text(self) -> Seq<char>;

    /// Every kind of this source, in the order of their places.
    spec fn kinds() -> Seq<Self>;

    /// Place within this source's block.
    fn index(self) -> (i: usize)
        ensures
            i == self.position(),
    ;

    /// Slot in the counter array.
    fn slot(self) -> (s: usize)
        ensures
            s == Self::offset() + self.position(),
            s < TOTAL_KINDS,
    ;

    /// The kind in snake case.
    fn name(self) -> (name: &'static str)
        ensures
            name@ == self.name_text(),
    ;

    /// Every kind of this source.
    fn all() -> (v: Vec<Self>)
        ensures
            v@ == Self::kinds(),
    ;
}

impl EventKind for InaError {
    open spec fn offset() -> nat {
        0
    }

    open spec fn position(self) -> nat {
        match self {
            InaError::Init => 0,
            InaError::BusVoltageRead => 1,
            InaError::CurrentRead => 2,
            InaError::PowerRead => 3,
        }
    }

    open spec fn name_text(self) -> Seq<char> {
        match self {
            InaError::Init => "init"@,
            InaError::BusVoltageRead => "bus_voltage_read"@,
            InaError::CurrentRead => "current_read"@,
            InaError::PowerRead => "power_read"@,
        }
    }

    open spec fn kinds() -> Seq<InaError> {
        seq![
            InaError::Init,
            InaError::BusVoltageRead,
            InaError::CurrentRead,
            InaError::PowerRead,
        ]
    }

    fn index(self) -> (i: usize) {
        match self {
            InaError::Init => 0,
            InaError::BusVoltageRead => 1,
            InaError::CurrentRead => 2,
            InaError::PowerRead => 3,
        }
    }

    fn slot(self) -> (s: usize) {
        self.index()
    }

    fn name(self) -> (name: &'static str) {
        match self {
            InaError::Init => "init",
            InaError::BusVoltageRead => "bus_voltage_read",
            InaError::CurrentRead => "current_read",
            InaError::PowerRead => "power_read",
        }
    }

    fn all() -> (v: Vec<InaError>) {
        let v = vec![
            InaError::Init,
            InaError::BusVoltageRead,
            InaError::CurrentRead,
            InaError::PowerRead,
        ];
        assert(v@ =~= Self::kinds());
        v
    }
}

impl EventKind for XyError {
    open spec fn offset() -> nat {
        INA_KINDS as nat
    }

    open spec fn position(self) -> nat {
        match self {
            XyError::ReadStatus => 0,
            XyError::SetVoltage => 1,
            XyError::SetOutput => 2,
            XyError::BootSequence => 3,
            XyError::ProtectOvp => 4,
            XyError::ProtectOcp => 5,
            XyError::ProtectOpp => 6,
            XyError::ProtectLvp => 7,
            XyError::ProtectOah => 8,
            XyError::ProtectOhp => 9,
            XyError::ProtectOtp => 10,
            XyError::ProtectOep => 11,
            XyError::ProtectOwh => 12,
            XyError::ProtectIcp => 13,
        }
    }

    open spec fn name_text(self) -> Seq<char> {
        match self {
            XyError::ReadStatus => "read_status"@,
            XyError::SetVoltage => "set_voltage"@,
            XyError::SetOutput => "set_output"@,
            XyError::BootSequence => "boot_sequence"@,
            XyError::ProtectOvp => "protect_ovp"@,
            XyError::ProtectOcp => "protect_ocp"@,
            XyError::ProtectOpp => "protect_opp"@,
            XyError::ProtectLvp => "protect_lvp"@,
            XyError::ProtectOah => "protect_oah"@,
            XyError::ProtectOhp => "protect_ohp"@,
            XyError::ProtectOtp => "protect_otp"@,
            XyError::ProtectOep => "protect_oep"@,
            XyError::ProtectOwh => "protect_owh"@,
            XyError::ProtectIcp => "protect_icp"@,
        }
    }

    open spec fn kinds() -> Seq<XyError> {
        seq![
            XyError::ReadStatus,
            XyError::SetVoltage,
            XyError::SetOutput,
            XyError::BootSequence,
            XyError::ProtectOvp,
            XyError::ProtectOcp,
            XyError::ProtectOpp,
            XyError::ProtectLvp,
            XyError::ProtectOah,
            XyError::ProtectOhp,
            XyError::ProtectOtp,
            XyError::ProtectOep,
            XyError::ProtectOwh,
            XyError::ProtectIcp,
        ]
    }

    fn index(self) -> (i: usize) {
        match self {
            XyError::ReadStatus => 0,
            XyError::SetVoltage => 1,
            XyError::SetOutput => 2,
            XyError::BootSequence => 3,
            XyError::ProtectOvp => 4,
            XyError::ProtectOcp => 5,
            XyError::ProtectOpp => 6,
            XyError::ProtectLvp => 7,
            XyError::ProtectOah => 8,
            XyError::ProtectOhp => 9,
            XyError::ProtectOtp => 10,
            XyError::ProtectOep => 11,
            XyError::ProtectOwh => 12,
            XyError::ProtectIcp => 13,
        }
    }

    fn slot(self) -> (s: usize) {
        INA_KINDS + self.index()
    }

    fn name(self) -> (name: &'static str) {
        match self {
            XyError::ReadStatus => "read_status",
            XyError::SetVoltage => "set_voltage",
            XyError::SetOutput => "set_output",
            XyError::BootSequence => "boot_sequence",
            XyError::ProtectOvp => "protect_ovp",
            XyError::ProtectOcp => "protect_ocp",
            XyError::ProtectOpp => "protect_opp",
            XyError::ProtectLvp => "protect_lvp",
            XyError::ProtectOah => "protect_oah",
            XyError::ProtectOhp => "protect_ohp",
            XyError::ProtectOtp => "protect_otp",
            XyError::ProtectOep => "protect_oep",
            XyError::ProtectOwh => "protect_owh",
            XyError::ProtectIcp => "protect_icp",
        }
    }

    fn all() -> (v: Vec<XyError>) {
        let v = vec![
            XyError::ReadStatus,
            XyError::SetVoltage,
            XyError::SetOutput,
            XyError::BootSequence,
            XyError::ProtectOvp,
            XyError::ProtectOcp,
            XyError::ProtectOpp,
            XyError::ProtectLvp,
            XyError::ProtectOah,
            XyError::ProtectOhp,
            XyError::ProtectOtp,
            XyError::ProtectOep,
            XyError::ProtectOwh,
            XyError::ProtectIcp,
        ];
        assert(v@ =~= Self::kinds());
        v
    }
}

impl EventKind for ChargeTransition {
    open spec fn offset() -> nat {
        (INA_KINDS + XY_KINDS) as nat
    }

    open spec fn position(self) -> nat {
        match self {
            ChargeTransition::Energised => 0,
            ChargeTransition::ProtectHold => 1,
            ChargeTransition::ProtectCleared => 2,
            ChargeTransition::Latched => 3,
            ChargeTransition::Parked => 4,
        }
    }

    open spec fn name_text(self) -> Seq<char> {
        match self {
            ChargeTransition::Energised => "energised"@,
            ChargeTransition::ProtectHold => "protect_hold"@,
            ChargeTransition::ProtectCleared => "protect_cleared"@,
            ChargeTransition::Latched => "latched"@,
            ChargeTransition::Parked => "parked"@,
        }
    }

    open spec fn kinds() -> Seq<ChargeTransition> {
        seq![
            ChargeTransition::Energised,
            ChargeTransition::ProtectHold,
            ChargeTransition::ProtectCleared,
            ChargeTransition::Latched,
            ChargeTransition::Parked,
        ]
    }

    fn index(self) -> (i: usize) {
        match self {
            ChargeTransition::Energised => 0,
            ChargeTransition::ProtectHold => 1,
            ChargeTransition::ProtectCleared => 2,
            ChargeTransition::Latched => 3,
            ChargeTransition::Parked => 4,
        }
    }

    fn slot(self) -> (s: usize) {
        INA_KINDS + XY_KINDS + self.index()
    }

    fn name(self) -> (name: &'static str) {
        match self {
            ChargeTransition::Energised => "energised",
            ChargeTransition::ProtectHold => "protect_hold",
            ChargeTransition::ProtectCleared => "protect_cleared",
            ChargeTransition::Latched => "latched",
            ChargeTransition::Parked => "parked",
        }
    }

    fn all() -> (v: Vec<ChargeTransition>) {
        let v = vec![
            ChargeTransition::Energised,
            ChargeTransition::ProtectHold,
            ChargeTransition::ProtectCleared,
            ChargeTransition::Latched,
            ChargeTransition::Parked,
        ];
        assert(v@ =~= Self::kinds());
        v
    }
}

impl XyError {
    /// The kind of a protection cause.
    pub open spec fn of_protection(p: ProtectionStatus) -> Option<XyError> {
        match p {
            ProtectionStatus::Normal => None,
            ProtectionStatus::Ovp => Some(XyError::ProtectOvp),
            ProtectionStatus::Ocp => Some(XyError::ProtectOcp),
            ProtectionStatus::Opp => Some(XyError::ProtectOpp),
            ProtectionStatus::Lvp => Some(XyError::ProtectLvp),
            ProtectionStatus::Oah => Some(XyError::ProtectOah),
            ProtectionStatus::Ohp => Some(XyError::ProtectOhp),
            ProtectionStatus::Otp => Some(XyError::ProtectOtp),
            ProtectionStatus::Oep => Some(XyError::ProtectOep),
            ProtectionStatus::Owh => Some(XyError::ProtectOwh),
            ProtectionStatus::Icp => Some(XyError::ProtectIcp),
        }
    }

    /// Event kind for a latched protection cause. `Normal` is no fault.
    pub fn from_protection(p: ProtectionStatus) -> (kind: Option<XyError>)
        ensures
            kind == XyError::of_protection(p),
    {
        match p {
            ProtectionStatus::Normal => None,
            ProtectionStatus::Ovp => Some(XyError::ProtectOvp),
            ProtectionStatus::Ocp => Some(XyError::ProtectOcp),
            ProtectionStatus::Opp => Some(XyError::ProtectOpp),
            ProtectionStatus::Lvp => Some(XyError::ProtectLvp),
            ProtectionStatus::Oah => Some(XyError::ProtectOah),
            ProtectionStatus::Ohp => Some(XyError::ProtectOhp),
            ProtectionStatus::Otp => Some(XyError::ProtectOtp),
            ProtectionStatus::Oep => Some(XyError::ProtectOep),
            ProtectionStatus::Owh => Some(XyError::ProtectOwh),
            ProtectionStatus::Icp => Some(XyError::ProtectIcp),
        }
    }
}

/// An event of one of the sources.
#[derive(Copy, Clone, Debug, PartialEq, Eq, Structural)]
pub enum Event {
    Ina(InaError),
    Xy(XyError),
    Charge(ChargeTransition),
}

/// How an event names itself on the wire: which source it came from, and which
/// kind within that source.
#[derive(Copy, Clone, Debug, PartialEq, Eq)]
pub struct EventName {
    pub source: &'static str,
    pub kind: &'static str,
}

impl Event {
    /// The slot of the event's kind in the counter array.
    pub open spec fn slot_spec(self) -> nat {
        match self {
            Event::Ina(k) => InaError::offset() + k.position(),
            Event::Xy(k) => XyError::offset() + k.position(),
            Event::Charge(k) => ChargeTransition::offset() + k.position(),
        }
    }

    /// The name of the event's source.
    pub open spec fn source_text(self) -> Seq<char> {
        match self {
            Event::Ina(_) => "ina"@,
            Event::Xy(_) => "xy"@,
            Event::Charge(_) => "charge"@,
        }
    }

    /// The name of the event's kind.
    pub open spec fn kind_text(self) -> Seq<char> {
        match self {
            Event::Ina(k) => k.name_text(),
            Event::Xy(k) => k.name_text(),
            Event::Charge(k) => k.name_text(),
        }
    }

    /// Source and kind by name.
    pub fn name(self) -> (name: EventName)
        ensures
            name.source@ == self.source_text(),
            name.kind@ == self.kind_text(),
    {
        match self {
            Event::Ina(k) => EventName { source: "ina", kind: k.name() },
            Event::Xy(k) => EventName { source: "xy", kind: k.name() },
            Event::Charge(k) => EventName { source: "charge", kind: k.name() },
        }
    }

    fn slot(self) -> (s: usize)
        ensures
            s == self.slot_spec(),
            s < TOTAL_KINDS,
    {
        match self {
            Event::Ina(k) => k.slot(),
            Event::Xy(k) => k.slot(),
            Event::Charge(k) => k.slot(),
        }
    }
}

/// An event and when it was recorded.
#[derive(Copy, Clone, Debug, PartialEq, Eq, Structural)]
pub struct TimedEvent {
    /// Epoch seconds; 0 means the clock was not set yet.
    pub ts: u32,
    pub event: Event,
}

/// `heapless::Deque`, a ring of fixed capacity.
#[verifier::external_type_specification]
#[verifier::external_body]
#[verifier::reject_recursive_types(T)]
pub struct ExDeque<T, const N: usize>(heapless::Deque<T, N>);

/// The events in the ring, oldest first.
pub uninterp spec fn ring_events(ring: Deque<TimedEvent, 32>) -> Seq<TimedEvent>;

/// `heapless::Deque::new`: a ring that holds nothing.
#[verifier::external_body]
fn ring_new() -> (ring: Deque<TimedEvent, 32>)
    ensures
        ring_events(ring) == Seq::<TimedEvent>::empty(),
{
    Deque::new()
}

/// `heapless::Deque::len`: how many entries the ring holds; never more than its
/// capacity.
#[verifier::external_body]
fn ring_len(ring: &Deque<TimedEvent, 32>) -> (n: usize)
    ensures
        n == ring_events(*ring).len(),
        n <= 32,
{
    ring.len()
}

/// `heapless::Deque::pop_front`: takes the oldest entry out, if there is one.
#[verifier::external_body]
fn ring_pop_front(ring: &mut Deque<TimedEvent, 32>) -> (e: Option<TimedEvent>)
    ensures
        match e {
            Some(first) => ring_events(*old(ring)).len() > 0 && first == ring_events(*old(ring))[0]
                && ring_events(*final(ring)) == ring_events(*old(ring)).drop_first(),
            None => ring_events(*old(ring)).len() == 0 && ring_events(*final(ring)) == ring_events(
                *old(ring),
            ),
        },
{
    ring.pop_front()
}

/// `heapless::Deque::push_back`: appends an entry, or hands it back where the
/// ring is at its capacity.
#[verifier::external_body]
fn ring_push_back(ring: &mut Deque<TimedEvent, 32>, e: TimedEvent) -> (r: Result<(), TimedEvent>)
    ensures
        match r {
            Ok(_) => ring_events(*old(ring)).len() != 32 && ring_events(*final(ring))
                == ring_events(*old(ring)).push(e),
            Err(back) => ring_events(*old(ring)).len() == 32 && back == e && ring_events(
                *final(ring),
            ) == ring_events(*old(ring)),
        },
{
    ring.push_back(e)
}

/// `heapless::Deque::iter`: the entries in order, oldest first.
#[verifier::external_body]
fn ring_iter(ring: &Deque<TimedEvent, 32>) -> (v: Vec<TimedEvent>)
    ensures
        v@ == ring_events(*ring),
{
    ring.iter().copied().collect()
}

/// What a log holds.
pub ghost struct LogState {
    /// The ring, oldest first.
    pub recent: Seq<TimedEvent>,
    /// Lifetime totals by slot.
    pub totals: Seq<u32>,
}

/// The largest count there is stays.
pub open spec fn bumped(n: u32) -> u32 {
    if n == u32::MAX {
        u32::MAX
    } else {
        (n + 1) as u32
    }
}

impl LogState {
    /// Nothing recorded yet.
    pub open spec fn empty() -> LogState {
        LogState { recent: Seq::empty(), totals: Seq::new(TOTAL_KINDS as nat, |i: int| 0u32) }
    }

    /// The ring is within its capacity and every kind has a total.
    pub open spec fn wf(self) -> bool {
        self.recent.len() <= CAPACITY && self.totals.len() == TOTAL_KINDS
    }

    /// One more event: the oldest entry leaves a full ring, the total of the
    /// event's kind grows.
    pub open spec fn recorded(self, e: TimedEvent) -> LogState {
        let slot = e.event.slot_spec() as int;
        LogState {
            recent: (if self.recent.len() == CAPACITY {
                self.recent.drop_first()
            } else {
                self.recent
            }).push(e),
            totals: self.totals.update(slot, bumped(self.totals[slot])),
        }
    }

    /// Several events, one after the other.
    pub open spec fn recorded_all(self, events: Seq<TimedEvent>) -> LogState
        decreases events.len(),
    {
        if events.len() == 0 {
            self
        } else {
            self.recorded_all(events.drop_last()).recorded(events.last())
        }
    }

    /// The total of one kind.
    pub open spec fn total<K: EventKind>(self, kind: K) -> u32 {
        self.totals[(K::offset() + kind.position()) as int]
    }
}

/// Recent events and lifetime counters.
pub struct EventLog {
    recent: Deque<TimedEvent, 32>,
    counts: [u32; 23],
}

impl Default for EventLog {
    /// An empty log.
    fn default() -> (log: Self)
        ensures
            log@ == LogState::empty(),
            log.wf(),
    {
        EventLog::new()
    }
}

impl EventLog {
    /// What the log holds.
    pub closed spec fn view(&self) -> LogState {
        LogState { recent: ring_events(self.recent), totals: self.counts@ }
    }

    /// The log is within its bounds.
    pub open spec fn wf(&self) -> bool {
        self@.wf()
    }

    /// An empty log.
    pub fn new() -> (log: EventLog)
        ensures
            log@ == LogState::empty(),
            log.wf(),
    {
        let log = EventLog { recent: ring_new(), counts: [0; 23] };
        assert(log@.totals =~= LogState::empty().totals);
        log
    }

    /// Appends an event. Evicts the oldest entry of a full ring; the counter of
    /// its kind grows in any case, up to `u32::MAX`.
    pub fn record(&mut self, ts: u32, event: Event)
        requires
            old(self).wf(),
        ensures
            final(self)@ == old(self)@.recorded(TimedEvent { ts, event }),
            final(self).wf(),
    {
        if ring_len(&self.recent) == CAPACITY {
            let _ = ring_pop_front(&mut self.recent);
        }
        let _ = ring_push_back(&mut self.recent, TimedEvent { ts, event });
        let slot = event.slot();
        let grown: u32 = self.counts[slot].saturating_add(1);
        self.counts[slot] = grown;
    }

    /// The entries in the ring, oldest first.
    pub fn recent(&self) -> (v: Vec<TimedEvent>)
        ensures
            v@ == self@.recent,
    {
        ring_iter(&self.recent)
    }

    /// Lifetime total for one kind, at most `u32::MAX`.
    pub fn count<K: EventKind>(&self, kind: K) -> (n: u32)
        ensures
            n == self@.total(kind),
    {
        self.counts[kind.slot()]
    }

    /// Lifetime total for one kind of the current sensor.
    pub fn ina_count(&self, k: InaError) -> (n: u32)
        ensures
            n == self@.total(k),
    {
        self.count(k)
    }

    /// Lifetime total for one kind of the buck.
    pub fn xy_count(&self, k: XyError) -> (n: u32)
        ensures
            n == self@.total(k),
    {
        self.count(k)
    }

    /// Lifetime total for one transition of the supervisor.
    pub fn charge_count(&self, k: ChargeTransition) -> (n: u32)
        ensures
            n == self@.total(k),
    {
        self.count(k)
    }

    /// Name and total of every kind of one source.
    pub fn counts_iter<K: EventKind>(&self) -> (pairs: Vec<(&'static str, u32)>)
        ensures
            pairs@.len() == K::kinds().len(),
            forall|i: int|
                0 <= i < pairs@.len() ==> (#[trigger] pairs@[i]).0@ == K::kinds()[i].name_text()
                    && pairs@[i].1 == self@.total(K::kinds()[i]),
    {
        let kinds: Vec<K> = K::all();
        let mut pairs: Vec<(&'static str, u32)> = Vec::new();
        let mut i: usize = 0;
        while i < kinds.len()
            invariant
                kinds@ == K::kinds(),
                i <= kinds.len(),
                pairs@.len() == i,
                forall|j: int|
                    0 <= j < i ==> (#[trigger] pairs@[j]).0@ == K::kinds()[j].name_text()
                        && pairs@[j].1 == self@.total(K::kinds()[j]),
            decreases kinds.len() - i,
        {
            let k = kinds[i];
            pairs.push((k.name(), self.count(k)));
            i = i + 1;
        }
        pairs
    }

    /// Name and total of every kind of the current sensor.
    pub fn ina_counts_iter(&self) -> (pairs: Vec<(&'static str, u32)>)
        ensures
            pairs@.len() == InaError::kinds().len(),
            forall|i: int|
                0 <= i < pairs@.len() ==> (#[trigger] pairs@[i]).0@
                    == InaError::kinds()[i].name_text() && pairs@[i].1 == self@.total(
                    InaError::kinds()[i],
                ),
    {
        self.counts_iter::<InaError>()
    }

    /// Name and total of every kind of the buck.
    pub fn xy_counts_iter(&self) -> (pairs: Vec<(&'static str, u32)>)
        ensures
            pairs@.len() == XyError::kinds().len(),
            forall|i: int|
                0 <= i < pairs@.len() ==> (#[trigger] pairs@[i]).0@
                    == XyError::kinds()[i].name_text() && pairs@[i].1 == self@.total(
                    XyError::kinds()[i],
                ),
    {
        self.counts_iter::<XyError>()
    }

    /// How many entries the ring holds.
    pub fn len(&self) -> (n: usize)
        ensures
            n == self@.recent.len(),
            n <= CAPACITY,
    {
        ring_len(&self.recent)
    }

    /// Whether the ring holds nothing.
    pub fn is_empty(&self) -> (b: bool)
        ensures
            b == (self@.recent.len() == 0),
    {
        ring_len(&self.recent) == 0
    }
}

/// How many of the events have the given slot.
pub open spec fn occurrences(events: Seq<TimedEvent>, slot: nat) -> nat
    decreases events.len(),
{
    if events.len() == 0 {
        0
    } else {
        occurrences(events.drop_last(), slot) + (if events.last().event.slot_spec() == slot {
            1nat
        } else {
            0nat
        })
    }
}

/// The last `CAPACITY` events.
pub open spec fn newest(events: Seq<TimedEvent>) -> Seq<TimedEvent> {
    if events.len() <= CAPACITY {
        events
    } else {
        events.subrange(events.len() - CAPACITY, events.len() as int)
    }
}

/// After any run of events an initially empty log holds the newest of them in
/// order, and each total counts every event of its kind ever recorded, also those
/// the ring has evicted, up to `u32::MAX`.
pub proof fn totals_survive_eviction(events: Seq<TimedEvent>, slot: nat)
    requires
        slot < TOTAL_KINDS,
    ensures
        LogState::empty().recorded_all(events).wf(),
        LogState::empty().recorded_all(events).recent == newest(events),
        LogState::empty().recorded_all(events).totals[slot as int] == (if occurrences(events, slot)
            > u32::MAX {
            u32::MAX as nat
        } else {
            occurrences(events, slot)
        }),
    decreases events.len(),
{
    let state = LogState::empty().recorded_all(events);
    if events.len() == 0 {
        assert(state.recent =~= newest(events));
    } else {
        let before = events.drop_last();
        totals_survive_eviction(before, slot);
        lemma_slot_in_range(events.last().event);
        assert(state.recent =~= newest(events));
    }
}

proof fn lemma_slot_in_range(e: Event)
    ensures
        e.slot_spec() < TOTAL_KINDS,
{
}

/// Different events count in different slots.
pub proof fn slots_are_distinct(a: Event, b: Event)
    ensures
        a.slot_spec() == b.slot_spec() <==> a == b,
        a.slot_spec() < TOTAL_KINDS,
{
}

/// The places of a source's kinds are exactly 0, 1, 2 and so on.
pub proof fn positions_are_dense(i: int)
    ensures
        InaError::kinds().len() == INA_KINDS,
        XyError::kinds().len() == XY_KINDS,
        ChargeTransition::kinds().len() == CHARGE_KINDS,
        0 <= i < INA_KINDS ==> InaError::kinds()[i].position() == i,
        0 <= i < XY_KINDS ==> XyError::kinds()[i].position() == i,
        0 <= i < CHARGE_KINDS ==> ChargeTransition::kinds()[i].position() == i,
{
}

/// No two kinds share a name, within a source or across sources.
pub proof fn names_are_unique(a: Event, b: Event)
    ensures
        a.kind_text() == b.kind_text() <==> a == b,
{
    reveal_strlit("init");
    reveal_strlit("bus_voltage_read");
    reveal_strlit("current_read");
    reveal_strlit("power_read");
    reveal_strlit("read_status");
    reveal_strlit("set_voltage");
    reveal_strlit("set_output");
    reveal_strlit("boot_sequence");
    reveal_strlit("protect_ovp");
    reveal_strlit("protect_ocp");
    reveal_strlit("protect_opp");
    reveal_strlit("protect_lvp");
    reveal_strlit("protect_oah");
    reveal_strlit("protect_ohp");
    reveal_strlit("protect_otp");
    reveal_strlit("protect_oep");
    reveal_strlit("protect_owh");
    reveal_strlit("protect_icp");
    reveal_strlit("energised");
    reveal_strlit("protect_hold");
    reveal_strlit("protect_cleared");
    reveal_strlit("latched");
    reveal_strlit("parked");
    assert("init"@.len() == 4);
    assert("bus_voltage_read"@.len() == 16);
    assert("current_read"@.len() == 12);
    assert("power_read"@.len() == 10);
    assert("read_status"@.len() == 11);
    assert("set_voltage"@.len() == 11);
    assert("set_output"@.len() == 10);
    assert("boot_sequence"@.len() == 13);
    assert("protect_ovp"@.len() == 11);
    assert("protect_ocp"@.len() == 11);
    assert("protect_opp"@.len() == 11);
    assert("protect_lvp"@.len() == 11);
    assert("protect_oah"@.len() == 11);
    assert("protect_ohp"@.len() == 11);
    assert("protect_otp"@.len() == 11);
    assert("protect_oep"@.len() == 11);
    assert("protect_owh"@.len() == 11);
    assert("protect_icp"@.len() == 11);
    assert("energised"@.len() == 9);
    assert("protect_hold"@.len() == 12);
    assert("protect_cleared"@.len() == 15);
    assert("latched"@.len() == 7);
    assert("parked"@.len() == 6);
    assert("current_read"@[8] == 'r' && "current_read"@[9] == 'e');
    assert("current_read"@[10] == 'a');
    assert("power_read"@[8] == 'a' && "power_read"@[9] == 'd');
    assert("read_status"@[8] == 't' && "read_status"@[9] == 'u');
    assert("read_status"@[10] == 's');
    assert("set_voltage"@[8] == 'a' && "set_voltage"@[9] == 'g');
    assert("set_voltage"@[10] == 'e');
    assert("set_output"@[8] == 'u' && "set_output"@[9] == 't');
    assert("protect_ovp"@[8] == 'o' && "protect_ovp"@[9] == 'v');
    assert("protect_ovp"@[10] == 'p');
    assert("protect_ocp"@[8] == 'o' && "protect_ocp"@[9] == 'c');
    assert("protect_ocp"@[10] == 'p');
    assert("protect_opp"@[8] == 'o' && "protect_opp"@[9] == 'p');
    assert("protect_opp"@[10] == 'p');
    assert("protect_lvp"@[8] == 'l' && "protect_lvp"@[9] == 'v');
    assert("protect_lvp"@[10] == 'p');
    assert("protect_oah"@[8] == 'o' && "protect_oah"@[9] == 'a');
    assert("protect_oah"@[10] == 'h');
    assert("protect_ohp"@[8] == 'o' && "protect_ohp"@[9] == 'h');
    assert("protect_ohp"@[10] == 'p');
    assert("protect_otp"@[8] == 'o' && "protect_otp"@[9] == 't');
    assert("protect_otp"@[10] == 'p');
    assert("protect_oep"@[8] == 'o' && "protect_oep"@[9] == 'e');
    assert("protect_oep"@[10] == 'p');
    assert("protect_owh"@[8] == 'o' && "protect_owh"@[9] == 'w');
    assert("protect_owh"@[10] == 'h');
    assert("protect_icp"@[8] == 'i' && "protect_icp"@[9] == 'c');
    assert("protect_icp"@[10] == 'p');
    assert("protect_hold"@[8] == 'h' && "protect_hold"@[9] == 'o');
    assert("protect_hold"@[10] == 'l');
}

/// Recording one event changes no other kind's total.
pub proof fn record_counts_its_kind_alone(log: LogState, e: TimedEvent, slot: nat)
    requires
        log.wf(),
        slot < TOTAL_KINDS,
    ensures
        log.recorded(e).wf(),
        log.recorded(e).totals[slot as int] == (if slot == e.event.slot_spec() {
            bumped(log.totals[slot as int])
        } else {
            log.totals[slot as int]
        }),
{
    lemma_slot_in_range(e.event);
}

/// Different protection causes are different kinds, and only `Normal` is none.
pub proof fn protection_kinds_are_distinct(p: ProtectionStatus, q: ProtectionStatus)
    ensures
        XyError::of_protection(p) == XyError::of_protection(q) <==> p == q,
        XyError::of_protection(p) is None <==> p == ProtectionStatus::Normal,
{
}

/// One event more: it is the newest entry, the 31 before it stay, and its own total grows
/// by one up to the largest count.
pub proof fn record_keeps_the_newest(log: LogState, e: TimedEvent)
    requires
        log.wf(),
    ensures
        ({
            let t = log.recorded(e);
            let slot = e.event.slot_spec() as int;
            &&& t.recent.len() == (if log.recent.len() < 32 {
                log.recent.len() + 1
            } else {
                32
            })
            &&& t.recent.last() == e
            &&& forall|i: int|
                0 <= i < t.recent.len() - 1 ==> #[trigger] t.recent[i] == log.recent[i
                    + log.recent.len() + 1 - t.recent.len()]
            &&& t.totals[slot] == (if log.totals[slot] < u32::MAX {
                log.totals[slot] + 1
            } else {
                u32::MAX as int
            })
        }),
{
    lemma_slot_in_range(e.event);
}

/// The kind of a protection cause bears the cause's name.
pub proof fn protection_kind_bears_the_name(p: ProtectionStatus)
    requires
        p != ProtectionStatus::Normal,
    ensures
        XyError::of_protection(p) is Some,
        (XyError::of_protection(p)->0).name_text() == "protect_"@ + p.name_text(),
{
    reveal_strlit("protect_");
    reveal_strlit("protect_ovp");
    reveal_strlit("protect_ocp");
    reveal_strlit("protect_opp");
    reveal_strlit("protect_lvp");
    reveal_strlit("protect_oah");
    reveal_strlit("protect_ohp");
    reveal_strlit("protect_otp");
    reveal_strlit("protect_oep");
    reveal_strlit("protect_owh");
    reveal_strlit("protect_icp");
    reveal_strlit("ovp");
    reveal_strlit("ocp");
    reveal_strlit("opp");
    reveal_strlit("lvp");
    reveal_strlit("oah");
    reveal_strlit("ohp");
    reveal_strlit("otp");
    reveal_strlit("oep");
    reveal_strlit("owh");
    reveal_strlit("icp");
    assert((XyError::of_protection(p)->0).name_text() =~= "protect_"@ + p.name_text());
}

/// Each kind's total counts the events of that kind and no others.
pub proof fn total_counts_its_own_events(
    log: LogState,
    e: TimedEvent,
    ina: InaError,
    xy: XyError,
    charge: ChargeTransition,
)
    requires
        log.wf(),
    ensures
        log.recorded(e).total(ina) == (if e.event == Event::Ina(ina) && log.total(ina) < u32::MAX {
            log.total(ina) + 1
        } else {
            log.total(ina) as int
        }),
        log.recorded(e).total(xy) == (if e.event == Event::Xy(xy) && log.total(xy) < u32::MAX {
            log.total(xy) + 1
        } else {
            log.total(xy) as int
        }),
        log.recorded(e).total(charge) == (if e.event == Event::Charge(charge) && log.total(charge)
            < u32::MAX {
            log.total(charge) + 1
        } else {
            log.total(charge) as int
        }),
        LogState::empty().total(ina) == 0,
        LogState::empty().total(xy) == 0,
        LogState::empty().total(charge) == 0,
        LogState::empty().recent.len() == 0,
{
    lemma_slot_in_range(e.event);
    lemma_slot_in_range(Event::Ina(ina));
    lemma_slot_in_range(Event::Xy(xy));
    lemma_slot_in_range(Event::Charge(charge));
    slots_are_distinct(e.event, Event::Ina(ina));
    slots_are_distinct(e.event, Event::Xy(xy));
    slots_are_distinct(e.event, Event::Charge(charge));
}

/// What went wrong with the buck is named after what was being done.
pub proof fn bus_kinds_are_named_after_the_operation()
    ensures
        XyError::ReadStatus.name_text() == "read_status"@,
        XyError::SetVoltage.name_text() == "set_voltage"@,
        XyError::SetOutput.name_text() == "set_output"@,
        XyError::BootSequence.name_text() == "boot_sequence"@,
{
}

} // verus!
