use battery_logic::charging::charge_state::ChargeState;
use battery_logic::charging::pack_temp::PackTemp;
use battery_logic::charging::state_supervisor::{StatePoll, StateSupervisor};
use battery_logic::charging::{self, profile};
use battery_logic::{
    BuckOutput, ChargeTransition, Chemistry, DisableTicket, EnableTicket, FaultReason,
    InhibitReason, Phase, ProtectionStatus, F32,
};
use std::time::Duration;

fn f(x: f32) -> F32 {
    F32::from_bits(x.to_bits())
}

fn v(x: F32) -> f32 {
    f32::from_bits(x.to_bits())
}

fn span(d: Duration) -> battery_logic::Duration {
    battery_logic::Duration { nanos: d.as_nanos() }
}

const OV_MARGIN_V: f32 = f32::from_bits(charging::OV_MARGIN_V);
const OV_DURATION: Duration = Duration::from_secs(charging::OV_DURATION);
const MAX_ABSORB: Duration = Duration::from_secs(charging::MAX_ABSORB);
const EXIT_DEBOUNCE: Duration = Duration::from_secs(charging::EXIT_DEBOUNCE);
const BATTERY_MISSING_TIMEOUT: Duration = Duration::from_secs(charging::BATTERY_MISSING_TIMEOUT);
const MODBUS_UNHEALTHY_TIMEOUT: Duration = Duration::from_secs(charging::MODBUS_UNHEALTHY_TIMEOUT);

#[derive(Copy, Clone, Debug)]
struct SafetyLimits {
    lvp_v: f32,
    ovp_v: f32,
    ocp_a: f32,
}

#[derive(Copy, Clone, Debug)]
struct Profile {
    chemistry: Chemistry,
    cells: u8,
    capacity_ah: f32,
    absorb_v: f32,
    float_v: f32,
    regulation_a: f32,
    enter_absorb_a: f32,
    exit_absorb_a: f32,
}

impl Profile {
    fn for_pack(chemistry: Chemistry, cells: u8, capacity_ah: f32) -> Self {
        assert!(battery_logic::Profile::pack_fits(chemistry, cells, f(capacity_ah)));
        let p = battery_logic::Profile::for_pack(chemistry, cells, f(capacity_ah));
        Self {
            chemistry: p.chemistry,
            cells: p.cells,
            capacity_ah: v(p.capacity_ah),
            absorb_v: v(p.absorb_v),
            float_v: v(p.float_v),
            regulation_a: v(p.regulation_a),
            enter_absorb_a: v(p.enter_absorb_a),
            exit_absorb_a: v(p.exit_absorb_a),
        }
    }

    fn bits(self) -> battery_logic::Profile {
        battery_logic::Profile {
            chemistry: self.chemistry,
            cells: self.cells,
            capacity_ah: f(self.capacity_ah),
            absorb_v: f(self.absorb_v),
            float_v: f(self.float_v),
            regulation_a: f(self.regulation_a),
            enter_absorb_a: f(self.enter_absorb_a),
            exit_absorb_a: f(self.exit_absorb_a),
        }
    }

    fn soc(&self, pack_voltage_v: f32) -> f32 {
        v(self.bits().soc(f(pack_voltage_v)))
    }

    fn buck_setup(&self, supply: SupplyBudget) -> BuckSetup {
        let s = self.bits().buck_setup(profile::SupplyBudget {
            input_nominal_v: f(supply.input_nominal_v),
            load_a: f(supply.load_a),
        });
        BuckSetup {
            i_set_a: v(s.i_set_a),
            limits: SafetyLimits {
                lvp_v: v(s.limits.lvp_v),
                ovp_v: v(s.limits.ovp_v),
                ocp_a: v(s.limits.ocp_a),
            },
        }
    }
}

#[derive(Copy, Clone, Debug)]
struct Setpoints {
    v_set: f32,
    i_set: f32,
}

impl Setpoints {
    fn bits(self) -> battery_logic::Setpoints {
        battery_logic::Setpoints { v_set: f(self.v_set), i_set: f(self.i_set) }
    }
}

#[derive(Copy, Clone, Debug)]
struct BatterySample {
    voltage: f32,
    current: f32,
}

impl BatterySample {
    fn bits(self) -> battery_logic::BatterySample {
        battery_logic::BatterySample { voltage: f(self.voltage), current: f(self.current) }
    }
}

const MAX_CHARGE: Duration = Duration::from_secs(charging::MAX_CHARGE);
const FLAP_WINDOW: Duration = Duration::from_secs(charging::FLAP_WINDOW);
const OVERCURRENT_DURATION: Duration = Duration::from_secs(charging::OVERCURRENT_DURATION);
const PACK_TEMP_STALE_TIMEOUT: Duration = Duration::from_secs(charging::PACK_TEMP_STALE_TIMEOUT);
const OVERCURRENT_TOL: f32 = f32::from_bits(charging::OVERCURRENT_TOL);
const CHARGE_TEMP_MIN_C: f32 = f32::from_bits(charging::CHARGE_TEMP_MIN_C);
const CHARGE_TEMP_MAX_C: f32 = f32::from_bits(charging::CHARGE_TEMP_MAX_C);

#[derive(Copy, Clone, Debug)]
struct SupplyBudget {
    input_nominal_v: f32,
    load_a: f32,
}

#[derive(Copy, Clone, Debug)]
struct BuckSetup {
    i_set_a: f32,
    limits: SafetyLimits,
}

#[derive(Copy, Clone, Debug)]
struct PollResult {
    battery: Option<BatterySample>,
    setpoints: Option<Setpoints>,
    output: Option<BuckOutput>,
    pack_temp_c: Option<f32>,
}

impl PollResult {
    fn bits(self) -> StatePoll {
        StatePoll {
            battery: self.battery.map(BatterySample::bits),
            setpoints: self.setpoints.map(Setpoints::bits),
            output: self.output,
            pack_temp_c: self.pack_temp_c.map(f),
        }
    }
}

/// A voltage ticket, or after committing it an echo of what it said.
#[derive(Debug)]
struct VoltageTicket {
    target_v: f32,
    cycle_output: bool,
    inner: Option<battery_logic::VoltageTicket>,
}

#[derive(Debug)]
enum Action {
    Idle,
    EnableOutput(EnableTicket),
    UpdateVoltage(VoltageTicket),
    DisableOutput(DisableTicket),
}

fn wrap(a: battery_logic::Action) -> Action {
    match a {
        battery_logic::Action::Idle => Action::Idle,
        battery_logic::Action::EnableOutput(t) => Action::EnableOutput(t),
        battery_logic::Action::UpdateVoltage(t) => Action::UpdateVoltage(VoltageTicket {
            target_v: v(t.target_v()),
            cycle_output: t.cycle_output(),
            inner: Some(t),
        }),
        battery_logic::Action::DisableOutput(t) => Action::DisableOutput(t),
    }
}

struct ChargeSupervisor(StateSupervisor);

impl ChargeSupervisor {
    fn new(profile: Profile, i_set_a: f32, pack_temp: PackTemp) -> Self {
        Self(StateSupervisor::new(profile.bits(), f(i_set_a), pack_temp))
    }

    fn state(&self) -> ChargeState {
        self.0.state()
    }

    fn phase(&self) -> Option<Phase> {
        self.0.phase()
    }

    fn parked(&self) -> bool {
        self.0.parked()
    }

    fn fault(&self) -> Option<FaultReason> {
        self.0.fault()
    }

    fn inhibit(&self) -> Option<InhibitReason> {
        self.0.inhibit()
    }

    fn target_voltage(&self) -> f32 {
        v(self.0.target_voltage())
    }

    fn readback_setpoints(&self) -> Setpoints {
        let sp = self.0.readback_setpoints();
        Setpoints { v_set: v(sp.v_set), i_set: v(sp.i_set) }
    }

    fn pop_transition(&mut self) -> Option<ChargeTransition> {
        self.0.pop_transition()
    }

    fn tick(&mut self, p: PollResult, elapsed: Duration) -> Action {
        wrap(self.0.tick(p.bits(), span(elapsed)))
    }

    fn commit_enable(&mut self, ticket: EnableTicket) {
        self.0.commit_enable(ticket);
    }

    fn commit_voltage(&mut self, ticket: VoltageTicket) {
        self.0.commit_voltage(ticket.inner.expect("a ticket that was not committed"));
    }

    fn commit_disable(&mut self, ticket: DisableTicket) {
        self.0.commit_disable(ticket);
    }
}

fn lfp_4s() -> Profile {
    Profile::for_pack(Chemistry::LiFePo4, 4, 50.0)
}

const TEST_SUPPLY: SupplyBudget = SupplyBudget {
    input_nominal_v: 24.0,
    load_a: 0.0,
};

fn supervisor(profile: Profile) -> ChargeSupervisor {
    ChargeSupervisor::new(
        profile,
        profile.buck_setup(TEST_SUPPLY).i_set_a,
        PackTemp::Absent,
    )
}

fn supervisor_with_temp_sensor(profile: Profile) -> ChargeSupervisor {
    ChargeSupervisor::new(
        profile,
        profile.buck_setup(TEST_SUPPLY).i_set_a,
        PackTemp::Fitted,
    )
}

fn approx(a: f32, b: f32) -> bool {
    (a - b).abs() < 1e-4
}

fn assert_approx(actual: f32, expected: f32) {
    assert!(
        approx(actual, expected),
        "{actual} != {expected}"
    );
}

const OK_V: f32 = 13.5;

const CV_V: f32 = 14.4;

const LOW_V: f32 = 13.0;

const TEST_PACK_TEMP_C: f32 = 20.0;

const TICK: Duration = Duration::from_secs(1);

fn b(voltage: f32, current: f32) -> Option<BatterySample> {
    Some(BatterySample { voltage, current })
}

fn matches_disable(a: &Action, expected: FaultReason) -> bool {
    matches!(a, Action::DisableOutput(t) if t.reason() == expected)
}

fn accept_enable(s: &mut ChargeSupervisor, a: Action) -> bool {
    let Action::EnableOutput(ticket) = a else {
        panic!("expected EnableOutput, got {a:?}");
    };
    let resume_absorb = ticket.resume_absorb();
    s.commit_enable(ticket);
    resume_absorb
}

fn expected_poll(s: &ChargeSupervisor, battery: Option<BatterySample>) -> PollResult {
    PollResult {
        setpoints: Some(s.readback_setpoints()),
        output: Some(expected_output(s)),
        battery,
        pack_temp_c: Some(TEST_PACK_TEMP_C),
    }
}

fn expected_output(s: &ChargeSupervisor) -> BuckOutput {
    if s.state().sourcing() {
        BuckOutput::On
    } else {
        BuckOutput::Off {
            cause: ProtectionStatus::Normal,
        }
    }
}

fn ok_tick(s: &mut ChargeSupervisor, battery: Option<BatterySample>, elapsed: Duration) -> Action {
    let a = s.tick(expected_poll(s, battery), elapsed);
    if let Action::UpdateVoltage(ticket) = a {
        let echo = VoltageTicket {
            target_v: ticket.target_v,
            cycle_output: ticket.cycle_output,
            inner: None,
        };
        s.commit_voltage(ticket);
        return Action::UpdateVoltage(echo);
    }
    a
}

fn fail_tick(
    s: &mut ChargeSupervisor,
    battery: Option<BatterySample>,
    elapsed: Duration,
) -> Action {
    s.tick(
        PollResult {
            setpoints: None,
            output: None,
            battery,
            pack_temp_c: Some(TEST_PACK_TEMP_C),
        },
        elapsed,
    )
}

fn active(profile: Profile) -> ChargeSupervisor {
    bring_up(supervisor(profile), profile.absorb_v)
}

fn bring_up(mut s: ChargeSupervisor, rest_v: f32) -> ChargeSupervisor {
    let a = ok_tick(&mut s, b(rest_v, -0.1), TICK);
    assert!(!accept_enable(&mut s, a), "full pack must not resume Absorb");
    assert_eq!(s.state(), ChargeState::Float);
    s
}

fn enter_absorb(s: &mut ChargeSupervisor) {
    assert!(matches!(
        ok_tick(s, b(OK_V, -4.0), TICK),
        Action::UpdateVoltage { .. }
    ));
    assert_eq!(s.state(), ChargeState::Absorb);
}

fn drain_transitions(s: &mut ChargeSupervisor) -> Vec<ChargeTransition> {
    let mut out = Vec::new();
    while let Some(t) = s.pop_transition() {
        out.push(t);
    }
    out
}

fn accept_park(s: &ChargeSupervisor, a: Action, expected: FaultReason) {
    match a {
        Action::UpdateVoltage(t) => {
            assert!(t.cycle_output, "a step down to float must cycle the output");
        }
        Action::Idle => {}
        other => panic!("expected a park, got {other:?}"),
    }
    assert_eq!(s.fault(), Some(expected));
    assert!(s.parked(), "charging must stop, but the load stays fed");
    assert_eq!(s.state(), ChargeState::Parked);
}

fn sag(s: &mut ChargeSupervisor) -> Action {
    let p = poll_with_output(
        s,
        BuckOutput::Off {
            cause: ProtectionStatus::Lvp,
        },
    );
    s.tick(p, TICK)
}

fn recover(s: &mut ChargeSupervisor) -> Action {
    let p = poll_with_output(s, BuckOutput::On);
    s.tick(p, TICK)
}

fn quiet(s: &mut ChargeSupervisor, span: Duration) {
    assert!(matches!(ok_tick(s, b(OK_V, -0.1), span), Action::Idle));
}

fn poll_with_output(s: &ChargeSupervisor, output: BuckOutput) -> PollResult {
    PollResult {
        output: Some(output),
        setpoints: Some(s.readback_setpoints()),
        battery: b(OK_V, -0.1),
        pack_temp_c: Some(TEST_PACK_TEMP_C),
    }
}

fn accept_disable(s: &mut ChargeSupervisor, a: Action) {
    let Action::DisableOutput(ticket) = a else {
        panic!("expected DisableOutput, got {a:?}");
    };
    s.commit_disable(ticket);
}

fn latch_self_disable(s: &mut ChargeSupervisor, cause: ProtectionStatus) {
    let p = poll_with_output(s, BuckOutput::Off { cause });
    let a = s.tick(p, TICK);
    assert!(matches_disable(
        &a,
        FaultReason::OutputUnexpectedlyOff(cause)
    ));
    accept_disable(s, a);
}

#[derive(Debug)]
struct DebouncedFault {
    name: &'static str,
    window: Duration,
    fault: FaultReason,
    feed: fn(&mut ChargeSupervisor, Duration) -> Action,
}

const DEBOUNCED_FAULTS: [DebouncedFault; 3] = [
    DebouncedFault {
        name: "battery sensor stale",
        window: BATTERY_MISSING_TIMEOUT,
        fault: FaultReason::BatterySensorStale,
        feed: |s, dt| ok_tick(s, None, dt),
    },
    DebouncedFault {
        name: "modbus unhealthy",
        window: MODBUS_UNHEALTHY_TIMEOUT,
        fault: FaultReason::ModbusUnhealthy,
        feed: |s, dt| fail_tick(s, b(OK_V, -0.1), dt),
    },
    DebouncedFault {
        name: "overvoltage",
        window: OV_DURATION,
        fault: FaultReason::Overvoltage,
        feed: |s, dt| ok_tick(s, b(14.7, -0.1), dt),
    },
];

fn poll_at(s: &ChargeSupervisor, temp_c: Option<f32>) -> PollResult {
    PollResult {
        pack_temp_c: temp_c,
        ..expected_poll(s, b(OK_V, -0.1))
    }
}

fn active_with_sensor(profile: Profile) -> ChargeSupervisor {
    bring_up(supervisor_with_temp_sensor(profile), profile.absorb_v)
}

fn park_on_absorb_timeout(s: &mut ChargeSupervisor) {
    enter_absorb(s);
    let a = ok_tick(s, b(CV_V, -3.0), MAX_ABSORB);
    accept_park(s, a, FaultReason::AbsorbTimeout);
}

#[test]
fn absorb_timeout_absorb_timeout_in_a_single_large_elapsed_tick() {
    let mut s = active(lfp_4s());
    enter_absorb(&mut s);
    let a = ok_tick(&mut s, b(CV_V, -3.0), MAX_ABSORB);
    accept_park(&s, a, FaultReason::AbsorbTimeout);
}

#[test]
fn absorb_timeout_absorb_does_not_time_out_below_budget() {
    let mut s = active(lfp_4s());
    enter_absorb(&mut s);
    for _ in 0..(MAX_ABSORB.as_secs() - 1) {
        assert!(matches!(ok_tick(&mut s, b(CV_V, -3.0), TICK), Action::Idle));
    }
    assert_eq!(s.fault(), None);
}

#[test]
fn absorb_timeout_float_does_not_accumulate_absorb_ticks() {
    let mut s = active(lfp_4s());
    for _ in 0..(MAX_ABSORB.as_secs() + 10) {
        assert!(matches!(ok_tick(&mut s, b(OK_V, -0.1), TICK), Action::Idle));
    }
    assert_eq!(s.state(), ChargeState::Float);
}

#[test]
fn absorb_timeout_absorb_counter_resets_on_taper_back_to_float() {
    let mut s = active(lfp_4s());
    enter_absorb(&mut s);
    for _ in 0..(MAX_ABSORB.as_secs() - EXIT_DEBOUNCE.as_secs() - 10) {
        ok_tick(&mut s, b(CV_V, -3.0), TICK);
    }
    for _ in 0..(EXIT_DEBOUNCE.as_secs() - 1) {
        assert!(matches!(ok_tick(&mut s, b(OK_V, -0.1), TICK), Action::Idle));
    }
    assert!(matches!(
        ok_tick(&mut s, b(OK_V, -0.1), TICK),
        Action::UpdateVoltage { .. }
    ));
    assert_eq!(s.state(), ChargeState::Float);

    enter_absorb(&mut s);
    for _ in 0..20 {
        assert!(matches!(ok_tick(&mut s, b(OK_V, -3.0), TICK), Action::Idle));
    }
    assert_eq!(s.fault(), None);
}

#[test]
fn absorb_timeout_cc_ramp_below_absorb_v_does_not_arm_timeout() {
    let mut s = active(lfp_4s());
    enter_absorb(&mut s);
    for _ in 0..(MAX_ABSORB.as_secs() + 10) {
        assert!(matches!(ok_tick(&mut s, b(OK_V, -3.0), TICK), Action::Idle));
    }
    assert_eq!(s.fault(), None);
    assert_eq!(s.state(), ChargeState::Absorb);
}

#[test]
fn cv_dips_shave_the_absorb_clock_instead_of_erasing_it() {
    let mut s = active(lfp_4s());
    enter_absorb(&mut s);
    assert!(matches!(
        ok_tick(&mut s, b(CV_V, -3.0), MAX_ABSORB - TICK),
        Action::Idle
    ));
    assert!(matches!(ok_tick(&mut s, b(OK_V, -3.0), TICK), Action::Idle));
    assert!(matches!(ok_tick(&mut s, b(CV_V, -3.0), TICK), Action::Idle));
    assert_eq!(s.fault(), None, "the dip must cost one tick, not the window");
    let a = ok_tick(&mut s, b(CV_V, -3.0), TICK);
    accept_park(&s, a, FaultReason::AbsorbTimeout);
}

#[test]
fn a_sustained_return_to_cc_drains_the_absorb_clock() {
    let mut s = active(lfp_4s());
    enter_absorb(&mut s);
    let almost = MAX_ABSORB - TICK;
    assert!(matches!(ok_tick(&mut s, b(CV_V, -3.0), almost), Action::Idle));
    assert!(matches!(ok_tick(&mut s, b(OK_V, -3.0), almost), Action::Idle));
    assert!(
        matches!(ok_tick(&mut s, b(CV_V, -3.0), almost), Action::Idle),
        "the window was not emptied"
    );
    let a = ok_tick(&mut s, b(CV_V, -3.0), TICK);
    accept_park(&s, a, FaultReason::AbsorbTimeout);
}

#[test]
fn a_load_dipping_out_of_cv_cannot_hold_the_cap_off_forever() {
    let mut s = active(lfp_4s());
    enter_absorb(&mut s);
    let pattern = [CV_V, CV_V, CV_V, OK_V];
    let mut tripped_at = None;
    'outer: for cycle in 0..5000 {
        for v in pattern {
            let a = ok_tick(&mut s, b(v, -3.0), TICK);
            if matches!(a, Action::UpdateVoltage(_)) {
                tripped_at = Some(cycle);
                break 'outer;
            }
        }
    }
    let cycle = tripped_at.expect("periodic dips held the cap off forever");
    assert!((3550..3650).contains(&cycle), "tripped after {cycle} cycles");
    assert_eq!(s.fault(), Some(FaultReason::AbsorbTimeout));
}

#[test]
fn charge_timeout_bounds_a_ramp_that_never_reaches_cv() {
    let mut s = active(lfp_4s());
    enter_absorb(&mut s);
    assert!(matches!(
        ok_tick(&mut s, b(OK_V, -3.0), MAX_CHARGE - TICK),
        Action::Idle
    ));
    assert_eq!(s.fault(), None);
    let a = ok_tick(&mut s, b(OK_V, -3.0), TICK);
    accept_park(&s, a, FaultReason::ChargeTimeout);
}

#[test]
fn charge_budget_covers_one_cycle_not_the_unit_lifetime() {
    let half = MAX_CHARGE / 2;
    let mut s = active(lfp_4s());
    enter_absorb(&mut s);
    assert!(matches!(ok_tick(&mut s, b(OK_V, -3.0), half), Action::Idle));

    for _ in 0..(EXIT_DEBOUNCE.as_secs() - 1) {
        assert!(matches!(ok_tick(&mut s, b(OK_V, -0.1), TICK), Action::Idle));
    }
    assert!(matches!(
        ok_tick(&mut s, b(OK_V, -0.1), TICK),
        Action::UpdateVoltage { .. }
    ));
    assert_eq!(s.state(), ChargeState::Float);

    enter_absorb(&mut s);
    assert!(matches!(ok_tick(&mut s, b(OK_V, -3.0), half), Action::Idle));
    assert_eq!(s.fault(), None);
}

#[test]
fn supervisor_parks_on_absorb_timeout() {
    let mut s = active(lfp_4s());
    let _ = ok_tick(&mut s, b(13.5, -4.0), TICK);
    for _ in 0..(MAX_ABSORB.as_secs() - 1) {
        ok_tick(&mut s, b(CV_V, -3.0), TICK);
    }
    assert_eq!(s.fault(), None);

    let a = ok_tick(&mut s, b(CV_V, -3.0), TICK);
    accept_park(&s, a, FaultReason::AbsorbTimeout);
}

#[test]
fn bring_up_pending_emits_enable_on_first_healthy_tick() {
    let mut s = supervisor(lfp_4s());
    let a = ok_tick(&mut s, b(OK_V, -0.1), TICK);
    assert!(matches!(a, Action::EnableOutput { .. }));
}

#[test]
fn pending_re_emits_enable_until_committed() {
    let mut s = supervisor(lfp_4s());
    for _ in 0..3 {
        let a = ok_tick(&mut s, b(OK_V, -0.1), TICK);
        assert!(matches!(a, Action::EnableOutput { .. }));
    }
}

#[test]
fn bring_up_low_pack_resumes_absorb_after_bringup() {
    let mut s = supervisor(lfp_4s());
    let a = ok_tick(&mut s, b(LOW_V, -0.1), TICK);
    let resume_absorb = accept_enable(&mut s, a);
    assert!(resume_absorb, "part-charged pack ⇒ must request Absorb");
    assert_eq!(s.state(), ChargeState::ToAbsorb);
    let a = ok_tick(&mut s, b(OK_V, -0.1), TICK);
    assert!(
        matches!(a, Action::UpdateVoltage(ref t) if approx(t.target_v, lfp_4s().absorb_v)),
        "expected UpdateVoltage to absorb_v, got {a:?}",
    );
    assert_eq!(s.state(), ChargeState::Absorb);
}

#[test]
fn bring_up_full_pack_stays_float_after_bringup() {
    let profile = lfp_4s();
    for rest_v in [CV_V, profile.float_v] {
        let mut s = supervisor(profile);
        let a = ok_tick(&mut s, b(rest_v, -0.1), TICK);
        assert!(
            !accept_enable(&mut s, a),
            "{rest_v} V: full pack must not resume Absorb"
        );
        let a = ok_tick(&mut s, b(rest_v, -0.1), TICK);
        assert!(matches!(a, Action::Idle), "{rest_v} V: got {a:?}");
        assert_eq!(s.state(), ChargeState::Float, "{rest_v} V");
    }
}

#[test]
fn resume_gate_reads_resting_soc_and_only_when_rested() {
    let profile = lfp_4s();
    let cases: [(f32, f32, bool); 5] = [
        (13.42, -0.1, true),
        (13.45, -0.1, false),
        (profile.float_v, -profile.exit_absorb_a, true),
        (profile.float_v, -(profile.exit_absorb_a - 0.1), false),
        (profile.float_v, profile.exit_absorb_a, true),
    ];
    for (rest_v, current, want_resume) in cases {
        let mut s = supervisor(profile);
        let a = ok_tick(&mut s, b(rest_v, current), TICK);
        assert_eq!(
            accept_enable(&mut s, a),
            want_resume,
            "{rest_v} V @ {current} A"
        );
    }
}

#[test]
fn full_is_relative_to_the_profile_not_the_chemistry_hundred_percent_point() {
    for chemistry in [Chemistry::LiFePo4, Chemistry::LiIon] {
        let profile = Profile::for_pack(chemistry, 3, 50.0);
        let mut s = supervisor(profile);
        let a = ok_tick(&mut s, b(profile.float_v, -0.1), TICK);
        assert!(
            !accept_enable(&mut s, a),
            "{chemistry:?}: a pack rested at its own float target is full"
        );
    }
    let lfp = Profile::for_pack(Chemistry::LiFePo4, 3, 50.0);
    let liion = Profile::for_pack(Chemistry::LiIon, 3, 50.0);
    let (lfp_rest, liion_rest) = (lfp.soc(lfp.float_v), liion.soc(liion.float_v));
    assert!(
        lfp_rest - liion_rest > 10.0,
        "float targets rest at {lfp_rest} % and {liion_rest} %"
    );
}

#[test]
fn bring_up_pending_overvolt_inhibits_from_first_sample_and_clears() {
    let absorb = lfp_4s().absorb_v;
    let trip = absorb + OV_MARGIN_V;
    let mut s = supervisor(lfp_4s());

    let a = ok_tick(&mut s, b(trip + 0.5, -0.1), TICK);
    assert!(matches!(a, Action::Idle));
    assert_eq!(s.inhibit(), Some(InhibitReason::Overvoltage));
    assert_eq!(s.fault(), None);

    for _ in 0..(OV_DURATION.as_secs() * 3) {
        let a = ok_tick(&mut s, b(trip + 0.5, -0.1), TICK);
        assert!(matches!(a, Action::Idle));
        assert_eq!(s.fault(), None);
    }

    let a = ok_tick(&mut s, b(trip - 0.05, -0.1), TICK);
    assert!(matches!(
        a,
        Action::EnableOutput(ref t) if t.resume_absorb() == false
    ));
    assert_eq!(s.inhibit(), None);
}

#[test]
fn bring_up_pending_drift_inhibits_without_enabling() {
    let mut s = supervisor(lfp_4s());
    let p = PollResult {
        setpoints: Some(Setpoints {
            v_set: 12.0,
            i_set: 10.0,
        }),
        ..expected_poll(&s, b(OK_V, -0.1))
    };
    assert!(matches!(s.tick(p, TICK), Action::Idle));
    assert_eq!(s.inhibit(), Some(InhibitReason::SettingsDrift));
    assert_eq!(s.fault(), None);

    let a = ok_tick(&mut s, b(LOW_V, -0.1), TICK);
    assert!(matches!(
        a,
        Action::EnableOutput(ref t) if t.resume_absorb() == true
    ));
    assert_eq!(s.inhibit(), None);
}

#[test]
fn bring_up_pending_no_battery_inhibits_indefinitely() {
    let mut s = supervisor(lfp_4s());
    for _ in 0..(BATTERY_MISSING_TIMEOUT.as_secs() - 1) {
        let a = ok_tick(&mut s, None, TICK);
        assert!(matches!(a, Action::Idle));
        assert_eq!(s.inhibit(), Some(InhibitReason::NoBatterySample));
    }
    let a = ok_tick(&mut s, None, TICK);
    assert!(matches!(a, Action::Idle));
    assert_eq!(s.inhibit(), Some(InhibitReason::BatterySensorStale));
    assert_eq!(s.fault(), None);

    for _ in 0..(BATTERY_MISSING_TIMEOUT.as_secs() * 2) {
        assert!(matches!(ok_tick(&mut s, None, TICK), Action::Idle));
        assert_eq!(s.fault(), None);
    }

    let a = ok_tick(&mut s, b(LOW_V, -0.1), TICK);
    assert!(matches!(
        a,
        Action::EnableOutput(ref t) if t.resume_absorb() == true
    ));
    assert_eq!(s.inhibit(), None);
}

#[test]
fn bring_up_pending_does_not_enable_without_setpoint_readback() {
    let mut s = supervisor(lfp_4s());
    let p = PollResult {
        setpoints: None,
        output: None,
        battery: b(OK_V, -0.1),
        pack_temp_c: Some(TEST_PACK_TEMP_C),
    };
    for _ in 0..(MODBUS_UNHEALTHY_TIMEOUT.as_secs() - 1) {
        assert!(matches!(s.tick(p, TICK), Action::Idle));
    }
    let p_ok = expected_poll(&s, b(OK_V, -0.1));
    assert!(matches!(s.tick(p_ok, TICK), Action::EnableOutput { .. }));
}

#[test]
fn bring_up_buck_output_off_in_pending_does_not_fault() {
    let mut s = supervisor(lfp_4s());
    let a = s.tick(expected_poll(&s, b(OK_V, -0.1)), TICK);
    assert!(matches!(a, Action::EnableOutput { .. }));
    assert_eq!(s.fault(), None);
}

#[test]
fn bring_up_pending_does_not_enter_absorb_even_at_high_charge_current() {
    let profile = lfp_4s();
    let mut s = supervisor(profile);
    let high_current = -10.0;
    let battery = b(profile.float_v, high_current);
    let a = s.tick(expected_poll(&s, battery), TICK);
    assert_eq!(s.state(), ChargeState::Boot);
    accept_enable(&mut s, a);
    let a = s.tick(expected_poll(&s, battery), TICK);
    assert!(matches!(a, Action::UpdateVoltage(ref t) if approx(t.target_v, profile.absorb_v)));
}

#[test]
fn faults_nan_or_inf_in_sample_treated_as_missing() {
    let mut s = active(lfp_4s());
    for v in [f32::NAN, f32::INFINITY, f32::NEG_INFINITY] {
        assert!(matches!(ok_tick(&mut s, b(OK_V, v), TICK), Action::Idle));
        assert!(matches!(ok_tick(&mut s, b(v, -1.0), TICK), Action::Idle));
    }
    assert_eq!(s.state(), ChargeState::Float);
    assert_eq!(s.fault(), None);
}

#[test]
fn faults_nan_voltage_eventually_latches_battery_stale() {
    let mut s = active(lfp_4s());
    for _ in 0..(BATTERY_MISSING_TIMEOUT.as_secs() - 1) {
        assert!(matches!(
            ok_tick(&mut s, b(f32::NAN, -0.1), TICK),
            Action::Idle
        ));
    }
    assert_eq!(s.fault(), None);
    let a = ok_tick(&mut s, b(f32::NAN, -0.1), TICK);
    assert!(matches_disable(&a, FaultReason::BatterySensorStale));
}

#[test]
fn faults_nan_current_eventually_latches_battery_stale() {
    let mut s = active(lfp_4s());
    for _ in 0..(BATTERY_MISSING_TIMEOUT.as_secs() - 1) {
        ok_tick(&mut s, b(OK_V, f32::NAN), TICK);
    }
    assert_eq!(s.fault(), None);
    let a = ok_tick(&mut s, b(OK_V, f32::NAN), TICK);
    assert!(matches_disable(&a, FaultReason::BatterySensorStale));
}

#[test]
fn faults_nan_then_recovery_clears_stale_debounce() {
    let mut s = active(lfp_4s());
    for _ in 0..(BATTERY_MISSING_TIMEOUT.as_secs() - 1) {
        ok_tick(&mut s, b(f32::NAN, f32::NAN), TICK);
    }
    ok_tick(&mut s, b(OK_V, -0.1), TICK);
    for _ in 0..(BATTERY_MISSING_TIMEOUT.as_secs() - 1) {
        ok_tick(&mut s, b(f32::NAN, -0.1), TICK);
    }
    assert_eq!(s.fault(), None);
}

#[test]
fn ov_trip_accumulates_elapsed_time_not_tick_count() {
    let ms = Duration::from_millis;
    let cases: [(&str, &[Duration]); 2] = [
        ("6 x 500 ms = 3.0 s", &[ms(500); 6]),
        ("1500 + 1000 + 600 = 3100 ms", &[ms(1500), ms(1000), ms(600)]),
    ];
    for (label, steps) in cases {
        let mut s = active(lfp_4s());
        let (trip, before) = steps.split_last().expect("each row trips on its last tick");
        for step in before {
            let a = ok_tick(&mut s, b(14.7, -0.1), *step);
            assert!(matches!(a, Action::Idle), "{label}: tripped early");
        }
        assert!(
            matches_disable(&ok_tick(&mut s, b(14.7, -0.1), *trip), FaultReason::Overvoltage),
            "{label}: did not trip at the budget"
        );
    }
}

#[test]
fn faults_ov_below_threshold_does_not_trip() {
    let mut s = active(lfp_4s());
    for _ in 0..(OV_DURATION.as_secs() + 5) {
        ok_tick(&mut s, b(14.55, -0.1), TICK);
    }
    assert_eq!(s.fault(), None);
}

#[test]
fn debounced_faults_latch_only_after_their_full_window() {
    for c in DEBOUNCED_FAULTS {
        let mut s = active(lfp_4s());
        for _ in 0..(c.window.as_secs() - 1) {
            let a = (c.feed)(&mut s, TICK);
            assert!(matches!(a, Action::Idle), "{}: latched early", c.name);
        }
        assert_eq!(s.fault(), None, "{}", c.name);
        let a = (c.feed)(&mut s, TICK);
        assert!(matches_disable(&a, c.fault), "{}: no latch at the window", c.name);
        assert_eq!(s.fault(), Some(c.fault), "{}", c.name);

        let mut s = active(lfp_4s());
        let a = (c.feed)(&mut s, c.window);
        assert!(
            matches_disable(&a, c.fault),
            "{}: single big-elapsed tick did not latch",
            c.name
        );
    }
}

#[test]
fn debounced_faults_reset_on_a_single_healthy_tick() {
    for c in DEBOUNCED_FAULTS {
        let mut s = active(lfp_4s());
        for _ in 0..(c.window.as_secs() - 1) {
            (c.feed)(&mut s, TICK);
        }
        ok_tick(&mut s, b(OK_V, -0.1), TICK);
        for _ in 0..(c.window.as_secs() - 1) {
            let a = (c.feed)(&mut s, TICK);
            assert!(matches!(a, Action::Idle), "{}: window was not reset", c.name);
        }
        assert_eq!(s.fault(), None, "{}", c.name);
    }
}

#[test]
fn setpoint_drift_in_either_field_latches_immediately() {
    let drifted = [
        Setpoints { v_set: 12.0, i_set: 10.0 },
        Setpoints { v_set: 13.5, i_set: 5.0 },
    ];
    for sp in drifted {
        let mut s = active(lfp_4s());
        let p = PollResult {
            setpoints: Some(sp),
            ..expected_poll(&s, b(OK_V, -0.1))
        };
        assert!(
            matches_disable(&s.tick(p, TICK), FaultReason::SettingsDrift),
            "{sp:?}"
        );
    }
}

#[test]
fn faults_latch_keeps_emitting_disable_until_acked() {
    let mut s = active(lfp_4s());
    for _ in 0..BATTERY_MISSING_TIMEOUT.as_secs() {
        ok_tick(&mut s, None, TICK);
    }
    assert!(s.fault().is_some());

    let a = ok_tick(&mut s, b(13.5, -0.1), TICK);
    assert!(matches_disable(&a, FaultReason::BatterySensorStale));
    let a = ok_tick(&mut s, b(13.5, -0.1), TICK);
    assert!(matches_disable(&a, FaultReason::BatterySensorStale));

    accept_disable(&mut s, a);
    for _ in 0..10 {
        assert!(matches!(ok_tick(&mut s, b(13.5, -4.0), TICK), Action::Idle));
    }
}

#[test]
fn latched_supervisor_ignores_the_phase_machine() {
    let mut s = active(lfp_4s());
    for _ in 0..MODBUS_UNHEALTHY_TIMEOUT.as_secs() {
        fail_tick(&mut s, b(13.5, -0.1), TICK);
    }
    let a = ok_tick(&mut s, b(13.5, -0.1), TICK);
    accept_disable(&mut s, a);
    ok_tick(&mut s, b(13.5, -5.0), TICK);
    assert_eq!(s.state(), ChargeState::Latched);
}

#[test]
fn faults_first_fault_wins_over_simultaneous_conditions() {
    let mut s = active(lfp_4s());
    for _ in 0..MODBUS_UNHEALTHY_TIMEOUT.as_secs() {
        fail_tick(&mut s, None, TICK);
    }
    assert_eq!(s.fault(), Some(FaultReason::ModbusUnhealthy));
}

#[test]
fn faults_setpoint_within_tolerance_no_drift_fault() {
    let mut s = active(lfp_4s());
    let p = PollResult {
        setpoints: Some(Setpoints {
            v_set: 13.51,
            i_set: 10.0,
        }),
        ..expected_poll(&s, b(13.5, -0.1))
    };
    assert!(matches!(s.tick(p, TICK), Action::Idle));
    assert_eq!(s.fault(), None);
}

#[test]
fn faults_setpoint_drift_does_not_overwrite_existing_latch() {
    let mut s = active(lfp_4s());
    for _ in 0..MODBUS_UNHEALTHY_TIMEOUT.as_secs() {
        fail_tick(&mut s, b(13.5, -0.1), TICK);
    }
    assert_eq!(s.fault(), Some(FaultReason::ModbusUnhealthy));
    let p = PollResult {
        setpoints: Some(Setpoints {
            v_set: 12.0,
            i_set: 10.0,
        }),
        ..expected_poll(&s, b(13.5, -0.1))
    };
    assert!(matches_disable(
        &s.tick(p, TICK),
        FaultReason::ModbusUnhealthy
    ));
}

#[test]
fn faults_drift_outranks_overvoltage_while_regulating() {
    let mut s = active(lfp_4s());
    let absorb = lfp_4s().absorb_v;
    let p = PollResult {
        setpoints: Some(Setpoints {
            v_set: 12.0,
            i_set: 10.0,
        }),
        ..expected_poll(&s, b(absorb + OV_MARGIN_V + 0.5, -0.1))
    };
    assert!(matches_disable(
        &s.tick(p, TICK),
        FaultReason::SettingsDrift
    ));
}

#[test]
fn overcurrent_is_measured_on_the_pack_not_the_setpoint() {
    let profile = lfp_4s();
    let trip = profile.regulation_a * OVERCURRENT_TOL;

    let mut s = active(profile);
    for _ in 0..(OVERCURRENT_DURATION.as_secs() * 4) {
        ok_tick(&mut s, b(OK_V, -(trip - 0.1)), TICK);
    }
    assert_eq!(s.fault(), None, "{trip} A is the line, not below it");

    let mut s = active(profile);
    for _ in 0..(OVERCURRENT_DURATION.as_secs() - 1) {
        ok_tick(&mut s, b(OK_V, -(trip + 0.1)), TICK);
    }
    ok_tick(&mut s, b(OK_V, -1.0), TICK);
    for _ in 0..(OVERCURRENT_DURATION.as_secs() - 1) {
        ok_tick(&mut s, b(OK_V, -(trip + 0.1)), TICK);
    }
    assert_eq!(s.fault(), None, "the window did not reset");

    let wide = ChargeSupervisor::new(profile, profile.regulation_a * 2.0, PackTemp::Absent);
    let mut s = bring_up(wide, profile.absorb_v);
    for _ in 0..(OVERCURRENT_DURATION.as_secs() - 1) {
        ok_tick(&mut s, b(OK_V, -(trip + 0.1)), TICK);
    }
    assert_eq!(s.fault(), None);
    let a = ok_tick(&mut s, b(OK_V, -(trip + 0.1)), TICK);
    accept_park(&s, a, FaultReason::ChargeOvercurrent);
}

#[test]
fn discharge_is_never_an_overcurrent() {
    let mut s = active(lfp_4s());
    for _ in 0..(OVERCURRENT_DURATION.as_secs() * 4) {
        ok_tick(&mut s, b(OK_V, 40.0), TICK);
    }
    assert_eq!(s.fault(), None);
}

#[test]
fn output_disagreement_outranks_setpoint_drift() {
    let drifted = Some(Setpoints {
        v_set: 12.0,
        i_set: 10.0,
    });

    let mut s = active(lfp_4s());
    let p = PollResult {
        output: Some(BuckOutput::Off {
            cause: ProtectionStatus::Ocp,
        }),
        setpoints: drifted,
        battery: b(OK_V, -0.1),
        pack_temp_c: Some(TEST_PACK_TEMP_C),
    };
    assert!(matches_disable(
        &s.tick(p, TICK),
        FaultReason::OutputUnexpectedlyOff(ProtectionStatus::Ocp)
    ));

    let mut s = supervisor(lfp_4s());
    let p = PollResult {
        output: Some(BuckOutput::On),
        setpoints: drifted,
        battery: b(OK_V, -0.1),
        pack_temp_c: Some(TEST_PACK_TEMP_C),
    };
    assert!(matches_disable(
        &s.tick(p, TICK),
        FaultReason::OutputOnInPending
    ));
}

#[test]
fn faults_buck_self_disable_in_active_latches() {
    let mut s = active(lfp_4s());
    let p = poll_with_output(&s, BuckOutput::Off { cause: ProtectionStatus::Normal });
    assert!(matches_disable(
        &s.tick(p, TICK),
        FaultReason::OutputUnexpectedlyOff(ProtectionStatus::Normal)
    ));
}

#[test]
fn faults_latched_fault_stays_parked_in_none() {
    let mut s = active(lfp_4s());
    latch_self_disable(&mut s, ProtectionStatus::Ocp);
    let p = expected_poll(&s, b(OK_V, -0.1));
    for _ in 0..600 {
        assert!(matches!(s.tick(p, TICK), Action::Idle));
    }
    assert!(matches!(
        s.fault(),
        Some(FaultReason::OutputUnexpectedlyOff(ProtectionStatus::Ocp))
    ));
}

#[test]
fn latched_supervisor_re_disables_a_resurfaced_output() {
    let mut s = active(lfp_4s());
    latch_self_disable(&mut s, ProtectionStatus::Ocp);
    let fault = FaultReason::OutputUnexpectedlyOff(ProtectionStatus::Ocp);
    drain_transitions(&mut s);

    for episode in 0..2 {
        let a = s.tick(poll_with_output(&s, BuckOutput::On), TICK);
        assert!(matches_disable(&a, fault), "episode {episode}");
        let a = s.tick(poll_with_output(&s, BuckOutput::On), TICK);
        assert!(matches_disable(&a, fault), "episode {episode}: no retry");
        accept_disable(&mut s, a);
        assert_eq!(s.state(), ChargeState::Latched, "episode {episode}");
        let p = poll_with_output(
            &s,
            BuckOutput::Off {
                cause: ProtectionStatus::Normal,
            },
        );
        assert!(matches!(s.tick(p, TICK), Action::Idle), "episode {episode}");
        assert_eq!(s.fault(), Some(fault), "episode {episode}");
    }

    assert_eq!(
        drain_transitions(&mut s),
        [ChargeTransition::Latched, ChargeTransition::Latched],
        "a buck that keeps resurfacing must keep showing up in the log"
    );
}

#[test]
fn faults_buck_output_on_in_pending_latches() {
    let mut s = supervisor(lfp_4s());
    let p = poll_with_output(&s, BuckOutput::On);
    assert!(matches_disable(
        &s.tick(p, TICK),
        FaultReason::OutputOnInPending
    ));
}

#[test]
fn faults_boot_pending_with_buck_on_still_latches() {
    let mut s = supervisor(lfp_4s());
    let p_on = poll_with_output(&s, BuckOutput::On);
    assert!(matches_disable(
        &s.tick(p_on, TICK),
        FaultReason::OutputOnInPending
    ));
}

#[test]
fn labels_are_the_snake_case_wire_identifiers() {
    let faults: [(FaultReason, &str); 10] = [
        (FaultReason::BatterySensorStale, "battery_sensor_stale"),
        (FaultReason::ModbusUnhealthy, "modbus_unhealthy"),
        (FaultReason::Overvoltage, "overvoltage"),
        (FaultReason::AbsorbTimeout, "absorb_timeout"),
        (FaultReason::ChargeTimeout, "charge_timeout"),
        (FaultReason::ChargeOvercurrent, "charge_overcurrent"),
        (FaultReason::ProtectionFlapping, "protection_flapping"),
        (FaultReason::SettingsDrift, "settings_drift"),
        (
            FaultReason::OutputUnexpectedlyOff(ProtectionStatus::Ovp),
            "output_unexpectedly_off",
        ),
        (FaultReason::OutputOnInPending, "output_on_in_pending"),
    ];
    for (reason, want) in faults {
        assert_eq!(reason.label(), want, "{reason:?}");
    }

    let inhibits: [(InhibitReason, &str); 6] = [
        (InhibitReason::SettingsDrift, "settings_drift"),
        (InhibitReason::ModbusUnhealthy, "modbus_unhealthy"),
        (InhibitReason::BatterySensorStale, "battery_sensor_stale"),
        (InhibitReason::NoBatterySample, "no_battery_sample"),
        (InhibitReason::Overvoltage, "overvoltage"),
        (
            InhibitReason::BuckProtection(ProtectionStatus::Lvp),
            "buck_protection",
        ),
    ];
    for (reason, want) in inhibits {
        assert_eq!(reason.label(), want, "{reason:?}");
    }

    assert_eq!(
        FaultReason::OutputUnexpectedlyOff(ProtectionStatus::Ovp).label(),
        FaultReason::OutputUnexpectedlyOff(ProtectionStatus::Otp).label()
    );
}

#[test]
fn a_cold_pack_is_never_energised() {
    let mut s = supervisor_with_temp_sensor(lfp_4s());
    let below = CHARGE_TEMP_MIN_C - 0.1;
    for _ in 0..20 {
        assert!(matches!(s.tick(poll_at(&s, Some(below)), TICK), Action::Idle));
        assert_eq!(s.inhibit(), Some(InhibitReason::PackTooCold));
        assert_eq!(s.fault(), None, "a cold pack must not burn a reboot");
    }
    let a = s.tick(poll_at(&s, Some(CHARGE_TEMP_MIN_C)), TICK);
    assert!(matches!(a, Action::EnableOutput(_)));
    assert_eq!(s.inhibit(), None);
}

#[test]
fn the_charge_window_is_a_closed_interval() {
    let cases: [(f32, Option<FaultReason>); 4] = [
        (CHARGE_TEMP_MIN_C - 0.1, Some(FaultReason::PackTooCold)),
        (CHARGE_TEMP_MIN_C, None),
        (CHARGE_TEMP_MAX_C, None),
        (CHARGE_TEMP_MAX_C + 0.1, Some(FaultReason::PackTooHot)),
    ];
    for (temp, want) in cases {
        let mut s = active_with_sensor(lfp_4s());
        let a = s.tick(poll_at(&s, Some(temp)), TICK);
        match want {
            Some(fault) => {
                assert!(matches_disable(&a, fault), "{temp} °C");
                assert!(!s.parked(), "{temp} °C: only a dark output stops it");
            }
            None => {
                assert!(matches!(a, Action::Idle), "{temp} °C must be chargeable");
                assert_eq!(s.fault(), None, "{temp} °C");
            }
        }
    }
}

#[test]
fn a_fitted_sensor_that_stops_reading_fails_closed() {
    let mut s = active_with_sensor(lfp_4s());
    for _ in 0..(PACK_TEMP_STALE_TIMEOUT.as_secs() - 1) {
        assert!(matches!(s.tick(poll_at(&s, None), TICK), Action::Idle));
    }
    assert_eq!(s.fault(), None);
    assert!(matches_disable(
        &s.tick(poll_at(&s, None), TICK),
        FaultReason::PackTempStale
    ));
}

#[test]
fn a_board_without_a_sensor_charges_regardless() {
    let mut s = active(lfp_4s());
    for temp in [None, Some(CHARGE_TEMP_MIN_C - 40.0), Some(CHARGE_TEMP_MAX_C + 40.0)] {
        for _ in 0..(PACK_TEMP_STALE_TIMEOUT.as_secs() + 5) {
            assert!(
                matches!(s.tick(poll_at(&s, temp), TICK), Action::Idle),
                "{temp:?}"
            );
        }
        assert_eq!(s.fault(), None, "{temp:?}");
        assert_eq!(s.inhibit(), None, "{temp:?}");
    }
}

#[test]
fn parking_stops_charging_without_dropping_the_load() {
    let profile = lfp_4s();
    let mut s = active(profile);
    park_on_absorb_timeout(&mut s);

    assert!(s.state().sourcing(), "the buck must stay up");
    assert_approx(s.target_voltage(), profile.float_v);
    assert_eq!(s.phase(), Some(Phase::Float));
    for _ in 0..10 {
        assert!(matches!(ok_tick(&mut s, b(OK_V, -0.1), TICK), Action::Idle));
    }
}

#[test]
fn a_parked_supervisor_does_not_charge_again() {
    let mut s = active(lfp_4s());
    park_on_absorb_timeout(&mut s);
    for _ in 0..10 {
        assert!(matches!(ok_tick(&mut s, b(OK_V, -8.0), TICK), Action::Idle));
    }
    assert_eq!(s.state(), ChargeState::Parked);
}

#[test]
fn a_second_park_class_fault_escalates_to_a_disable() {
    let profile = lfp_4s();
    let mut s = active(profile);
    park_on_absorb_timeout(&mut s);

    let over = profile.regulation_a * OVERCURRENT_TOL + 0.1;
    for _ in 0..(OVERCURRENT_DURATION.as_secs() - 1) {
        assert!(matches!(ok_tick(&mut s, b(OK_V, -over), TICK), Action::Idle));
    }
    assert!(matches_disable(
        &ok_tick(&mut s, b(OK_V, -over), TICK),
        FaultReason::ChargeOvercurrent
    ));
}

#[test]
fn a_control_loss_fault_while_parked_still_disables() {
    let mut s = active(lfp_4s());
    park_on_absorb_timeout(&mut s);
    for _ in 0..(MODBUS_UNHEALTHY_TIMEOUT.as_secs() - 1) {
        assert!(matches!(fail_tick(&mut s, b(OK_V, -0.1), TICK), Action::Idle));
    }
    assert!(matches_disable(
        &fail_tick(&mut s, b(OK_V, -0.1), TICK),
        FaultReason::ModbusUnhealthy
    ));
}

#[test]
fn a_parked_buck_waits_out_a_protection_and_comes_back_parked() {
    let mut s = active(lfp_4s());
    park_on_absorb_timeout(&mut s);
    drain_transitions(&mut s);

    assert!(matches!(sag(&mut s), Action::Idle), "a park must not latch here");
    assert_eq!(s.state(), ChargeState::HoldParked);
    assert!(!s.parked(), "the output is down, so the load is not being fed");
    assert_eq!(s.fault(), Some(FaultReason::AbsorbTimeout));
    assert_eq!(
        s.inhibit(),
        Some(InhibitReason::BuckProtection(ProtectionStatus::Lvp))
    );

    assert!(matches!(recover(&mut s), Action::Idle));
    assert_eq!(s.state(), ChargeState::Parked);
    assert!(s.parked());
    assert_eq!(
        s.fault(),
        Some(FaultReason::AbsorbTimeout),
        "the park's fault must survive the hold"
    );
    for _ in 0..5 {
        assert!(matches!(ok_tick(&mut s, b(OK_V, -8.0), TICK), Action::Idle));
    }
    assert_eq!(s.state(), ChargeState::Parked);
    assert_eq!(
        drain_transitions(&mut s),
        [ChargeTransition::ProtectHold, ChargeTransition::ProtectCleared],
        "a hold out of a park reads as a protection story, not a fresh park"
    );
}

#[test]
fn a_park_mid_step_down_latches_rather_than_holding() {
    let mut s = active(lfp_4s());
    enter_absorb(&mut s);
    let p = expected_poll(&s, b(CV_V, -3.0));
    assert!(matches!(s.tick(p, MAX_ABSORB), Action::UpdateVoltage(_)));
    assert_eq!(s.state(), ChargeState::ToParked);
    assert!(matches_disable(
        &sag(&mut s),
        FaultReason::OutputUnexpectedlyOff(ProtectionStatus::Lvp)
    ));
}

#[test]
fn a_park_is_one_entry_in_the_log() {
    let mut s = active(lfp_4s());
    drain_transitions(&mut s);
    park_on_absorb_timeout(&mut s);
    assert_eq!(drain_transitions(&mut s), [ChargeTransition::Parked]);
}

#[test]
fn profile_lfp_4s_50ah_matches_hand_calculation() {
    let p = Profile::for_pack(Chemistry::LiFePo4, 4, 50.0);
    assert_approx(p.absorb_v, 14.40);
    assert_approx(p.float_v, 13.50);
    assert_approx(p.regulation_a, 10.00);
    assert_approx(p.enter_absorb_a, 3.00);
    assert_approx(p.exit_absorb_a, 2.50);
    let s = p.buck_setup(TEST_SUPPLY).limits;
    assert_approx(s.ovp_v, 15.00);
    assert_approx(s.ocp_a, 15.00);
    assert_approx(s.lvp_v, 22.00);
    assert!(p.absorb_v > p.float_v);
    assert!(p.regulation_a > p.enter_absorb_a);
    assert!(p.enter_absorb_a > p.exit_absorb_a);
    assert!(s.ovp_v > p.absorb_v + OV_MARGIN_V);
}

#[test]
fn profile_lfp_top_balance_uses_manufacturer_max() {
    let p = Profile::for_pack(Chemistry::LiFePo4TopBalance, 4, 50.0);
    assert_approx(p.absorb_v, 14.6);
    assert_approx(p.float_v, 13.5);
}

#[test]
fn profile_liion_3s_voltages_match_known_setpoints() {
    let p = Profile::for_pack(Chemistry::LiIon, 3, 50.0);
    assert_approx(p.absorb_v, 12.3);
    assert_approx(p.float_v, 12.0);
}

#[test]
fn profile_voltages_scale_with_cell_count() {
    let p1 = Profile::for_pack(Chemistry::LiFePo4, 1, 50.0);
    let p4 = Profile::for_pack(Chemistry::LiFePo4, 4, 50.0);
    let p16 = Profile::for_pack(Chemistry::LiFePo4, 16, 50.0);
    assert_approx(p1.absorb_v, 3.60);
    assert_approx(p4.absorb_v, 3.60 * 4.0);
    assert_approx(p16.absorb_v, 3.60 * 16.0);
    assert_approx(p1.float_v, 3.375);
    assert_approx(p4.float_v, 3.375 * 4.0);
    assert_approx(p16.float_v, 3.375 * 16.0);
}

#[test]
fn profile_currents_scale_with_capacity_not_cells() {
    let p4 = Profile::for_pack(Chemistry::LiFePo4, 4, 50.0);
    let p16 = Profile::for_pack(Chemistry::LiFePo4, 16, 50.0);
    assert_approx(p4.regulation_a, p16.regulation_a);
    assert_approx(p4.enter_absorb_a, p16.enter_absorb_a);
    assert_approx(p4.exit_absorb_a, p16.exit_absorb_a);
    let p100 = Profile::for_pack(Chemistry::LiFePo4, 4, 100.0);
    assert_approx(p100.regulation_a, 2.0 * p4.regulation_a);
    assert_approx(p100.enter_absorb_a, 2.0 * p4.enter_absorb_a);
    assert_approx(p100.exit_absorb_a, 2.0 * p4.exit_absorb_a);
}

#[test]
fn largest_pack_the_buck_can_charge() {
    let p = Profile::for_pack(Chemistry::LiFePo4, 4, 90.0);
    assert_approx(p.regulation_a, 18.0);
    let s = p.buck_setup(TEST_SUPPLY).limits;
    assert_approx(s.ocp_a, 27.0);
}

#[test]
fn load_budget_widens_i_set_and_ocp() {
    let p = Profile::for_pack(Chemistry::LiFePo4, 4, 50.0);
    let unloaded = p.buck_setup(TEST_SUPPLY);
    let loaded = p.buck_setup(SupplyBudget {
        load_a: 5.0,
        ..TEST_SUPPLY
    });
    assert_approx(unloaded.i_set_a, 10.0);
    assert_approx(loaded.i_set_a, 15.0);
    assert_approx(unloaded.limits.ocp_a, 15.0);
    assert_approx(loaded.limits.ocp_a, 22.5);
    assert_approx(unloaded.limits.ovp_v, loaded.limits.ovp_v);
    assert_approx(unloaded.limits.lvp_v, loaded.limits.lvp_v);
}

#[test]
fn profile_safety_limits_track_chemistry_change() {
    let s = Profile::for_pack(Chemistry::LiFePo4TopBalance, 4, 50.0).buck_setup(TEST_SUPPLY).limits;
    assert_approx(s.ovp_v, 15.2);
    assert!(s.ovp_v > 14.6, "OVP must clear absorb_v");
}

#[test]
fn profile_safety_limits_track_cell_count_change() {
    let s4 = Profile::for_pack(Chemistry::LiFePo4, 4, 50.0).buck_setup(TEST_SUPPLY).limits;
    let s8 = Profile::for_pack(Chemistry::LiFePo4, 8, 50.0).buck_setup(TEST_SUPPLY).limits;
    assert!(s8.ovp_v > s4.ovp_v, "OVP scales with cell count");
    assert_approx(s4.ocp_a, s8.ocp_a);
    assert_approx(s4.lvp_v, s8.lvp_v);
}

#[test]
fn profile_safety_limits_ovp_clears_supervisor_threshold() {
    for (chem, cells) in [
        (Chemistry::LiFePo4, 4),
        (Chemistry::LiFePo4TopBalance, 4),
        (Chemistry::LiIon, 3),
    ] {
        let p = Profile::for_pack(chem, cells, 50.0);
        let s = p.buck_setup(TEST_SUPPLY).limits;
        let supervisor_trip = p.absorb_v + OV_MARGIN_V;
        assert!(
            s.ovp_v > supervisor_trip,
            "ovp {} must exceed supervisor trip {}",
            s.ovp_v,
            supervisor_trip
        );
    }
}

#[test]
fn profile_different_chemistries_yield_different_setpoints() {
    let mut lfp = active(Profile::for_pack(Chemistry::LiFePo4, 4, 50.0));
    let mut liion = active(Profile::for_pack(Chemistry::LiIon, 3, 50.0));
    assert!(matches!(
        ok_tick(&mut lfp, b(OK_V, -4.0), TICK),
        Action::UpdateVoltage { .. }
    ));
    assert!(matches!(
        ok_tick(&mut liion, b(12.0, -4.0), TICK),
        Action::UpdateVoltage { .. }
    ));
    assert_approx(lfp.target_voltage(), 14.4);
    assert_approx(liion.target_voltage(), 12.3);
}

#[test]
fn profile_single_cell_lfp_works() {
    let mut s = active(Profile::for_pack(Chemistry::LiFePo4, 1, 50.0));
    assert_approx(s.target_voltage(), 3.375);
    assert!(matches!(
        ok_tick(&mut s, b(3.4, -4.0), TICK),
        Action::UpdateVoltage { .. }
    ));
    assert_approx(s.target_voltage(), 3.60);
}

#[test]
fn phase_changes_are_not_latch_transitions() {
    let mut s = active(lfp_4s());
    while s.pop_transition().is_some() {}
    enter_absorb(&mut s);
    assert_eq!(s.state(), ChargeState::Absorb);
    assert_eq!(s.pop_transition(), None);
}

#[test]
fn a_rail_that_keeps_sagging_latches() {
    let mut s = active(lfp_4s());
    for _ in 0..charging::MAX_HOLDS {
        assert!(matches!(sag(&mut s), Action::Idle));
        assert!(matches!(recover(&mut s), Action::Idle));
        assert_eq!(s.fault(), None);
    }
    assert!(matches!(sag(&mut s), Action::Idle));
    assert_eq!(s.state(), ChargeState::HoldFloat);
    assert!(matches_disable(&recover(&mut s), FaultReason::ProtectionFlapping));
}

#[test]
fn a_quiet_stretch_forgives_earlier_sags() {
    let mut s = active(lfp_4s());
    for _ in 0..charging::MAX_HOLDS {
        sag(&mut s);
        recover(&mut s);
    }
    quiet(&mut s, FLAP_WINDOW);
    quiet(&mut s, TICK);
    for _ in 0..charging::MAX_HOLDS {
        sag(&mut s);
        recover(&mut s);
    }
    assert_eq!(s.fault(), None);
    assert_eq!(s.state(), ChargeState::Float);
}

#[test]
fn a_fitted_sensor_without_a_reading_is_waited_for_at_bring_up() {
    let mut s = supervisor_with_temp_sensor(lfp_4s());
    let p = PollResult { pack_temp_c: None, ..expected_poll(&s, b(OK_V, -0.1)) };
    for _ in 0..30 {
        assert!(matches!(s.tick(p, TICK), Action::Idle));
        assert_eq!(s.inhibit(), Some(InhibitReason::PackTempStale));
    }
    let p = PollResult { pack_temp_c: Some(f32::NAN), ..p };
    assert!(matches!(s.tick(p, TICK), Action::Idle));
    assert_eq!(s.fault(), None);
    assert!(matches!(
        ok_tick(&mut s, b(OK_V, -0.1), TICK),
        Action::EnableOutput(_)
    ));
}

#[test]
fn a_hot_pack_waits_at_bring_up() {
    let mut s = supervisor_with_temp_sensor(lfp_4s());
    let p = PollResult {
        pack_temp_c: Some(CHARGE_TEMP_MAX_C + 1.0),
        ..expected_poll(&s, b(OK_V, -0.1))
    };
    assert!(matches!(s.tick(p, TICK), Action::Idle));
    assert_eq!(s.inhibit(), Some(InhibitReason::PackTooHot));
}
