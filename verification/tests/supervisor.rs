use battery_logic::charging::{self, TRANSITION_BUFFER};
use battery_logic::{
    BuckOutput, ChargeTransition, Chemistry, DisableTicket, EnableTicket, FaultReason,
    InhibitReason, Phase, ProtectionStatus, VoltageWriteOutcome, VoltageWriter, XyError, F32,
};
use std::time::Duration;

fn f(x: f32) -> F32 {
    F32::from_bits(x.to_bits())
}

fn v(x: F32) -> f32 {
    f32::from_bits(x.to_bits())
}

fn span(d: Duration) -> battery_logic::Duration {
    battery_logic::Duration { nanos: d.as_nanos() }
}

const OV_MARGIN_V: f32 = f32::from_bits(charging::OV_MARGIN_V);
const OV_DURATION: Duration = Duration::from_secs(charging::OV_DURATION);
const MAX_ABSORB: Duration = Duration::from_secs(charging::MAX_ABSORB);
const EXIT_DEBOUNCE: Duration = Duration::from_secs(charging::EXIT_DEBOUNCE);
const BATTERY_MISSING_TIMEOUT: Duration = Duration::from_secs(charging::BATTERY_MISSING_TIMEOUT);
const MODBUS_UNHEALTHY_TIMEOUT: Duration = Duration::from_secs(charging::MODBUS_UNHEALTHY_TIMEOUT);

#[derive(Copy, Clone, Debug)]
struct SafetyLimits {
    lvp_v: f32,
    ovp_v: f32,
    ocp_a: f32,
}

#[derive(Copy, Clone, Debug)]
struct Profile {
    chemistry: Chemistry,
    cells: u8,
    capacity_ah: f32,
    absorb_v: f32,
    float_v: f32,
    regulation_a: f32,
    enter_absorb_a: f32,
    exit_absorb_a: f32,
}

impl Profile {
    fn for_pack(chemistry: Chemistry, cells: u8, capacity_ah: f32) -> Self {
        assert!(battery_logic::Profile::pack_fits(chemistry, cells, f(capacity_ah)));
        let p = battery_logic::Profile::for_pack(chemistry, cells, f(capacity_ah));
        Self {
            chemistry: p.chemistry,
            cells: p.cells,
            capacity_ah: v(p.capacity_ah),
            absorb_v: v(p.absorb_v),
            float_v: v(p.float_v),
            regulation_a: v(p.regulation_a),
            enter_absorb_a: v(p.enter_absorb_a),
            exit_absorb_a: v(p.exit_absorb_a),
        }
    }

    fn bits(self) -> battery_logic::Profile {
        battery_logic::Profile {
            chemistry: self.chemistry,
            cells: self.cells,
            capacity_ah: f(self.capacity_ah),
            absorb_v: f(self.absorb_v),
            float_v: f(self.float_v),
            regulation_a: f(self.regulation_a),
            enter_absorb_a: f(self.enter_absorb_a),
            exit_absorb_a: f(self.exit_absorb_a),
        }
    }

    fn safety_limits(&self, input_nominal_v: f32) -> SafetyLimits {
        let l = self.bits().safety_limits(f(input_nominal_v));
        SafetyLimits { lvp_v: v(l.lvp_v), ovp_v: v(l.ovp_v), ocp_a: v(l.ocp_a) }
    }
}

#[derive(Copy, Clone, Debug)]
struct Setpoints {
    v_set: f32,
    i_set: f32,
}

impl Setpoints {
    fn bits(self) -> battery_logic::Setpoints {
        battery_logic::Setpoints { v_set: f(self.v_set), i_set: f(self.i_set) }
    }
}

#[derive(Copy, Clone, Debug)]
struct BatterySample {
    voltage: f32,
    current: f32,
}

impl BatterySample {
    fn bits(self) -> battery_logic::BatterySample {
        battery_logic::BatterySample { voltage: f(self.voltage), current: f(self.current) }
    }
}

#[derive(Copy, Clone, Debug)]
struct PollResult {
    battery: Option<BatterySample>,
    setpoints: Option<Setpoints>,
    output: Option<BuckOutput>,
}

impl PollResult {
    fn bits(self) -> battery_logic::PollResult {
        battery_logic::PollResult {
            battery: self.battery.map(BatterySample::bits),
            setpoints: self.setpoints.map(Setpoints::bits),
            output: self.output,
        }
    }
}

/// A voltage ticket, or after committing it an echo of what it said.
#[derive(Debug)]
struct VoltageTicket {
    target_v: f32,
    cycle_output: bool,
    inner: Option<battery_logic::VoltageTicket>,
}

#[derive(Debug)]
enum Action {
    Idle,
    EnableOutput(EnableTicket),
    UpdateVoltage(VoltageTicket),
    DisableOutput(DisableTicket),
}

fn wrap(a: battery_logic::Action) -> Action {
    match a {
        battery_logic::Action::Idle => Action::Idle,
        battery_logic::Action::EnableOutput(t) => Action::EnableOutput(t),
        battery_logic::Action::UpdateVoltage(t) => Action::UpdateVoltage(VoltageTicket {
            target_v: v(t.target_v()),
            cycle_output: t.cycle_output(),
            inner: Some(t),
        }),
        battery_logic::Action::DisableOutput(t) => Action::DisableOutput(t),
    }
}

struct ChargeSupervisor(battery_logic::ChargeSupervisor);

impl ChargeSupervisor {
    fn new(profile: Profile) -> Self {
        Self(battery_logic::ChargeSupervisor::new(profile.bits()))
    }

    fn phase(&self) -> Phase {
        self.0.phase()
    }

    fn active_phase(&self) -> Option<Phase> {
        self.0.active_phase()
    }

    fn fault(&self) -> Option<FaultReason> {
        self.0.fault()
    }

    fn inhibit(&self) -> Option<InhibitReason> {
        self.0.inhibit()
    }

    fn is_pending(&self) -> bool {
        self.0.is_pending()
    }

    fn is_active(&self) -> bool {
        self.0.is_active()
    }

    fn target_voltage(&self) -> f32 {
        v(self.0.target_voltage())
    }

    fn expected_setpoints(&self) -> Setpoints {
        let sp = self.0.expected_setpoints();
        Setpoints { v_set: v(sp.v_set), i_set: v(sp.i_set) }
    }

    fn pop_transition(&mut self) -> Option<ChargeTransition> {
        self.0.pop_transition()
    }

    fn tick(&mut self, p: PollResult, elapsed: Duration) -> Action {
        wrap(self.0.tick(p.bits(), span(elapsed)))
    }

    fn commit_enable(&mut self, ticket: EnableTicket) {
        self.0.commit_enable(ticket);
    }

    fn commit_voltage(&mut self, ticket: VoltageTicket) {
        self.0.commit_voltage(ticket.inner.expect("a ticket that was not committed"));
    }

    fn commit_disable(&mut self, ticket: DisableTicket) {
        self.0.commit_disable(ticket);
    }
}

#[derive(Default)]
struct MockWriter {
    set_output_calls: Vec<bool>,
    set_voltage_calls: Vec<f32>,
    fail_set_output_at: Vec<usize>,
    fail_set_voltage_at: Vec<usize>,
}

impl VoltageWriter for MockWriter {
    type BusError = xy_modbus::RtuError;

    fn set_voltage(&mut self, volts: F32) -> Result<(), xy_modbus::RtuError> {
        let idx = self.set_voltage_calls.len();
        self.set_voltage_calls.push(v(volts));
        if self.fail_set_voltage_at.contains(&idx) {
            Err(xy_modbus::RtuError::Timeout)
        } else {
            Ok(())
        }
    }

    fn set_output(&mut self, on: bool) -> Result<(), xy_modbus::RtuError> {
        let idx = self.set_output_calls.len();
        self.set_output_calls.push(on);
        if self.fail_set_output_at.contains(&idx) {
            Err(xy_modbus::RtuError::Timeout)
        } else {
            Ok(())
        }
    }
}

fn apply_update_voltage(
    xy: &mut MockWriter,
    ticket: &VoltageTicket,
    settle: impl FnOnce(),
    on_error: impl FnMut(XyError),
) -> VoltageWriteOutcome {
    let mut errors = Vec::new();
    let ticket = ticket.inner.as_ref().expect("a ticket that was not committed");
    let outcome = battery_logic::apply_update_voltage(xy, ticket, |_| settle(), &mut errors);
    errors.into_iter().for_each(on_error);
    outcome
}

fn lfp_4s() -> Profile {
    Profile::for_pack(Chemistry::LiFePo4, 4, 50.0)
}

fn approx(a: f32, b: f32) -> bool {
    (a - b).abs() < 1e-4
}

fn assert_approx(actual: f32, expected: f32) {
    assert!(
        approx(actual, expected),
        "{actual} != {expected}"
    );
}

const OK_V: f32 = 13.5;

const CV_V: f32 = 14.4;

const TICK: Duration = Duration::from_secs(1);

fn b(voltage: f32, current: f32) -> Option<BatterySample> {
    Some(BatterySample { voltage, current })
}

fn matches_disable(a: &Action, expected: FaultReason) -> bool {
    matches!(a, Action::DisableOutput(t) if t.reason() == expected)
}

fn accept_enable(s: &mut ChargeSupervisor, a: Action) -> bool {
    let Action::EnableOutput(ticket) = a else {
        panic!("expected EnableOutput, got {a:?}");
    };
    let resume_absorb = ticket.resume_absorb();
    s.commit_enable(ticket);
    resume_absorb
}

fn expected_output(s: &ChargeSupervisor) -> BuckOutput {
    if s.is_active() {
        BuckOutput::On
    } else {
        BuckOutput::Off { cause: ProtectionStatus::Normal }
    }
}

fn expected_poll(s: &ChargeSupervisor, battery: Option<BatterySample>) -> PollResult {
    PollResult {
        setpoints: Some(s.expected_setpoints()),
        output: Some(expected_output(s)),
        battery,
    }
}

fn ok_tick(s: &mut ChargeSupervisor, battery: Option<BatterySample>, elapsed: Duration) -> Action {
    let a = s.tick(expected_poll(s, battery), elapsed);
    if let Action::UpdateVoltage(ticket) = a {
        let echo = VoltageTicket {
            target_v: ticket.target_v,
            cycle_output: ticket.cycle_output,
            inner: None,
        };
        s.commit_voltage(ticket);
        return Action::UpdateVoltage(echo);
    }
    a
}

fn active(profile: Profile) -> ChargeSupervisor {
    let mut s = ChargeSupervisor::new(profile);
    let a = ok_tick(&mut s, b(profile.absorb_v, -0.1), TICK);
    assert!(!accept_enable(&mut s, a), "full pack must not resume Absorb");
    assert_eq!(s.phase(), Phase::Float);
    s
}

fn enter_absorb(s: &mut ChargeSupervisor) {
    assert!(matches!(
        ok_tick(s, b(OK_V, -4.0), TICK),
        Action::UpdateVoltage { .. }
    ));
    assert_eq!(s.phase(), Phase::Absorb);
}

fn poll_with_output(s: &ChargeSupervisor, output: BuckOutput) -> PollResult {
    PollResult {
        output: Some(output),
        setpoints: Some(s.expected_setpoints()),
        battery: b(OK_V, -0.1),
    }
}

const SELF_CLEARING: [ProtectionStatus; 2] = [ProtectionStatus::Lvp, ProtectionStatus::Otp];

fn drive_to_absorb_to_float_pending(s: &mut ChargeSupervisor) -> VoltageTicket {
    enter_absorb(s);
    let tapered = b(CV_V, -(lfp_4s().exit_absorb_a - 0.1));
    let p = expected_poll(s, tapered);
    for _ in 0..(EXIT_DEBOUNCE.as_secs() - 1) {
        assert!(matches!(s.tick(p, TICK), Action::Idle));
    }
    let Action::UpdateVoltage(ticket) = s.tick(p, TICK) else {
        panic!("expected Absorb→Float UpdateVoltage after EXIT_DEBOUNCE");
    };
    assert!(ticket.cycle_output, "Absorb→Float is a step DOWN");
    ticket
}

fn drive_to_float_to_absorb_pending(s: &mut ChargeSupervisor) -> VoltageTicket {
    let p = expected_poll(s, b(OK_V, -4.0));
    let Action::UpdateVoltage(ticket) = s.tick(p, TICK) else {
        panic!("expected Float→Absorb UpdateVoltage");
    };
    assert!(!ticket.cycle_output, "Float→Absorb is a step UP");
    ticket
}

fn apply_ticket(
    s: &mut ChargeSupervisor,
    xy: &mut MockWriter,
    ticket: VoltageTicket,
) -> Vec<XyError> {
    let mut errs = Vec::new();
    let outcome = apply_update_voltage(xy, &ticket, || {}, |e| errs.push(e));
    if outcome == VoltageWriteOutcome::Committed {
        s.commit_voltage(ticket);
    }
    errs
}

struct Rng(u64);

impl Rng {
    fn new(seed: u64) -> Self {
        Self(seed | 1)
    }

    fn next(&mut self) -> u64 {
        self.0 ^= self.0 << 13;
        self.0 ^= self.0 >> 7;
        self.0 ^= self.0 << 17;
        self.0
    }

    fn below(&mut self, n: u64) -> u64 {
        self.next() % n
    }
}

fn random_poll(rng: &mut Rng, s: &ChargeSupervisor) -> PollResult {
    let profile = lfp_4s();
    let setpoints = match rng.below(1000) {
        0..=14 => None,
        15..=16 => Some(Setpoints {
            v_set: 12.0,
            i_set: profile.regulation_a,
        }),
        _ => Some(s.expected_setpoints()),
    };
    let battery = match rng.below(1000) {
        0..=19 => None,
        20..=24 => Some(BatterySample {
            voltage: f32::NAN,
            current: -1.0,
        }),
        _ => Some(BatterySample {
            voltage: 12.0 + (rng.below(400) as f32) / 100.0,
            current: -if rng.below(100) < 85 {
                (rng.below(260) as f32) / 100.0
            } else {
                (rng.below(1200) as f32) / 100.0
            },
        }),
    };
    let output = match rng.below(1000) {
        0 => None,
        1..=3 => Some(BuckOutput::Off {
            cause: match rng.below(4) {
                0 => ProtectionStatus::Lvp,
                1 => ProtectionStatus::Otp,
                2 => ProtectionStatus::Ovp,
                _ => ProtectionStatus::Normal,
            },
        }),
        _ => Some(expected_output(s)),
    };
    PollResult {
        setpoints,
        output,
        battery,
    }
}

#[test]
fn phase_machine_starts_in_float_at_float_voltage() {
    let s = ChargeSupervisor::new(lfp_4s());
    assert_eq!(s.phase(), Phase::Float);
    assert_approx(s.target_voltage(), 13.5);
}

#[test]
fn phase_machine_enters_absorb_when_charging_current_exceeds_threshold() {
    let mut s = active(lfp_4s());
    assert!(matches!(
        ok_tick(&mut s, b(OK_V, -4.0), TICK),
        Action::UpdateVoltage { .. }
    ));
    assert_eq!(s.phase(), Phase::Absorb);
    assert_approx(s.target_voltage(), 14.4);
}

#[test]
fn phase_machine_does_not_enter_absorb_at_exact_threshold() {
    let mut s = active(lfp_4s());
    assert!(matches!(ok_tick(&mut s, b(OK_V, -3.0), TICK), Action::Idle));
    assert_eq!(s.phase(), Phase::Float);
    assert!(matches!(
        ok_tick(&mut s, b(OK_V, -3.001), TICK),
        Action::UpdateVoltage { .. }
    ));
}

#[test]
fn phase_machine_discharge_current_does_not_enter_absorb() {
    let mut s = active(lfp_4s());
    assert!(matches!(ok_tick(&mut s, b(OK_V, 5.0), TICK), Action::Idle));
    assert_eq!(s.phase(), Phase::Float);
}

#[test]
fn phase_machine_stays_in_absorb_above_exit_threshold() {
    let mut s = active(lfp_4s());
    ok_tick(&mut s, b(OK_V, -4.0), TICK);
    assert!(matches!(ok_tick(&mut s, b(OK_V, -3.0), TICK), Action::Idle));
    assert!(matches!(ok_tick(&mut s, b(OK_V, -2.7), TICK), Action::Idle));
    assert!(matches!(ok_tick(&mut s, b(OK_V, -2.5), TICK), Action::Idle));
    assert_eq!(s.phase(), Phase::Absorb);
}

#[test]
fn phase_machine_exits_absorb_when_taper_drops_below_threshold() {
    let mut s = active(lfp_4s());
    ok_tick(&mut s, b(OK_V, -4.0), TICK);
    for _ in 0..(EXIT_DEBOUNCE.as_secs() - 1) {
        assert!(matches!(ok_tick(&mut s, b(OK_V, -2.4), TICK), Action::Idle));
    }
    assert!(matches!(
        ok_tick(&mut s, b(OK_V, -2.4), TICK),
        Action::UpdateVoltage { .. }
    ));
    assert_eq!(s.phase(), Phase::Float);
    assert_approx(s.target_voltage(), 13.5);
}

#[test]
fn phase_machine_exits_absorb_when_load_pulls_current() {
    let mut s = active(lfp_4s());
    ok_tick(&mut s, b(OK_V, -4.0), TICK);
    for _ in 0..(EXIT_DEBOUNCE.as_secs() - 1) {
        assert!(matches!(ok_tick(&mut s, b(OK_V, 3.0), TICK), Action::Idle));
    }
    assert!(matches!(
        ok_tick(&mut s, b(OK_V, 3.0), TICK),
        Action::UpdateVoltage { .. }
    ));
    assert_approx(s.target_voltage(), 13.5);
}

#[test]
fn phase_machine_sustained_recharge_drains_exit_gate() {
    let mut s = active(lfp_4s());
    ok_tick(&mut s, b(OK_V, -4.0), TICK);
    for _ in 0..(EXIT_DEBOUNCE.as_secs() - 1) {
        assert!(matches!(ok_tick(&mut s, b(OK_V, -2.4), TICK), Action::Idle));
    }
    for _ in 0..EXIT_DEBOUNCE.as_secs() {
        assert!(matches!(ok_tick(&mut s, b(OK_V, -4.0), TICK), Action::Idle));
    }
    assert_eq!(s.phase(), Phase::Absorb);
    for _ in 0..(EXIT_DEBOUNCE.as_secs() - 1) {
        assert!(matches!(ok_tick(&mut s, b(OK_V, -2.4), TICK), Action::Idle));
    }
    assert!(matches!(
        ok_tick(&mut s, b(OK_V, -2.4), TICK),
        Action::UpdateVoltage { .. }
    ));
    assert_eq!(s.phase(), Phase::Float);
}

#[test]
fn phase_machine_pulsing_current_still_exits_absorb() {
    let mut s = active(lfp_4s());
    ok_tick(&mut s, b(OK_V, -4.0), TICK);
    let pattern = [-6.0, -0.1, 0.2, -0.1];
    let mut exited_at = None;
    'outer: for cycle in 0..60 {
        for &i in &pattern {
            if matches!(
                ok_tick(&mut s, b(OK_V, i), TICK),
                Action::UpdateVoltage { .. }
            ) {
                exited_at = Some(cycle);
                break 'outer;
            }
        }
    }
    let cycle = exited_at.expect("pulsing pack never exited Absorb");
    assert!((25..40).contains(&cycle), "exited after {cycle} cycles");
    assert_eq!(s.phase(), Phase::Float);
    assert_approx(s.target_voltage(), 13.5);
}

#[test]
fn phase_machine_exit_debounce_does_not_accumulate_in_float() {
    let mut s = active(lfp_4s());
    for _ in 0..(EXIT_DEBOUNCE.as_secs() * 2) {
        assert!(matches!(ok_tick(&mut s, b(OK_V, -1.0), TICK), Action::Idle));
    }
    assert!(matches!(
        ok_tick(&mut s, b(OK_V, -4.0), TICK),
        Action::UpdateVoltage { .. }
    ));
    assert!(matches!(ok_tick(&mut s, b(OK_V, -2.4), TICK), Action::Idle));
    assert_eq!(s.phase(), Phase::Absorb);
}

#[test]
fn phase_machine_exit_debounce_honors_elapsed() {
    let mut s = active(lfp_4s());
    ok_tick(&mut s, b(OK_V, -4.0), TICK);
    assert!(matches!(
        ok_tick(&mut s, b(OK_V, -2.4), EXIT_DEBOUNCE),
        Action::UpdateVoltage { .. }
    ));
    assert_eq!(s.phase(), Phase::Float);
    assert_approx(s.target_voltage(), 13.5);
}

#[test]
fn phase_machine_hysteresis_no_flap_between_thresholds() {
    let mut s = active(lfp_4s());
    for _ in 0..10 {
        assert!(matches!(ok_tick(&mut s, b(OK_V, -2.7), TICK), Action::Idle));
    }
    assert_eq!(s.phase(), Phase::Float);
    ok_tick(&mut s, b(OK_V, -4.0), TICK);
    for _ in 0..10 {
        assert!(matches!(ok_tick(&mut s, b(OK_V, -2.7), TICK), Action::Idle));
    }
    assert_eq!(s.phase(), Phase::Absorb);
}

#[test]
fn phase_machine_returns_none_on_steady_state() {
    let mut s = active(lfp_4s());
    for _ in 0..100 {
        assert!(matches!(
            ok_tick(&mut s, b(OK_V, -0.05), TICK),
            Action::Idle
        ));
    }
}

#[test]
fn phase_machine_transition_only_emits_setpoint_once() {
    let mut s = active(lfp_4s());
    assert!(matches!(
        ok_tick(&mut s, b(OK_V, -4.0), TICK),
        Action::UpdateVoltage { .. }
    ));
    assert!(matches!(ok_tick(&mut s, b(OK_V, -4.0), TICK), Action::Idle));
    assert!(matches!(ok_tick(&mut s, b(OK_V, -5.0), TICK), Action::Idle));
}

#[test]
fn phase_machine_full_charge_cycle() {
    let mut s = active(lfp_4s());
    assert!(matches!(
        ok_tick(&mut s, b(OK_V, -8.0), TICK),
        Action::UpdateVoltage { .. }
    ));
    assert_approx(s.target_voltage(), 14.4);
    for &i in &[-7.0, -5.0, -3.5, -3.0, -2.7] {
        assert!(matches!(ok_tick(&mut s, b(OK_V, i), TICK), Action::Idle));
    }
    for _ in 0..(EXIT_DEBOUNCE.as_secs() - 1) {
        assert!(matches!(ok_tick(&mut s, b(OK_V, -2.4), TICK), Action::Idle));
    }
    assert!(matches!(
        ok_tick(&mut s, b(OK_V, -2.4), TICK),
        Action::UpdateVoltage { .. }
    ));
    assert_approx(s.target_voltage(), 13.5);
    for &i in &[-0.05, -0.02, 0.0, -2.0] {
        assert!(matches!(ok_tick(&mut s, b(OK_V, i), TICK), Action::Idle));
    }
}

#[test]
fn phase_machine_supervisor_passes_setpoint_through_on_phase_transition() {
    let mut s = active(lfp_4s());
    assert!(matches!(
        ok_tick(&mut s, b(13.5, -4.0), TICK),
        Action::UpdateVoltage { .. }
    ));
    assert_eq!(s.phase(), Phase::Absorb);
    assert_approx(s.target_voltage(), 14.4);
    assert_eq!(s.fault(), None);
}

#[test]
fn phase_machine_supervisor_returns_none_on_steady_state() {
    let mut s = active(lfp_4s());
    for _ in 0..50 {
        assert!(matches!(
            ok_tick(&mut s, b(13.5, -0.05), TICK),
            Action::Idle
        ));
    }
    assert_eq!(s.fault(), None);
}

#[test]
fn steady_healthy_polls_never_leave_float() {
    let mut s = active(lfp_4s());
    for tick in 0..(2 * EXIT_DEBOUNCE.as_secs()) {
        let a = ok_tick(&mut s, b(CV_V, -0.1), TICK);
        assert!(matches!(a, Action::Idle), "tick {tick}: {a:?}");
        assert_eq!(s.phase(), Phase::Float);
        assert_eq!(s.fault(), None);
    }
}

#[test]
fn self_clearing_protection_drops_to_pending_without_latching() {
    for cause in SELF_CLEARING {
        let mut s = active(lfp_4s());
        let a = s.tick(poll_with_output(&s, BuckOutput::Off { cause }), TICK);
        assert!(matches!(a, Action::Idle), "{cause:?}");
        assert_eq!(s.fault(), None, "{cause:?}");
        assert!(s.is_pending(), "{cause:?}");
    }
}

#[test]
fn self_clearing_protection_accepts_buck_auto_re_enable() {
    for cause in SELF_CLEARING {
        let mut s = active(lfp_4s());
        s.tick(poll_with_output(&s, BuckOutput::Off { cause }), TICK);
        assert!(s.is_pending(), "{cause:?}");

        let a = s.tick(poll_with_output(&s, BuckOutput::On), TICK);
        assert!(matches!(a, Action::Idle), "{cause:?}");
        assert_eq!(s.fault(), None, "{cause:?}");
        assert!(s.is_active(), "{cause:?}");
    }
}

#[test]
fn protection_recovery_pending_waits_for_lvp_to_clear_before_enable() {
    let mut s = active(lfp_4s());
    let p_lvp = poll_with_output(&s, BuckOutput::Off { cause: ProtectionStatus::Lvp });
    assert!(matches!(s.tick(p_lvp, TICK), Action::Idle));
    for _ in 0..120 {
        assert!(matches!(s.tick(p_lvp, TICK), Action::Idle));
    }
    assert_eq!(s.fault(), None);
    let p_clear = expected_poll(&s, b(OK_V, -0.1));
    let a = s.tick(p_clear, TICK);
    accept_enable(&mut s, a);
    assert!(s.is_active());
}

#[test]
fn protection_recovery_lvp_recovery_resumes_absorb_when_pack_below_plateau() {
    let profile = lfp_4s();
    let mut s = active(profile);
    let p_lvp = poll_with_output(&s, BuckOutput::Off { cause: ProtectionStatus::Lvp });
    s.tick(p_lvp, TICK);
    let drained = b(13.0, 0.0);
    let p_clear = PollResult {
        output: Some(BuckOutput::Off { cause: ProtectionStatus::Normal }),
        setpoints: Some(s.expected_setpoints()),
        battery: drained,
    };
    let a = s.tick(p_clear, TICK);
    assert!(accept_enable(&mut s, a));
    let p_active = PollResult {
        output: Some(BuckOutput::On),
        setpoints: Some(s.expected_setpoints()),
        battery: drained,
    };
    let a = s.tick(p_active, TICK);
    assert!(matches!(a, Action::UpdateVoltage(ref t) if approx(t.target_v, profile.absorb_v)));
}

#[test]
fn protection_recovery_pending_at_boot_with_lvp_waits() {
    let mut s = ChargeSupervisor::new(lfp_4s());
    let p_lvp = PollResult {
        output: Some(BuckOutput::Off {
            cause: ProtectionStatus::Lvp,
        }),
        setpoints: Some(s.expected_setpoints()),
        battery: b(OK_V, -0.1),
    };
    for _ in 0..30 {
        assert!(matches!(s.tick(p_lvp, TICK), Action::Idle));
    }
    assert_eq!(s.fault(), None);
    assert!(s.is_pending());
}

#[test]
fn protect_recovery_in_absorb_does_not_re_emit_its_own_voltage() {
    let profile = lfp_4s();
    let mut s = active(profile);
    enter_absorb(&mut s);
    assert_eq!(s.phase(), Phase::Absorb);

    let p_lvp = poll_with_output(&s, BuckOutput::Off {
        cause: ProtectionStatus::Lvp,
    });
    assert!(matches!(s.tick(p_lvp, TICK), Action::Idle));

    let drained = b(13.0, 0.0);
    let p_clear = PollResult {
        output: Some(BuckOutput::Off {
            cause: ProtectionStatus::Normal,
        }),
        setpoints: Some(s.expected_setpoints()),
        battery: drained,
    };
    let a = s.tick(p_clear, TICK);
    assert!(accept_enable(&mut s, a), "drained pack must ask to resume Absorb");

    let p_on = PollResult {
        output: Some(BuckOutput::On),
        setpoints: Some(s.expected_setpoints()),
        battery: drained,
    };
    let a = s.tick(p_on, TICK);
    assert!(
        !matches!(a, Action::UpdateVoltage(_)),
        "no-op voltage write emitted: {a:?}"
    );
    assert_eq!(s.phase(), Phase::Absorb);
    assert!(approx(s.expected_setpoints().v_set, profile.absorb_v));
}

#[test]
fn protect_hold_clears_the_overvoltage_window() {
    let profile = lfp_4s();
    let over = profile.absorb_v + OV_MARGIN_V + 0.1;
    let mut s = active(profile);

    for _ in 0..(OV_DURATION.as_secs() - 1) {
        assert!(matches!(ok_tick(&mut s, b(over, -0.1), TICK), Action::Idle));
        assert_eq!(s.fault(), None);
    }

    let p_lvp = poll_with_output(&s, BuckOutput::Off {
        cause: ProtectionStatus::Lvp,
    });
    assert!(matches!(s.tick(p_lvp, TICK), Action::Idle));
    let p_on = poll_with_output(&s, BuckOutput::On);
    assert!(matches!(s.tick(p_on, TICK), Action::Idle));

    for _ in 0..(OV_DURATION.as_secs() - 1) {
        assert!(matches!(ok_tick(&mut s, b(over, -0.1), TICK), Action::Idle));
        assert_eq!(s.fault(), None, "OV window carried across the hold");
    }
    assert!(matches_disable(
        &ok_tick(&mut s, b(over, -0.1), TICK),
        FaultReason::Overvoltage
    ));
}

#[test]
fn transitions_record_the_route_not_just_the_destination() {
    let mut s = ChargeSupervisor::new(lfp_4s());
    assert_eq!(s.pop_transition(), None, "nothing before the first tick");

    let a = ok_tick(&mut s, b(CV_V, -0.1), TICK);
    accept_enable(&mut s, a);
    assert_eq!(s.pop_transition(), Some(ChargeTransition::Energised));
    assert_eq!(s.pop_transition(), None, "drained");

    let p_lvp = poll_with_output(&s, BuckOutput::Off {
        cause: ProtectionStatus::Lvp,
    });
    assert!(matches!(s.tick(p_lvp, TICK), Action::Idle));
    assert_eq!(s.pop_transition(), Some(ChargeTransition::ProtectHold));

    let p_on = poll_with_output(&s, BuckOutput::On);
    assert!(matches!(s.tick(p_on, TICK), Action::Idle));
    assert_eq!(s.pop_transition(), Some(ChargeTransition::ProtectCleared));

    assert!(matches!(s.tick(p_lvp, TICK), Action::Idle));
    assert_eq!(s.pop_transition(), Some(ChargeTransition::ProtectHold));
    let a = ok_tick(&mut s, b(CV_V, -0.1), TICK);
    assert!(!accept_enable(&mut s, a), "pack at the plateau stays in Float");
    assert_eq!(s.pop_transition(), Some(ChargeTransition::ProtectCleared));
    assert_eq!(s.pop_transition(), None, "the enable itself is not a transition");

    let p_ovp = poll_with_output(&s, BuckOutput::Off {
        cause: ProtectionStatus::Ovp,
    });
    assert!(matches_disable(
        &s.tick(p_ovp, TICK),
        FaultReason::OutputUnexpectedlyOff(ProtectionStatus::Ovp)
    ));
    assert_eq!(s.pop_transition(), Some(ChargeTransition::Latched));
    assert_eq!(s.pop_transition(), None);
}

#[test]
fn transition_ring_drops_oldest_when_undrained() {
    let mut s = active(lfp_4s());
    while s.pop_transition().is_some() {}
    let p_lvp = poll_with_output(&s, BuckOutput::Off {
        cause: ProtectionStatus::Lvp,
    });
    let p_on = poll_with_output(&s, BuckOutput::On);

    for _ in 0..5 {
        s.tick(p_lvp, TICK);
        s.tick(p_on, TICK);
    }
    let mut drained = Vec::new();
    while let Some(t) = s.pop_transition() {
        drained.push(t);
    }
    assert_eq!(drained.len(), TRANSITION_BUFFER);
    assert_eq!(drained[0], ChargeTransition::ProtectHold);
    assert_eq!(drained[1], ChargeTransition::ProtectCleared);
    assert_eq!(drained[TRANSITION_BUFFER - 1], ChargeTransition::ProtectCleared);
}

#[test]
fn voltage_sequencing_update_voltage_retries_until_acked() {
    let profile = lfp_4s();
    let mut s = active(profile);
    let p = expected_poll(&s, b(OK_V, -4.0));

    let Action::UpdateVoltage(t1) = s.tick(p, TICK) else {
        panic!("expected UpdateVoltage");
    };
    assert_approx(t1.target_v, profile.absorb_v);
    assert_eq!(s.phase(), Phase::Float);
    assert_eq!(s.fault(), None);

    let Action::UpdateVoltage(t2) = s.tick(p, TICK) else {
        panic!("expected UpdateVoltage retry");
    };
    assert_approx(t2.target_v, profile.absorb_v);
    assert_eq!(s.phase(), Phase::Float);
    assert_eq!(s.fault(), None);

    s.commit_voltage(t2);
    assert_eq!(s.phase(), Phase::Absorb);
}

#[test]
fn voltage_sequencing_float_to_absorb_emits_step_up_no_output_cycle() {
    let profile = lfp_4s();
    let mut s = active(profile);
    let p = expected_poll(&s, b(OK_V, -4.0));
    let Action::UpdateVoltage(ticket) = s.tick(p, TICK) else {
        panic!("expected UpdateVoltage");
    };
    assert_approx(ticket.target_v, profile.absorb_v);
    assert!(
        !ticket.cycle_output,
        "Float→Absorb is a step UP — must not cycle"
    );
}

#[test]
fn voltage_sequencing_absorb_to_float_emits_step_down_with_output_cycle() {
    let profile = lfp_4s();
    let mut s = active(profile);
    enter_absorb(&mut s);

    let tapered = b(CV_V, -(profile.exit_absorb_a - 0.1));
    let p = expected_poll(&s, tapered);
    for _ in 0..(EXIT_DEBOUNCE.as_secs() - 1) {
        assert!(matches!(s.tick(p, TICK), Action::Idle));
    }
    let Action::UpdateVoltage(ticket) = s.tick(p, TICK) else {
        panic!("expected Absorb→Float UpdateVoltage after EXIT_DEBOUNCE");
    };
    assert_approx(ticket.target_v, profile.float_v);
    assert!(
        ticket.cycle_output,
        "Absorb→Float is a step DOWN — caller must cycle output"
    );
}

#[test]
fn voltage_sequencing_apply_step_up_happy_path() {
    let mut s = active(lfp_4s());
    let ticket = drive_to_float_to_absorb_pending(&mut s);
    let mut xy = MockWriter::default();
    let errs = apply_ticket(&mut s, &mut xy, ticket);
    assert_eq!(xy.set_voltage_calls, vec![lfp_4s().absorb_v]);
    assert!(
        xy.set_output_calls.is_empty(),
        "step-up must not touch output"
    );
    assert!(errs.is_empty());
    assert_eq!(s.phase(), Phase::Absorb);
}

#[test]
fn voltage_sequencing_apply_step_down_happy_path() {
    let mut s = active(lfp_4s());
    let ticket = drive_to_absorb_to_float_pending(&mut s);
    let mut xy = MockWriter::default();
    let errs = apply_ticket(&mut s, &mut xy, ticket);
    assert_eq!(
        xy.set_output_calls,
        vec![false, true],
        "must disable then re-enable around the write"
    );
    assert_eq!(xy.set_voltage_calls, vec![lfp_4s().float_v]);
    assert!(errs.is_empty());
    assert_eq!(s.phase(), Phase::Float);
}

#[test]
fn voltage_sequencing_apply_step_down_step1_failure_does_not_write_voltage() {
    let mut s = active(lfp_4s());
    let ticket = drive_to_absorb_to_float_pending(&mut s);
    let mut xy = MockWriter {
        fail_set_output_at: vec![0],
        ..Default::default()
    };
    let errs = apply_ticket(&mut s, &mut xy, ticket);
    assert_eq!(xy.set_output_calls, vec![false]);
    assert!(xy.set_voltage_calls.is_empty());
    assert_eq!(errs, vec![XyError::SetOutput]);
    assert_eq!(s.phase(), Phase::Absorb);
    let p = expected_poll(&s, b(CV_V, -(lfp_4s().exit_absorb_a - 0.1)));
    assert!(
        matches!(s.tick(p, TICK), Action::UpdateVoltage(ref t) if t.cycle_output)
    );
}

#[test]
fn voltage_sequencing_apply_step_down_step2_failure_restores_output() {
    let mut s = active(lfp_4s());
    let ticket = drive_to_absorb_to_float_pending(&mut s);
    let mut xy = MockWriter {
        fail_set_voltage_at: vec![0],
        ..Default::default()
    };
    let errs = apply_ticket(&mut s, &mut xy, ticket);
    assert_eq!(
        xy.set_output_calls,
        vec![false, true],
        "must restore output after set_voltage failure"
    );
    assert_eq!(xy.set_voltage_calls, vec![lfp_4s().float_v]);
    assert_eq!(errs, vec![XyError::SetVoltage]);
    assert_eq!(s.phase(), Phase::Absorb);
}

#[test]
fn voltage_sequencing_apply_step_down_step2_then_restore_both_fail_records_both() {
    let mut s = active(lfp_4s());
    let ticket = drive_to_absorb_to_float_pending(&mut s);
    let mut xy = MockWriter {
        fail_set_voltage_at: vec![0],
        fail_set_output_at: vec![1],
        ..Default::default()
    };
    let errs = apply_ticket(&mut s, &mut xy, ticket);
    assert_eq!(xy.set_output_calls, vec![false, true]);
    assert_eq!(errs, vec![XyError::SetVoltage, XyError::SetOutput]);
    assert_eq!(s.phase(), Phase::Absorb);
}

#[test]
fn voltage_sequencing_apply_step_down_step3_failure_retries_once_then_records() {
    let mut s = active(lfp_4s());
    let ticket = drive_to_absorb_to_float_pending(&mut s);
    let mut xy = MockWriter {
        fail_set_output_at: vec![1, 2],
        ..Default::default()
    };
    let errs = apply_ticket(&mut s, &mut xy, ticket);
    assert_eq!(xy.set_output_calls, vec![false, true, true]);
    assert_eq!(xy.set_voltage_calls, vec![lfp_4s().float_v]);
    assert_eq!(errs, vec![XyError::SetOutput]);
    assert_eq!(s.phase(), Phase::Float);
}

#[test]
fn voltage_sequencing_apply_step_down_step3_first_attempt_recovers_on_retry() {
    let mut s = active(lfp_4s());
    let ticket = drive_to_absorb_to_float_pending(&mut s);
    let mut xy = MockWriter {
        fail_set_output_at: vec![1],
        ..Default::default()
    };
    let errs = apply_ticket(&mut s, &mut xy, ticket);
    assert_eq!(xy.set_output_calls, vec![false, true, true]);
    assert!(errs.is_empty(), "transient single failure must not record");
    assert_eq!(s.phase(), Phase::Float);
}

#[test]
fn voltage_sequencing_apply_step_up_failure_does_not_touch_output() {
    let mut s = active(lfp_4s());
    let ticket = drive_to_float_to_absorb_pending(&mut s);
    let mut xy = MockWriter {
        fail_set_voltage_at: vec![0],
        ..Default::default()
    };
    let errs = apply_ticket(&mut s, &mut xy, ticket);
    assert!(
        xy.set_output_calls.is_empty(),
        "step-up failure must NOT cycle output"
    );
    assert_eq!(xy.set_voltage_calls, vec![lfp_4s().absorb_v]);
    assert_eq!(errs, vec![XyError::SetVoltage]);
    assert_eq!(s.phase(), Phase::Float);
}

#[test]
fn invariants_hold_under_randomized_input() {
    const SEEDS: u64 = 200;
    const TICKS: u32 = 1200;
    let profile = lfp_4s();
    let ov_trip = profile.absorb_v + OV_MARGIN_V;

    let mut saw_enable = 0u32;
    let mut saw_step_up = 0u32;
    let mut saw_step_down = 0u32;
    let mut saw_disable = 0u32;

    for seed in 1..=SEEDS {
        let mut rng = Rng::new(seed);
        let mut s = ChargeSupervisor::new(profile);
        let mut committed_v = profile.float_v;
        let mut latched = false;

        for tick in 0..TICKS {
            let p = random_poll(&mut rng, &s);
            let a = s.tick(p, TICK);

            assert!(
                approx(s.expected_setpoints().v_set, committed_v),
                "seed {seed} tick {tick}: expected V_SET {} != committed {committed_v}",
                s.expected_setpoints().v_set
            );

            assert!(
                !(s.fault().is_some() && s.inhibit().is_some()),
                "seed {seed} tick {tick}: fault and inhibit both set"
            );

            if latched {
                assert!(
                    matches!(a, Action::Idle | Action::DisableOutput(_)),
                    "seed {seed} tick {tick}: {a:?} emitted after a latch"
                );
            }

            match a {
                Action::Idle => {}
                Action::EnableOutput(t) => {
                    saw_enable += 1;
                    let b = p.battery.expect("EnableOutput requires a sample");
                    assert!(
                        b.voltage <= ov_trip,
                        "seed {seed} tick {tick}: EnableOutput at {} V, over the {ov_trip} V trip",
                        b.voltage
                    );
                    if rng.below(100) < 80 {
                        s.commit_enable(t);
                    }
                }
                Action::UpdateVoltage(t) => {
                    let live = s.expected_setpoints().v_set;
                    if t.cycle_output {
                        saw_step_down += 1;
                        assert!(
                            t.target_v < live,
                            "seed {seed} tick {tick}: cycle_output on a step from {live} to {}",
                            t.target_v
                        );
                    } else {
                        saw_step_up += 1;
                        assert!(
                            t.target_v > live,
                            "seed {seed} tick {tick}: no cycle_output on a step from {live} to {}",
                            t.target_v
                        );
                    }
                    if rng.below(100) < 80 {
                        committed_v = t.target_v;
                        s.commit_voltage(t);
                    }
                }
                Action::DisableOutput(t) => {
                    saw_disable += 1;
                    latched = true;
                    if rng.below(100) < 80 {
                        s.commit_disable(t);
                    }
                }
            }
        }
    }

    assert!(
        saw_enable >= 100
            && saw_step_up >= 100
            && saw_step_down >= 5
            && saw_disable >= 100,
        "sweep stopped covering: enable={saw_enable} up={saw_step_up} \
         down={saw_step_down} disable={saw_disable}"
    );
}

#[test]
fn phase_shows_only_while_the_output_is_on() {
    let mut s = ChargeSupervisor::new(lfp_4s());
    assert_eq!(s.active_phase(), None);
    let a = ok_tick(&mut s, b(CV_V, -0.1), TICK);
    accept_enable(&mut s, a);
    assert_eq!(s.active_phase(), Some(Phase::Float));
    enter_absorb(&mut s);
    assert_eq!(s.active_phase(), Some(Phase::Absorb));
    let p = poll_with_output(&s, BuckOutput::Off { cause: ProtectionStatus::Lvp });
    s.tick(p, TICK);
    assert_eq!(s.active_phase(), None);
    assert_eq!(s.phase(), Phase::Absorb);
}

#[test]
fn nothing_changes_after_a_latched_fault() {
    let mut s = active(lfp_4s());
    let p = poll_with_output(&s, BuckOutput::Off { cause: ProtectionStatus::Ovp });
    let reason = FaultReason::OutputUnexpectedlyOff(ProtectionStatus::Ovp);
    assert!(matches_disable(&s.tick(p, TICK), reason));
    let healthy = expected_poll(&s, b(OK_V, -4.0));
    let a = s.tick(healthy, TICK);
    assert!(matches_disable(&a, reason));
    if let Action::DisableOutput(t) = a {
        s.commit_disable(t);
    }
    for _ in 0..5 {
        assert!(matches!(s.tick(healthy, TICK), Action::Idle));
    }
    assert_eq!(s.fault(), Some(reason));
    assert_eq!(s.inhibit(), None);
}

#[test]
fn settling_comes_between_the_disable_and_the_voltage() {
    let mut s = active(lfp_4s());
    let ticket = drive_to_absorb_to_float_pending(&mut s);
    let mut xy = MockWriter::default();
    let mut seen = Vec::new();
    let mut errors = Vec::new();
    let inner = ticket.inner.as_ref().unwrap();
    battery_logic::apply_update_voltage(
        &mut xy,
        inner,
        |w: &MockWriter| seen.push((w.set_output_calls.clone(), w.set_voltage_calls.len())),
        &mut errors,
    );
    assert_eq!(seen, vec![(vec![false], 0)]);
    assert!(errors.is_empty());
}

#[test]
fn nothing_settles_on_a_step_up_or_after_a_failed_disable() {
    for fail_set_voltage_at in [vec![], vec![0]] {
        let mut s = active(lfp_4s());
        let ticket = drive_to_float_to_absorb_pending(&mut s);
        let mut xy = MockWriter { fail_set_voltage_at, ..Default::default() };
        let mut settled = 0;
        apply_update_voltage(&mut xy, &ticket, || settled += 1, |_| {});
        assert_eq!(settled, 0);
        assert_eq!(xy.set_voltage_calls, vec![lfp_4s().absorb_v]);
    }
    let mut s = active(lfp_4s());
    let ticket = drive_to_absorb_to_float_pending(&mut s);
    let mut xy = MockWriter { fail_set_output_at: vec![0], ..Default::default() };
    let mut settled = 0;
    apply_update_voltage(&mut xy, &ticket, || settled += 1, |_| {});
    assert_eq!(settled, 0);
}

#[test]
fn currents_stay_apart_but_for_the_smallest_capacities() {
    let apart = |capacity: F32| {
        let p = battery_logic::Profile::for_pack(Chemistry::LiFePo4, 4, capacity);
        v(p.regulation_a) > v(p.enter_absorb_a) && v(p.enter_absorb_a) > v(p.exit_absorb_a)
    };
    let collapsed: Vec<u32> = (1..2000).filter(|bits| !apart(F32::from_bits(*bits))).collect();
    let expected: Vec<u32> =
        (1..=8).chain(10..=25).chain(30..=41).chain(50..=58).chain(70..=75).chain(90..=91).collect();
    assert_eq!(collapsed, expected);
    for capacity in [f32::MIN_POSITIVE, 1e-6, 1.0, 50.0, 124.0] {
        assert!(apart(f(capacity)));
    }
}
