use battery_logic::charging::two_phase::{
    self, FaultReason, BATTERY_MISSING_TICKS_BUDGET, MODBUS_ERR_BUDGET, OV_TICKS_BUDGET,
};
use battery_logic::{BatterySample as Sample, Chemistry, Phase, F32};

fn f(x: f32) -> F32 {
    F32::from_bits(x.to_bits())
}

fn v(x: F32) -> f32 {
    f32::from_bits(x.to_bits())
}

#[derive(Copy, Clone)]
struct Profile {
    absorb_v: f32,
    float_v: f32,
    enter_absorb_a: f32,
    exit_absorb_a: f32,
}

impl Profile {
    fn for_pack(chemistry: Chemistry, cells: u8, enter_absorb_a: f32, exit_absorb_a: f32) -> Self {
        let p = two_phase::Profile::for_pack(chemistry, cells, f(enter_absorb_a), f(exit_absorb_a));
        Self {
            absorb_v: v(p.absorb_v),
            float_v: v(p.float_v),
            enter_absorb_a: v(p.enter_absorb_a),
            exit_absorb_a: v(p.exit_absorb_a),
        }
    }

    fn bits(self) -> two_phase::Profile {
        two_phase::Profile {
            absorb_v: f(self.absorb_v),
            float_v: f(self.float_v),
            enter_absorb_a: f(self.enter_absorb_a),
            exit_absorb_a: f(self.exit_absorb_a),
        }
    }
}

struct ChargeController(two_phase::ChargeController);

impl ChargeController {
    fn new(profile: Profile) -> Self {
        Self(two_phase::ChargeController::new(profile.bits()))
    }

    fn phase(&self) -> Phase {
        self.0.phase()
    }

    fn target_voltage(&self) -> f32 {
        v(self.0.target_voltage())
    }

    fn update(&mut self, battery_current_a: f32) -> Option<f32> {
        self.0.update(f(battery_current_a)).map(v)
    }
}

enum Action {
    Idle,
    SetVoltage(f32),
    DisableOutput(FaultReason),
}

#[derive(Copy, Clone)]
struct BatterySample {
    voltage: f32,
    current: f32,
}

struct ChargeSupervisor(two_phase::ChargeSupervisor);

impl ChargeSupervisor {
    fn new(profile: Profile) -> Self {
        Self(two_phase::ChargeSupervisor::new(profile.bits()))
    }

    fn target_voltage(&self) -> f32 {
        v(self.0.target_voltage())
    }

    fn phase(&self) -> Phase {
        self.0.phase()
    }

    fn fault(&self) -> Option<FaultReason> {
        self.0.fault()
    }

    fn ack_disable(&mut self) {
        self.0.ack_disable();
    }

    fn tick(&mut self, modbus_ok: bool, battery: Option<BatterySample>) -> Action {
        let sample = battery.map(|b| Sample { voltage: f(b.voltage), current: f(b.current) });
        match self.0.tick(modbus_ok, sample) {
            two_phase::Action::Idle => Action::Idle,
            two_phase::Action::SetVoltage(x) => Action::SetVoltage(v(x)),
            two_phase::Action::DisableOutput(r) => Action::DisableOutput(r),
        }
    }
}

fn reading(voltage: f32, current: f32) -> Option<BatterySample> {
    Some(BatterySample { voltage, current })
}

fn lfp_4s() -> Profile {
    Profile::for_pack(Chemistry::LiFePo4, 4, 1.0, 0.5)
}

fn approx(a: f32, b: f32) -> bool {
    (a - b).abs() < 1e-4
}

fn matches_disable(a: &Action, expected: FaultReason) -> bool {
    matches!(a, Action::DisableOutput(r) if *r == expected)
}

#[test]
fn lfp_4s_voltages_match_known_setpoints() {
    let p = lfp_4s();
    assert!(approx(p.absorb_v, 14.4));
    assert!(approx(p.float_v, 13.5));
}

#[test]
fn charging_lfp_top_balance_uses_manufacturer_max() {
    let p = Profile::for_pack(Chemistry::LiFePo4TopBalance, 4, 1.0, 2.0);
    assert!(approx(p.absorb_v, 14.6));
    assert!(approx(p.float_v, 13.5));
}

#[test]
fn charging_liion_3s_voltages_match_known_setpoints() {
    let p = Profile::for_pack(Chemistry::LiIon, 3, 1.0, 0.1);
    assert!(approx(p.absorb_v, 12.3));
    assert!(approx(p.float_v, 12.0));
}

#[test]
fn charging_voltages_scale_with_cell_count() {
    let p1 = Profile::for_pack(Chemistry::LiFePo4, 1, 1.0, 0.1);
    let p4 = Profile::for_pack(Chemistry::LiFePo4, 4, 1.0, 0.1);
    let p16 = Profile::for_pack(Chemistry::LiFePo4, 16, 1.0, 0.1);
    assert!(approx(p1.absorb_v, 3.60));
    assert!(approx(p4.absorb_v, 3.60 * 4.0));
    assert!(approx(p16.absorb_v, 3.60 * 16.0));
    assert!(approx(p1.float_v, 3.375));
    assert!(approx(p4.float_v, 3.375 * 4.0));
    assert!(approx(p16.float_v, 3.375 * 16.0));
}

#[test]
fn currents_do_not_scale_with_cell_count() {
    let p4 = Profile::for_pack(Chemistry::LiFePo4, 4, 2.5, 0.25);
    let p16 = Profile::for_pack(Chemistry::LiFePo4, 16, 2.5, 0.25);
    assert_eq!(p4.enter_absorb_a, 2.5);
    assert_eq!(p16.enter_absorb_a, 2.5);
    assert_eq!(p4.exit_absorb_a, 0.25);
    assert_eq!(p16.exit_absorb_a, 0.25);
}

#[test]
fn charging_starts_in_float_at_float_voltage() {
    let c = ChargeController::new(lfp_4s());
    assert!(matches!(c.phase(), Phase::Float));
    assert!(approx(c.target_voltage(), 13.5));
}

#[test]
fn charging_enters_absorb_when_charging_current_exceeds_threshold() {
    let mut c = ChargeController::new(lfp_4s());
    let v = c.update(-1.5).unwrap();
    assert!(approx(v, 14.4));
    assert!(matches!(c.phase(), Phase::Absorb));
}

#[test]
fn charging_does_not_enter_absorb_at_exact_threshold() {
    let mut c = ChargeController::new(lfp_4s());
    assert_eq!(c.update(-1.0), None);
    assert!(matches!(c.phase(), Phase::Float));
    assert!(c.update(-1.001).is_some());
}

#[test]
fn charging_discharge_current_does_not_enter_absorb() {
    let mut c = ChargeController::new(lfp_4s());
    assert_eq!(c.update(5.0), None);
    assert!(matches!(c.phase(), Phase::Float));
}

#[test]
fn charging_stays_in_absorb_above_exit_threshold() {
    let mut c = ChargeController::new(lfp_4s());
    c.update(-2.0);
    assert_eq!(c.update(-1.0), None);
    assert_eq!(c.update(-0.6), None);
    assert_eq!(c.update(-0.5), None);
    assert!(matches!(c.phase(), Phase::Absorb));
}

#[test]
fn charging_exits_absorb_when_taper_drops_below_threshold() {
    let mut c = ChargeController::new(lfp_4s());
    c.update(-2.0);
    let v = c.update(-0.4).unwrap();
    assert!(approx(v, 13.5));
    assert!(matches!(c.phase(), Phase::Float));
}

#[test]
fn charging_exits_absorb_when_load_pulls_current() {
    let mut c = ChargeController::new(lfp_4s());
    c.update(-2.0);
    let v = c.update(3.0).unwrap();
    assert!(approx(v, 13.5));
}

#[test]
fn charging_hysteresis_no_flap_between_thresholds() {
    let mut c = ChargeController::new(lfp_4s());
    for _ in 0..10 {
        assert_eq!(c.update(-0.5), None);
    }
    assert!(matches!(c.phase(), Phase::Float));
    c.update(-2.0);
    for _ in 0..10 {
        assert_eq!(c.update(-0.5), None);
    }
    assert!(matches!(c.phase(), Phase::Absorb));
}

#[test]
fn charging_returns_none_on_steady_state() {
    let mut c = ChargeController::new(lfp_4s());
    for _ in 0..100 {
        assert_eq!(c.update(-0.05), None);
    }
}

#[test]
fn charging_transition_only_emits_setpoint_once() {
    let mut c = ChargeController::new(lfp_4s());
    assert!(c.update(-2.0).is_some());
    assert_eq!(c.update(-2.0), None);
    assert_eq!(c.update(-3.0), None);
}

#[test]
fn nan_and_inf_are_ignored() {
    let mut c = ChargeController::new(lfp_4s());
    assert_eq!(c.update(f32::NAN), None);
    assert_eq!(c.update(f32::INFINITY), None);
    assert_eq!(c.update(f32::NEG_INFINITY), None);
    assert!(matches!(c.phase(), Phase::Float));
}

#[test]
fn charging_different_chemistries_yield_different_setpoints() {
    let mut lfp = ChargeController::new(Profile::for_pack(Chemistry::LiFePo4, 4, 1.0, 0.1));
    let mut liion = ChargeController::new(Profile::for_pack(Chemistry::LiIon, 3, 1.0, 0.1));
    let v_lfp = lfp.update(-2.0).unwrap();
    let v_liion = liion.update(-2.0).unwrap();
    assert!(approx(v_lfp, 14.4));
    assert!(approx(v_liion, 12.3));
}

#[test]
fn charging_single_cell_lfp_works() {
    let mut c = ChargeController::new(Profile::for_pack(Chemistry::LiFePo4, 1, 1.0, 0.1));
    assert!(approx(c.target_voltage(), 3.375));
    let v = c.update(-1.5).unwrap();
    assert!(approx(v, 3.60));
}

#[test]
fn charging_full_charge_cycle() {
    let mut c = ChargeController::new(lfp_4s());
    let v_absorb = c.update(-8.0).unwrap();
    assert!(approx(v_absorb, 14.4));
    for &i in &[-7.0, -5.0, -3.0, -1.0, -0.6] {
        assert_eq!(c.update(i), None);
    }
    let v_float = c.update(-0.4).unwrap();
    assert!(approx(v_float, 13.5));
    for &i in &[-0.05, -0.02, 0.0, -0.4] {
        assert_eq!(c.update(i), None);
    }
}

#[test]
fn charging_supervisor_passes_setpoint_through_on_phase_transition() {
    let mut s = ChargeSupervisor::new(lfp_4s());
    let a = s.tick(
        true,
        Some(BatterySample {
            voltage: 13.5,
            current: -2.0,
        }),
    );
    match a {
        Action::SetVoltage(v) => assert!(approx(v, 14.4)),
        _ => panic!("expected SetVoltage"),
    }
    assert!(matches!(s.phase(), Phase::Absorb));
    assert!(s.fault().is_none());
}

#[test]
fn charging_supervisor_returns_none_on_steady_state() {
    let mut s = ChargeSupervisor::new(lfp_4s());
    for _ in 0..50 {
        assert!(matches!(
            s.tick(
                true,
                Some(BatterySample {
                    voltage: 13.5,
                    current: -0.05
                })
            ),
            Action::Idle
        ));
    }
    assert!(s.fault().is_none());
}

#[test]
fn charging_battery_stale_for_budget_latches() {
    let mut s = ChargeSupervisor::new(lfp_4s());
    for _ in 0..(BATTERY_MISSING_TICKS_BUDGET - 1) {
        assert!(matches!(s.tick(true, None), Action::Idle));
    }
    assert!(s.fault().is_none());

    let a = s.tick(true, None);
    assert!(matches_disable(&a, FaultReason::BatterySensorStale));
    assert!(matches!(s.fault(), Some(FaultReason::BatterySensorStale)));
}

#[test]
fn charging_battery_recovers_within_budget_no_latch() {
    let mut s = ChargeSupervisor::new(lfp_4s());
    for _ in 0..(BATTERY_MISSING_TICKS_BUDGET - 1) {
        s.tick(true, None);
    }
    s.tick(
        true,
        Some(BatterySample {
            voltage: 13.5,
            current: -0.1,
        }),
    );
    for _ in 0..(BATTERY_MISSING_TICKS_BUDGET - 1) {
        assert!(matches!(s.tick(true, None), Action::Idle));
    }
    assert!(s.fault().is_none());
}

#[test]
fn charging_modbus_errors_for_budget_latches() {
    let mut s = ChargeSupervisor::new(lfp_4s());
    for _ in 0..(MODBUS_ERR_BUDGET - 1) {
        assert!(matches!(
            s.tick(
                false,
                Some(BatterySample {
                    voltage: 13.5,
                    current: -0.1
                })
            ),
            Action::Idle
        ));
    }
    let a = s.tick(
        false,
        Some(BatterySample {
            voltage: 13.5,
            current: -0.1,
        }),
    );
    assert!(matches_disable(&a, FaultReason::ModbusErrorBudget));
}

#[test]
fn charging_modbus_recovers_within_budget_no_latch() {
    let mut s = ChargeSupervisor::new(lfp_4s());
    for _ in 0..(MODBUS_ERR_BUDGET - 1) {
        s.tick(
            false,
            Some(BatterySample {
                voltage: 13.5,
                current: -0.1,
            }),
        );
    }
    s.tick(
        true,
        Some(BatterySample {
            voltage: 13.5,
            current: -0.1,
        }),
    );
    for _ in 0..(MODBUS_ERR_BUDGET - 1) {
        s.tick(
            false,
            Some(BatterySample {
                voltage: 13.5,
                current: -0.1,
            }),
        );
    }
    assert!(s.fault().is_none());
}

#[test]
fn charging_overvoltage_sustained_latches() {
    let mut s = ChargeSupervisor::new(lfp_4s());
    for _ in 0..(OV_TICKS_BUDGET - 1) {
        assert!(matches!(
            s.tick(
                true,
                Some(BatterySample {
                    voltage: 14.7,
                    current: -0.1
                })
            ),
            Action::Idle
        ));
    }
    let a = s.tick(
        true,
        Some(BatterySample {
            voltage: 14.7,
            current: -0.1,
        }),
    );
    assert!(matches_disable(&a, FaultReason::Overvoltage));
}

#[test]
fn charging_overvoltage_brief_recovers_no_latch() {
    let mut s = ChargeSupervisor::new(lfp_4s());
    s.tick(
        true,
        Some(BatterySample {
            voltage: 14.7,
            current: -0.1,
        }),
    );
    s.tick(
        true,
        Some(BatterySample {
            voltage: 14.7,
            current: -0.1,
        }),
    );
    s.tick(
        true,
        Some(BatterySample {
            voltage: 13.5,
            current: -0.1,
        }),
    );
    s.tick(
        true,
        Some(BatterySample {
            voltage: 14.7,
            current: -0.1,
        }),
    );
    s.tick(
        true,
        Some(BatterySample {
            voltage: 14.7,
            current: -0.1,
        }),
    );
    assert!(s.fault().is_none());
}

#[test]
fn charging_ov_below_threshold_does_not_trip() {
    let mut s = ChargeSupervisor::new(lfp_4s());
    for _ in 0..(OV_TICKS_BUDGET + 5) {
        s.tick(
            true,
            Some(BatterySample {
                voltage: 14.55,
                current: -0.1,
            }),
        );
    }
    assert!(s.fault().is_none());
}

#[test]
fn nan_voltage_does_not_count_toward_ov() {
    let mut s = ChargeSupervisor::new(lfp_4s());
    for _ in 0..(OV_TICKS_BUDGET + 5) {
        s.tick(
            true,
            Some(BatterySample {
                voltage: f32::NAN,
                current: -0.1,
            }),
        );
    }
    assert!(s.fault().is_none());
}

#[test]
fn charging_latch_keeps_emitting_disable_until_acked() {
    let mut s = ChargeSupervisor::new(lfp_4s());
    for _ in 0..BATTERY_MISSING_TICKS_BUDGET {
        s.tick(true, None);
    }
    assert!(s.fault().is_some());

    let a = s.tick(
        true,
        Some(BatterySample {
            voltage: 13.5,
            current: -0.1,
        }),
    );
    assert!(matches_disable(&a, FaultReason::BatterySensorStale));
    let a = s.tick(
        true,
        Some(BatterySample {
            voltage: 13.5,
            current: -0.1,
        }),
    );
    assert!(matches_disable(&a, FaultReason::BatterySensorStale));

    s.ack_disable();
    for _ in 0..10 {
        assert!(matches!(
            s.tick(
                true,
                Some(BatterySample {
                    voltage: 13.5,
                    current: -2.0
                })
            ),
            Action::Idle
        ));
    }
}

#[test]
fn charging_latched_supervisor_does_not_change_phase() {
    let mut s = ChargeSupervisor::new(lfp_4s());
    for _ in 0..MODBUS_ERR_BUDGET {
        s.tick(
            false,
            Some(BatterySample {
                voltage: 13.5,
                current: -0.1,
            }),
        );
    }
    s.ack_disable();
    s.tick(
        true,
        Some(BatterySample {
            voltage: 13.5,
            current: -5.0,
        }),
    );
    assert!(matches!(s.phase(), Phase::Float));
}

#[test]
fn charging_first_fault_wins_over_simultaneous_conditions() {
    let mut s = ChargeSupervisor::new(lfp_4s());
    for _ in 0..MODBUS_ERR_BUDGET {
        s.tick(false, None);
    }
    assert!(matches!(s.fault(), Some(FaultReason::ModbusErrorBudget)));
}

#[test]
fn target_follows_the_phase() {
    let mut s = ChargeSupervisor::new(lfp_4s());
    assert!(approx(s.target_voltage(), 13.5));
    assert!(matches!(s.tick(true, reading(13.4, -2.0)), Action::SetVoltage(_)));
    assert!(approx(s.target_voltage(), 14.4));
}

#[test]
fn infinite_voltage_does_not_count_toward_ov() {
    let mut s = ChargeSupervisor::new(lfp_4s());
    for _ in 0..10 {
        assert!(matches!(s.tick(true, reading(f32::INFINITY, -0.1)), Action::Idle));
    }
    assert!(s.fault().is_none());
}

#[test]
fn same_current_twice_settles() {
    for current in [-5.0f32, -1.0, -0.7, -0.5, -0.2, 0.0, 3.0] {
        let mut c = ChargeController::new(lfp_4s());
        c.update(current);
        assert_eq!(c.update(current), None);
    }
}
