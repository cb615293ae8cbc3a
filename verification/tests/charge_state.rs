use battery_logic::charging::charge_state::{
    ChargeEvent, ChargeState, EVENT_COUNT, STATE_COUNT,
};
use battery_logic::charging::debounce::Debounce;
use battery_logic::charging::hold_budget::HoldBudget;
use battery_logic::charging::protection_policy::ProtectionPolicy;
use battery_logic::charging::{FLAP_WINDOW, MAX_HOLDS};
use battery_logic::{ChargeTransition, Duration, ProtectionStatus};

fn tick() -> Duration {
    Duration::from_secs(1)
}

#[test]
fn discriminants_match_declaration_order() {
    assert_eq!(ChargeState::all().len(), STATE_COUNT);
    assert_eq!(ChargeEvent::all().len(), EVENT_COUNT);
    for (i, s) in ChargeState::all().iter().enumerate() {
        assert_eq!(*s as usize, i, "{s:?}");
    }
    for (i, e) in ChargeEvent::all().iter().enumerate() {
        assert_eq!(*e as usize, i, "{e:?}");
    }
}

#[test]
fn state_groups_partition_the_machine() {
    for s in ChargeState::all() {
        let latched = matches!(s, ChargeState::Tripping | ChargeState::Latched);
        let groups = [s.sourcing(), s.bringing_up(), latched];
        assert_eq!(
            groups.iter().filter(|g| **g).count(),
            1,
            "{s:?} is in {groups:?}, not exactly one group"
        );
        assert_eq!(s.holding(), s.bringing_up() && s != ChargeState::Boot, "{s:?}");
        assert_eq!(s.setpoint_phase().is_some(), !latched, "{s:?}");
        assert_eq!(s.regulating_phase().is_some(), s.sourcing(), "{s:?}");
        assert_eq!(
            s.retarget_to().is_some(),
            matches!(
                s,
                ChargeState::ToAbsorb | ChargeState::ToFloat | ChargeState::ToParked
            ),
            "{s:?}"
        );
        assert!(!s.parked() || s.sourcing(), "{s:?}");
        if let Some(to) = s.retarget_to() {
            assert_ne!(Some(to), s.setpoint_phase(), "{s:?} retargets to itself");
        }
    }
}

#[test]
fn every_transition_is_coherent_and_every_state_reachable() {
    let mut reached = [false; STATE_COUNT];
    reached[ChargeState::Boot as usize] = true;
    for from in ChargeState::all() {
        for event in ChargeEvent::all() {
            let Some(to) = from.next(event) else { continue };
            reached[to as usize] = true;
            assert_ne!(from, to, "{from:?} on {event:?} is a self-loop");
            if matches!(from, ChargeState::Tripping | ChargeState::Latched) {
                assert!(
                    !to.sourcing(),
                    "{from:?} on {event:?} re-energises after a latch"
                );
            }
            match event {
                ChargeEvent::Fault => {
                    assert_eq!(to, ChargeState::Tripping, "{from:?}");
                    assert!(from.sourcing() || from.bringing_up(), "{from:?}");
                }
                ChargeEvent::Park => {
                    assert!(from.sourcing() && !from.parked(), "{from:?}");
                    assert!(to.parked(), "{from:?} → {to:?}");
                    assert_eq!(to.setpoint_phase(), from.setpoint_phase(), "{from:?}");
                }
                ChargeEvent::SelfDisabled => {
                    assert!(from.sourcing(), "{from:?}");
                    assert!(to.holding(), "{from:?} → {to:?}");
                    assert_eq!(to.setpoint_phase(), from.setpoint_phase(), "{from:?}");
                }
                ChargeEvent::SelfEnabled => {
                    if from.holding() {
                        assert!(to.sourcing(), "{from:?} → {to:?}");
                        assert_eq!(to.setpoint_phase(), from.setpoint_phase(), "{from:?}");
                    } else {
                        assert_eq!(from, ChargeState::Latched, "{from:?}");
                        assert_eq!(to, ChargeState::Tripping, "{from:?}");
                    }
                }
                ChargeEvent::Enabled | ChargeEvent::EnabledBelowFull => {
                    assert!(from.bringing_up(), "{from:?}");
                    assert!(to.sourcing(), "{from:?} → {to:?}");
                    assert_eq!(to.setpoint_phase(), from.setpoint_phase(), "{from:?}");
                }
                ChargeEvent::TaperRose | ChargeEvent::TaperFell => {
                    assert!(to.retarget_to().is_some(), "{from:?} → {to:?}");
                    assert_eq!(to.setpoint_phase(), from.setpoint_phase(), "{from:?}");
                }
                ChargeEvent::VoltageWritten => {
                    assert!(from.retarget_to().is_some(), "{from:?}");
                    assert!(to.sourcing() && to.retarget_to().is_none(), "{to:?}");
                    assert_eq!(to.setpoint_phase(), from.retarget_to(), "{from:?}");
                }
                ChargeEvent::Disabled => {
                    assert_eq!(from, ChargeState::Tripping, "{from:?}");
                    assert_eq!(to, ChargeState::Latched, "{from:?}");
                }
            }
        }
    }
    for (i, r) in reached.iter().enumerate() {
        assert!(*r, "{:?} is unreachable", ChargeState::all()[i]);
    }
}

#[test]
fn transitions_log_the_move_they_mean() {
    let cases: [(ChargeState, ChargeState, Option<ChargeTransition>); 16] = [
        (ChargeState::Boot, ChargeState::Float, Some(ChargeTransition::Energised)),
        (ChargeState::Boot, ChargeState::ToAbsorb, Some(ChargeTransition::Energised)),
        (ChargeState::HoldFloat, ChargeState::Float, Some(ChargeTransition::ProtectCleared)),
        (ChargeState::HoldAbsorb, ChargeState::Absorb, Some(ChargeTransition::ProtectCleared)),
        (ChargeState::Float, ChargeState::HoldFloat, Some(ChargeTransition::ProtectHold)),
        (ChargeState::ToFloat, ChargeState::HoldAbsorb, Some(ChargeTransition::ProtectHold)),
        (ChargeState::Absorb, ChargeState::Tripping, Some(ChargeTransition::Latched)),
        (ChargeState::Boot, ChargeState::Tripping, Some(ChargeTransition::Latched)),
        (ChargeState::Latched, ChargeState::Tripping, Some(ChargeTransition::Latched)),
        (ChargeState::Float, ChargeState::ToAbsorb, None),
        (ChargeState::Tripping, ChargeState::Latched, None),
        (ChargeState::Absorb, ChargeState::ToParked, Some(ChargeTransition::Parked)),
        (ChargeState::Float, ChargeState::Parked, Some(ChargeTransition::Parked)),
        (ChargeState::ToParked, ChargeState::Parked, None),
        (ChargeState::Parked, ChargeState::HoldParked, Some(ChargeTransition::ProtectHold)),
        (ChargeState::HoldParked, ChargeState::Parked, Some(ChargeTransition::ProtectCleared)),
    ];
    for (from, to, want) in cases {
        assert_eq!(from.logged_as(to), want, "{from:?} → {to:?}");
    }
}

#[test]
fn trips_one_hold_past_the_budget() {
    let mut h = HoldBudget::default();
    for turn in 0..MAX_HOLDS {
        h.record();
        assert!(!h.step(tick()), "turn {turn} tripped early");
    }
    h.record();
    assert!(h.step(tick()));
}

#[test]
fn a_quiet_stretch_ends_the_run() {
    let mut h = HoldBudget::default();
    for _ in 0..MAX_HOLDS {
        h.record();
        assert!(!h.step(tick()));
    }
    assert!(!h.step(Duration::from_secs(FLAP_WINDOW).saturating_add(tick())));
    for turn in 0..MAX_HOLDS {
        h.record();
        assert!(!h.step(tick()), "turn {turn} did not get a fresh budget");
    }
    h.record();
    assert!(h.step(tick()));
}

#[test]
fn the_window_boundary_is_strict() {
    let mut h = HoldBudget::default();
    h.record();
    assert!(!h.step(Duration::from_secs(FLAP_WINDOW)), "exactly the window must not end a run");
    for turn in 0..(MAX_HOLDS - 1) {
        h.record();
        assert!(!h.step(tick()), "turn {turn} tripped early");
    }
    h.record();
    assert!(h.step(tick()), "the retained first hold was forgiven");
}

#[test]
fn only_sensor_side_causes_are_waited_out() {
    const CASES: [(ProtectionStatus, bool, bool); 11] = [
        (ProtectionStatus::Normal, false, false),
        (ProtectionStatus::Ovp, false, false),
        (ProtectionStatus::Ocp, false, false),
        (ProtectionStatus::Opp, false, false),
        (ProtectionStatus::Lvp, true, true),
        (ProtectionStatus::Oah, false, false),
        (ProtectionStatus::Ohp, false, false),
        (ProtectionStatus::Otp, true, false),
        (ProtectionStatus::Oep, false, false),
        (ProtectionStatus::Owh, false, false),
        (ProtectionStatus::Icp, false, false),
    ];
    for (cause, self_clearing, input_loss) in CASES {
        assert_eq!(cause.is_self_clearing(), self_clearing, "{cause:?}");
        assert_eq!(cause.is_input_loss(), input_loss, "{cause:?}");
        assert!(
            !input_loss || self_clearing,
            "{cause:?}: input loss has to be a subset of self-clearing, or the \
             supervisor would latch on a cause the dashboard calls benign"
        );
    }
}

#[test]
fn debounce_fires_at_its_timeout_and_resets_at_once() {
    let mut d = Debounce::default();
    let three = Duration::from_secs(3);
    assert!(!d.step(true, tick(), three));
    assert!(!d.step(true, tick(), three));
    assert!(d.step(true, tick(), three));
    assert!(!d.step(false, tick(), three));
    assert!(!d.step(true, Duration::from_millis(2999), three));
    d.reset();
    assert!(!d.step(true, Duration::from_millis(2999), three));
    assert!(d.step(true, Duration::from_millis(1), three));
}

#[test]
fn leaky_debounce_drains_by_the_time_lost() {
    let mut d = Debounce::default();
    let three = Duration::from_secs(3);
    assert!(!d.step_leaky(true, Duration::from_secs(2), three));
    assert!(!d.step_leaky(false, tick(), three));
    assert!(!d.step_leaky(true, tick(), three));
    assert!(d.step_leaky(true, tick(), three));
    d.reset();
    assert!(!d.step_leaky(false, tick(), three));
    assert!(!d.step_leaky(true, Duration::from_millis(2999), three));
    assert!(d.step_leaky(true, Duration::from_millis(1), three));
}

#[test]
fn states_are_listed_in_order() {
    let all = ChargeState::all();
    assert_eq!(all[0], ChargeState::Boot);
    assert_eq!(all[4], ChargeState::Float);
    assert_eq!(all[11], ChargeState::Latched);
    let events = ChargeEvent::all();
    assert_eq!(events[0], ChargeEvent::Fault);
    assert_eq!(events[9], ChargeEvent::Disabled);
}

#[test]
fn latched_states_never_source_again() {
    for s in [ChargeState::Tripping, ChargeState::Latched] {
        for e in ChargeEvent::all() {
            if let Some(to) = s.next(e) {
                assert!(matches!(to, ChargeState::Tripping | ChargeState::Latched));
            }
        }
    }
}

#[test]
fn parked_pack_is_never_charged_again() {
    for s in [ChargeState::ToParked, ChargeState::Parked, ChargeState::HoldParked] {
        for e in ChargeEvent::all() {
            if let Some(to) = s.next(e) {
                assert!(!matches!(to, ChargeState::Float | ChargeState::Absorb));
            }
        }
    }
}
