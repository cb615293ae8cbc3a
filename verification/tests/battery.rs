use battery_logic::battery::{self, LFP_OCV};
use battery_logic::{Chemistry, F32};

fn f(x: f32) -> F32 {
    F32::from_bits(x.to_bits())
}

fn ocv_soc(chemistry: Chemistry, cells: u8, pack_voltage_v: f32) -> f32 {
    f32::from_bits(battery::ocv_soc(chemistry, cells, f(pack_voltage_v)).to_bits())
}

fn lfp_ocv() -> Vec<(f32, f32)> {
    LFP_OCV
        .iter()
        .map(|&(v, soc)| (f32::from_bits(v), f32::from_bits(soc)))
        .collect()
}

const LFP: Chemistry = Chemistry::LiFePo4;

fn approx(a: f32, b: f32) -> bool {
    (a - b).abs() < 0.01
}

fn assert_approx(actual: f32, expected: f32) {
    assert!(
        approx(actual, expected),
        "{actual} != {expected}"
    );
}

#[test]
fn battery_below_minimum_returns_zero() {
    assert_eq!(ocv_soc(LFP, 4, 5.0), 0.0);
    assert_eq!(ocv_soc(LFP, 4, 10.0), 0.0);
}

#[test]
fn battery_above_maximum_returns_hundred() {
    assert_eq!(ocv_soc(LFP, 4, 14.60), 100.0);
    assert_eq!(ocv_soc(LFP, 4, 20.0), 100.0);
}

#[test]
fn battery_exact_curve_entries_4s() {
    for (cell_v, soc) in lfp_ocv() {
        let pack_v = cell_v * 4.0;
        let result = ocv_soc(LFP, 4, pack_v);
        assert!(
            (result - soc).abs() < 0.01,
            "ocv_soc(4S, {pack_v}) = {result}, expected {soc}"
        );
    }
}

#[test]
fn battery_matches_legacy_4s_table_points() {
    assert!((ocv_soc(LFP, 4, 13.04) - 50.0).abs() < 0.01);
    assert!((ocv_soc(LFP, 4, 13.20) - 70.0).abs() < 0.01);
}

#[test]
fn battery_interpolation_midpoint() {
    let result = ocv_soc(LFP, 4, 13.02);
    assert!((result - 45.0).abs() < 0.1, "got {result}, expected ~45.0");
}

#[test]
fn battery_cell_count_scales_voltage() {
    let four = ocv_soc(LFP, 4, 3.26 * 4.0);
    let eight = ocv_soc(LFP, 8, 3.26 * 8.0);
    assert!((four - eight).abs() < 0.01);
    assert!((four - 50.0).abs() < 0.01);
}

#[test]
fn battery_chemistry_changes_result() {
    let cell_v = 3.70;
    let lfp = ocv_soc(Chemistry::LiFePo4, 1, cell_v);
    let liion = ocv_soc(Chemistry::LiIon, 1, cell_v);
    assert!((lfp - 100.0).abs() < 0.01, "lfp {lfp}");
    assert!((liion - 40.0).abs() < 0.01, "liion {liion}");
    assert!(lfp != liion);
}

#[test]
fn battery_top_balance_shares_lfp_curve() {
    let lfp = ocv_soc(Chemistry::LiFePo4, 4, 13.04);
    let top = ocv_soc(Chemistry::LiFePo4TopBalance, 4, 13.04);
    assert_eq!(lfp, top);
}

#[test]
fn battery_monotonically_increasing() {
    for &chem in &[Chemistry::LiFePo4, Chemistry::LiIon] {
        let mut prev = ocv_soc(chem, 1, 2.0);
        let mut v = 2.0;
        while v <= 4.5 {
            let soc = ocv_soc(chem, 1, v);
            assert!(soc >= prev, "{chem:?}: ocv_soc({v}) = {soc} < prev {prev}");
            prev = soc;
            v += 0.01;
        }
    }
}

#[test]
fn battery_output_range() {
    let mut v = 0.0;
    while v <= 20.0 {
        let soc = ocv_soc(LFP, 4, v);
        assert!((0.0..=100.0).contains(&soc), "ocv_soc({v}) = {soc} out of range");
        v += 0.1;
    }
}

#[test]
fn battery_non_finite_returns_zero() {
    assert_eq!(ocv_soc(LFP, 4, f32::NAN), 0.0);
    assert_eq!(ocv_soc(LFP, 4, f32::INFINITY), 0.0);
    assert_eq!(ocv_soc(LFP, 4, f32::NEG_INFINITY), 0.0);
}

#[test]
fn tests_below_minimum_returns_zero() {
    assert_eq!(ocv_soc(LFP, 4, 5.0), 0.0);
    assert_eq!(ocv_soc(LFP, 4, 10.0), 0.0);
}

#[test]
fn tests_above_maximum_returns_hundred() {
    assert_eq!(ocv_soc(LFP, 4, 14.60), 100.0);
    assert_eq!(ocv_soc(LFP, 4, 20.0), 100.0);
}

#[test]
fn tests_exact_curve_entries_4s() {
    for (cell_v, soc) in lfp_ocv() {
        let pack_v = cell_v * 4.0;
        let result = ocv_soc(LFP, 4, pack_v);
        assert!(
            approx(result, soc),
            "ocv_soc(4S, {pack_v}) = {result}, expected {soc}"
        );
    }
}

#[test]
fn tests_matches_legacy_4s_table_points() {
    assert_approx(ocv_soc(LFP, 4, 13.04), 50.0);
    assert_approx(ocv_soc(LFP, 4, 13.20), 70.0);
}

#[test]
fn tests_interpolation_midpoint() {
    let result = ocv_soc(LFP, 4, 13.02);
    assert!((result - 45.0).abs() < 0.1, "got {result}, expected ~45.0");
}

#[test]
fn tests_cell_count_scales_voltage() {
    let four = ocv_soc(LFP, 4, 3.26 * 4.0);
    let eight = ocv_soc(LFP, 8, 3.26 * 8.0);
    assert!(
        approx(four, eight),
        "4S at 3.26 V/cell = {four}, 8S = {eight}"
    );
    assert_approx(four, 50.0);
}

#[test]
fn tests_chemistry_changes_result() {
    let cell_v = 3.70;
    let lfp = ocv_soc(Chemistry::LiFePo4, 1, cell_v);
    let liion = ocv_soc(Chemistry::LiIon, 1, cell_v);
    assert_approx(lfp, 100.0);
    assert_approx(liion, 40.0);
    assert!(lfp != liion);
}

#[test]
fn tests_top_balance_shares_lfp_curve() {
    let lfp = ocv_soc(Chemistry::LiFePo4, 4, 13.04);
    let top = ocv_soc(Chemistry::LiFePo4TopBalance, 4, 13.04);
    assert_eq!(lfp, top);
}

#[test]
fn tests_monotonically_increasing() {
    for &chem in &[Chemistry::LiFePo4, Chemistry::LiIon] {
        let mut prev = ocv_soc(chem, 1, 2.0);
        let mut v = 2.0;
        while v <= 4.5 {
            let soc = ocv_soc(chem, 1, v);
            assert!(soc >= prev, "{chem:?}: ocv_soc({v}) = {soc} < prev {prev}");
            prev = soc;
            v += 0.01;
        }
    }
}

#[test]
fn tests_output_range() {
    let mut v = 0.0;
    while v <= 20.0 {
        let soc = ocv_soc(LFP, 4, v);
        assert!(
            (0.0..=100.0).contains(&soc),
            "ocv_soc({v}) = {soc} out of range"
        );
        v += 0.1;
    }
}

#[test]
fn tests_non_finite_returns_zero() {
    assert_eq!(ocv_soc(LFP, 4, f32::NAN), 0.0);
    assert_eq!(ocv_soc(LFP, 4, f32::INFINITY), 0.0);
    assert_eq!(ocv_soc(LFP, 4, f32::NEG_INFINITY), 0.0);
}

#[test]
fn curve_tables_hold_the_decimal_figures() {
    let lfp: Vec<(f32, f32)> = vec![
        (2.500, 0.0),
        (2.540, 0.5),
        (2.800, 5.0),
        (3.000, 9.5),
        (3.050, 15.0),
        (3.200, 20.0),
        (3.230, 30.0),
        (3.250, 40.0),
        (3.260, 50.0),
        (3.280, 60.0),
        (3.300, 70.0),
        (3.330, 80.0),
        (3.350, 90.0),
        (3.380, 99.0),
        (3.450, 99.5),
        (3.650, 100.0),
    ];
    let liion: Vec<(f32, f32)> = vec![
        (3.00, 0.0),
        (3.40, 5.0),
        (3.50, 10.0),
        (3.57, 20.0),
        (3.63, 30.0),
        (3.70, 40.0),
        (3.75, 50.0),
        (3.82, 60.0),
        (3.90, 70.0),
        (3.98, 80.0),
        (4.08, 90.0),
        (4.15, 95.0),
        (4.20, 100.0),
    ];
    for (chemistry, want) in [
        (Chemistry::LiFePo4, &lfp),
        (Chemistry::LiFePo4TopBalance, &lfp),
        (Chemistry::LiIon, &liion),
    ] {
        let got: Vec<(f32, f32)> = chemistry
            .ocv_curve()
            .iter()
            .map(|(v, s)| (f32::from_bits(v.to_bits()), f32::from_bits(s.to_bits())))
            .collect();
        assert_eq!(&got, want);
    }
}

#[test]
fn every_point_of_a_curve_reads_back_exactly() {
    for chemistry in [Chemistry::LiFePo4, Chemistry::LiIon] {
        let curve = chemistry.ocv_curve();
        for &(v, soc) in curve.iter() {
            assert!(battery::interpolate(&curve, v).eq_value(soc));
        }
    }
}

#[test]
fn cell_setpoints_hold_the_decimal_figures() {
    let volts = |c: Chemistry| {
        let v = c.charge_voltages();
        (f32::from_bits(v.absorb_v.to_bits()), f32::from_bits(v.float_v.to_bits()))
    };
    assert_eq!(volts(Chemistry::LiFePo4), (3.60, 3.375));
    assert_eq!(volts(Chemistry::LiFePo4TopBalance), (3.65, 3.375));
    assert_eq!(volts(Chemistry::LiIon), (4.10, 4.00));
}

#[test]
fn chemistry_labels() {
    assert_eq!(Chemistry::LiFePo4.label(), "LFP");
    assert_eq!(Chemistry::LiFePo4TopBalance.label(), "LFP-TB");
    assert_eq!(Chemistry::LiIon.label(), "Li-ion");
}

#[test]
fn estimate_is_computed_as_the_hardware_would() {
    for i in 0..400 {
        let v = 9.0 + i as f32 * 0.0173;
        let cell_v = v / 4.0;
        let curve = lfp_ocv();
        let want = if cell_v <= curve[0].0 {
            curve[0].1
        } else if cell_v >= curve[15].0 {
            curve[15].1
        } else {
            let k = (1..16).find(|&k| cell_v <= curve[k].0).unwrap();
            let t = (cell_v - curve[k - 1].0) / (curve[k].0 - curve[k - 1].0);
            curve[k - 1].1 + t * (curve[k].1 - curve[k - 1].1)
        };
        assert_eq!(ocv_soc(Chemistry::LiFePo4, 4, v).to_bits(), want.to_bits());
    }
}

#[test]
fn negative_pack_voltage_is_empty() {
    assert_eq!(ocv_soc(Chemistry::LiFePo4, 4, -3.0), 0.0);
    assert_eq!(ocv_soc(Chemistry::LiIon, 3, -0.0), 0.0);
}
