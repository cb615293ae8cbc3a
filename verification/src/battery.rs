//! Battery chemistry: charge setpoints and the open-circuit-voltage curve that
//! gives the state of charge, both per cell. Pack-level numbers scale with the
//! series cell count, so that charge voltages, safety limits and the reported
//! state of charge move together.
//!
//! Numbers are binary32 bit patterns; the comments give them in decimal.

use crate::float::F32;
use vstd::prelude::*;

verus! {

/// What the pack is made of.
#[derive(Copy, Clone, Debug, PartialEq, Eq, Structural)]
pub enum Chemistry {
    /// Daily-cycling LFP: 3.60 V absorb, 3.375 V float per cell.
    LiFePo4,
    /// LFP charged to the manufacturer's maximum so that the cells balance:
    /// 3.65 V absorb per cell.
    LiFePo4TopBalance,
    /// Li-ion tuned for long life: 4.10 V absorb, 4.00 V float per cell.
    LiIon,
}

/// Charge setpoints per cell.
#[derive(Copy, Clone, Debug, PartialEq, Eq, Structural)]
pub struct CellVoltages {
    pub absorb_v: F32,
    pub float_v: F32,
}

/// Resting voltage per cell and state of charge of LFP. The flat stretch from 3.2 V
/// to 3.4 V is its signature.
pub const LFP_OCV: [(u32, u32); 16] = [
    (0x4020_0000, 0x0000_0000),  // 2.500 V, 0.0 %
    (0x4022_8f5c, 0x3f00_0000),  // 2.540 V, 0.5 %
    (0x4033_3333, 0x40a0_0000),  // 2.800 V, 5.0 %
    (0x4040_0000, 0x4118_0000),  // 3.000 V, 9.5 %
    (0x4043_3333, 0x4170_0000),  // 3.050 V, 15.0 %
    (0x404c_cccd, 0x41a0_0000),  // 3.200 V, 20.0 %
    (0x404e_b852, 0x41f0_0000),  // 3.230 V, 30.0 %
    (0x4050_0000, 0x4220_0000),  // 3.250 V, 40.0 %
    (0x4050_a3d7, 0x4248_0000),  // 3.260 V, 50.0 %
    (0x4051_eb85, 0x4270_0000),  // 3.280 V, 60.0 %
    (0x4053_3333, 0x428c_0000),  // 3.300 V, 70.0 %
    (0x4055_1eb8, 0x42a0_0000),  // 3.330 V, 80.0 %
    (0x4056_6666, 0x42b4_0000),  // 3.350 V, 90.0 %
    (0x4058_51ec, 0x42c6_0000),  // 3.380 V, 99.0 %
    (0x405c_cccd, 0x42c7_0000),  // 3.450 V, 99.5 %
    (0x4069_999a, 0x42c8_0000),  // 3.650 V, 100.0 %
];

/// Resting voltage per cell and state of charge of Li-ion.
pub const LIION_OCV: [(u32, u32); 13] = [
    (0x4040_0000, 0x0000_0000),  // 3.000 V, 0.0 %
    (0x4059_999a, 0x40a0_0000),  // 3.400 V, 5.0 %
    (0x4060_0000, 0x4120_0000),  // 3.500 V, 10.0 %
    (0x4064_7ae1, 0x41a0_0000),  // 3.570 V, 20.0 %
    (0x4068_51ec, 0x41f0_0000),  // 3.630 V, 30.0 %
    (0x406c_cccd, 0x4220_0000),  // 3.700 V, 40.0 %
    (0x4070_0000, 0x4248_0000),  // 3.750 V, 50.0 %
    (0x4074_7ae1, 0x4270_0000),  // 3.820 V, 60.0 %
    (0x4079_999a, 0x428c_0000),  // 3.900 V, 70.0 %
    (0x407e_b852, 0x42a0_0000),  // 3.980 V, 80.0 %
    (0x4082_8f5c, 0x42b4_0000),  // 4.080 V, 90.0 %
    (0x4084_cccd, 0x42be_0000),  // 4.150 V, 95.0 %
    (0x4086_6666, 0x42c8_0000),  // 4.200 V, 100.0 %
];

/// A point of a curve from its bits.
pub open spec fn curve_point(p: (u32, u32)) -> (F32, F32) {
    (F32 { bits: p.0 }, F32 { bits: p.1 })
}

/// A curve from its bits.
pub open spec fn curve_points(bits: Seq<(u32, u32)>) -> Seq<(F32, F32)> {
    Seq::new(bits.len(), |i: int| curve_point(bits[i]))
}

impl Chemistry {
    /// Setpoints per cell.
    pub open spec fn cell_voltages(self) -> CellVoltages {
        match self {
            Chemistry::LiFePo4 => CellVoltages {
                absorb_v: F32 { bits: 0x4066_6666 },  // 3.6 V
                float_v: F32 { bits: 0x4058_0000 },  // 3.375 V
            },
            Chemistry::LiFePo4TopBalance => CellVoltages {
                absorb_v: F32 { bits: 0x4069_999a },  // 3.65 V
                float_v: F32 { bits: 0x4058_0000 },  // 3.375 V
            },
            Chemistry::LiIon => CellVoltages {
                absorb_v: F32 { bits: 0x4083_3333 },  // 4.1 V
                float_v: F32 { bits: 0x4080_0000 },  // 4.0 V
            },
        }
    }

    /// Resting voltage per cell to state of charge. The top-balance variant
    /// shares the LFP curve: what a cell rests at follows from its chemistry, not
    /// from its charge target.
    pub open spec fn curve(self) -> Seq<(F32, F32)> {
        match self {
            Chemistry::LiFePo4 | Chemistry::LiFePo4TopBalance => curve_points(LFP_OCV@),
            Chemistry::LiIon => curve_points(LIION_OCV@),
        }
    }

    /// The text of `label`.
    pub open spec fn label_text(self) -> Seq<char> {
        match self {
            Chemistry::LiFePo4 => "LFP"@,
            Chemistry::LiFePo4TopBalance => "LFP-TB"@,
            Chemistry::LiIon => "Li-ion"@,
        }
    }

    /// Short name for displays.
    pub fn label(self) -> (name: &'static str)
        ensures
            name@ == self.label_text(),
    {
        match self {
            Chemistry::LiFePo4 => "LFP",
            Chemistry::LiFePo4TopBalance => "LFP-TB",
            Chemistry::LiIon => "Li-ion",
        }
    }

    /// Absorb and float setpoints per cell.
    pub fn charge_voltages(self) -> (v: CellVoltages)
        ensures
            v == self.cell_voltages(),
    {
        match self {
            Chemistry::LiFePo4 => CellVoltages {
                absorb_v: F32 { bits: 0x4066_6666 },
                float_v: F32 { bits: 0x4058_0000 },
            },
            Chemistry::LiFePo4TopBalance => CellVoltages {
                absorb_v: F32 { bits: 0x4069_999a },
                float_v: F32 { bits: 0x4058_0000 },
            },
            Chemistry::LiIon => CellVoltages {
                absorb_v: F32 { bits: 0x4083_3333 },
                float_v: F32 { bits: 0x4080_0000 },
            },
        }
    }

    /// Resting voltage per cell to state of charge.
    pub fn ocv_curve(self) -> (points: Vec<(F32, F32)>)
        ensures
            points@ == self.curve(),
    {
        match self {
            Chemistry::LiFePo4 | Chemistry::LiFePo4TopBalance => decode_curve(LFP_OCV.as_slice()),
            Chemistry::LiIon => decode_curve(LIION_OCV.as_slice()),
        }
    }
}

fn decode_curve(bits: &[(u32, u32)]) -> (points: Vec<(F32, F32)>)
    ensures
        points@ == curve_points(bits@),
{
    let mut points: Vec<(F32, F32)> = Vec::new();
    let mut i: usize = 0;
    while i < bits.len()
        invariant
            i <= bits.len(),
            points@ =~= curve_points(bits@).take(i as int),
        decreases bits.len() - i,
    {
        let (v, soc) = bits[i];
        points.push((F32::from_bits(v), F32::from_bits(soc)));
        i = i + 1;
    }
    points
}

/// The line through two points of a curve, at `v`.
pub open spec fn on_segment(lo: (F32, F32), hi: (F32, F32), v: F32) -> F32 {
    let t = v.difference(lo.0).quotient(hi.0.difference(lo.0));
    lo.1.sum(t.product(hi.1.difference(lo.1)))
}

/// `i` is the first segment end that `v` does not lie beyond.
pub open spec fn first_end(curve: Seq<(F32, F32)>, v: F32, i: int) -> bool {
    &&& 1 <= i < curve.len()
    &&& v.at_most(curve[i].0)
    &&& forall|j: int| 1 <= j < i ==> !v.at_most((#[trigger] curve[j]).0)
}

/// The curve at `v`: constant beyond its ends, straight between its points.
pub open spec fn curve_value(curve: Seq<(F32, F32)>, v: F32) -> F32 {
    if v.at_most(curve[0].0) {
        curve[0].1
    } else if curve.last().0.at_most(v) {
        curve.last().1
    } else {
        let i = choose|i: int| first_end(curve, v, i);
        on_segment(curve[i - 1], curve[i], v)
    }
}

/// The curve at `cell_v`, by linear interpolation.
pub fn interpolate(curve: &[(F32, F32)], cell_v: F32) -> (soc: F32)
    requires
        curve@.len() > 0,
        !cell_v.nan(),
        !curve@.last().0.nan(),
    ensures
        soc == curve_value(curve@, cell_v),
{
    if cell_v.le(curve[0].0) {
        return curve[0].1;
    }
    let last = curve[curve.len() - 1];
    if cell_v.ge(last.0) {
        return last.1;
    }
    proof {
        crate::float::order_is_total(cell_v, last.0);
        crate::float::order_is_total(last.0, cell_v);
    }
    let mut i: usize = 1;
    while i < curve.len() - 1 && !cell_v.le(curve[i].0)
        invariant
            1 <= i,
            i < curve@.len() || curve@.len() == 1,
            forall|j: int| 1 <= j < i ==> !cell_v.at_most((#[trigger] curve@[j]).0),
            cell_v.at_most(curve@.last().0),
            curve@.len() > 0,
        ensures
            i < curve@.len() ==> cell_v.at_most(curve@[i as int].0),
        decreases curve.len() - i,
    {
        i = i + 1;
    }
    assert(curve@.len() > 1);
    let (v_lo, soc_lo) = curve[i - 1];
    let (v_hi, soc_hi) = curve[i];
    assert(first_end(curve@, cell_v, i as int));
    proof {
        let k = choose|k: int| first_end(curve@, cell_v, k);
        assert(first_end(curve@, cell_v, k));
        if k < i {
            assert(!cell_v.at_most(curve@[k].0));
        } else if i < k {
            assert(!cell_v.at_most(curve@[i as int].0));
        }
    }
    let t = cell_v.sub(v_lo).div(v_hi.sub(v_lo));
    soc_lo.add(t.mul(soc_hi.sub(soc_lo)))
}

/// State of charge of a pack, in percent: 0 where the reading is not finite, else
/// the chemistry's curve at the voltage per cell.
pub open spec fn pack_soc(chemistry: Chemistry, cells: u8, pack_voltage_v: F32) -> F32 {
    if !pack_voltage_v.finite() {
        F32 { bits: 0 }
    } else {
        curve_value(chemistry.curve(), pack_voltage_v.quotient(F32::of_integer(cells as nat)))
    }
}

/// Estimated state of charge in percent from the pack's bus voltage.
pub fn ocv_soc(chemistry: Chemistry, cells: u8, pack_voltage_v: F32) -> (soc: F32)
    requires
        cells > 0,
    ensures
        soc == pack_soc(chemistry, cells, pack_voltage_v),
{
    if !pack_voltage_v.is_finite() {
        return F32::from_bits(0);
    }
    let curve = chemistry.ocv_curve();
    let n = F32::from_u32(cells as u32);
    proof {
        crate::float::integers_are_exact(cells as nat);
        lemma_positive_integer(cells as nat);
    }
    interpolate(curve.as_slice(), pack_voltage_v.div(n))
}

/// A positive cell count is a positive number.
proof fn lemma_positive_integer(n: nat)
    requires
        0 < n <= 0x100_0000,
    ensures
        F32::of_integer(n).finite(),
        F32::of_integer(n).magnitude() > 0,
{
    crate::float::integers_are_exact(n);
    vstd::arithmetic::power2::lemma_pow2_pos(149);
    assert(n * vstd::arithmetic::power2::pow2(149) > 0) by (nonlinear_arith)
        requires
            n > 0,
            vstd::arithmetic::power2::pow2(149) > 0,
    ;
    assert(crate::float::rounding::mag_value(0) == 0);
}

} // verus!
