//! Pack identity: chemistry, cell count, capacity, and the charge setpoints and
//! safety limits that follow from them.

use crate::battery::{ocv_soc, pack_soc, Chemistry};
use crate::charging::{
    ENTER_ABSORB_C, EXIT_ABSORB_C, HARDWARE_OVP_MARGIN_V, INPUT_LVP_MARGIN_V, REGULATION_C,
};
use crate::device::SafetyLimits;
use crate::float::{number, F32};
use vstd::prelude::*;

verus! {

/// Highest voltage setpoint the buck takes: 70 V.
pub const V_SET_CEILING: u32 = 0x428c_0000;

/// Highest current setpoint the buck takes: 25 A.
pub const I_SET_CEILING: u32 = 0x41c8_0000;

/// Highest overvoltage trip the buck takes: 72 V.
pub const OVP_CEILING: u32 = 0x4290_0000;

/// Highest overcurrent trip the buck takes: 27 A.
pub const OCP_CEILING: u32 = 0x41d8_0000;

/// Lowest input cutoff the buck takes: 10 V.
pub const LVP_FLOOR: u32 = 0x4120_0000;

/// Highest input cutoff the buck takes: 95 V.
pub const LVP_CEILING: u32 = 0x42be_0000;

/// How far below the float target's own resting state of charge a pack may sit and
/// still count as full: 5 points.
pub const FULL_SOC_MARGIN: u32 = 0x40a0_0000;

/// Overcurrent trip over the charge current: a factor of 1.5.
pub const OCP_FACTOR: u32 = 0x3fc0_0000;

/// A pack and the targets to charge it by.
#[derive(Copy, Clone, Debug, PartialEq, Eq, Structural)]
pub struct Profile {
    pub chemistry: Chemistry,
    pub cells: u8,
    /// Rated capacity, from which the currents are scaled.
    pub capacity_ah: F32,
    pub absorb_v: F32,
    pub float_v: F32,
    /// Constant-current setpoint during normal charging.
    pub regulation_a: F32,
    pub enter_absorb_a: F32,
    pub exit_absorb_a: F32,
}

/// The profile of a pack: voltages scale with the cell count, currents with the
/// capacity.
pub open spec fn pack_profile(chemistry: Chemistry, cells: u8, capacity_ah: F32) -> Profile {
    let s = F32::of_integer(cells as nat);
    Profile {
        chemistry,
        cells,
        capacity_ah,
        absorb_v: chemistry.cell_voltages().absorb_v.product(s),
        float_v: chemistry.cell_voltages().float_v.product(s),
        regulation_a: capacity_ah.product(number(REGULATION_C)),
        enter_absorb_a: capacity_ah.product(number(ENTER_ABSORB_C)),
        exit_absorb_a: capacity_ah.product(number(EXIT_ABSORB_C)),
    }
}

/// The buck takes the profile's setpoints. The absorb target is the higher of the
/// two, so it alone bounds the voltage.
pub open spec fn chargeable(p: Profile) -> bool {
    &&& p.absorb_v.at_most(number(V_SET_CEILING))
    &&& p.regulation_a.at_most(number(I_SET_CEILING))
}

/// The trip limits that go with a profile and an input rail.
pub open spec fn profile_limits(p: Profile, input_nominal_v: F32) -> SafetyLimits {
    SafetyLimits {
        ovp_v: p.absorb_v.sum(number(HARDWARE_OVP_MARGIN_V)),
        ocp_a: p.regulation_a.product(number(OCP_FACTOR)),
        lvp_v: input_nominal_v.difference(number(INPUT_LVP_MARGIN_V)),
    }
}

/// The buck takes these limits.
pub open spec fn programmable(limits: SafetyLimits) -> bool {
    &&& limits.ocp_a.at_most(number(OCP_CEILING))
    &&& limits.ovp_v.at_most(number(OVP_CEILING))
    &&& number(LVP_FLOOR).at_most(limits.lvp_v)
    &&& limits.lvp_v.at_most(number(LVP_CEILING))
}

/// Whether the buck takes these limits.
fn takes_limits(limits: SafetyLimits) -> (b: bool)
    ensures
        b == programmable(limits),
{
    limits.ocp_a.le(F32::from_bits(OCP_CEILING)) && limits.ovp_v.le(F32::from_bits(OVP_CEILING))
        && limits.lvp_v.ge(F32::from_bits(LVP_FLOOR)) && limits.lvp_v.le(
        F32::from_bits(LVP_CEILING),
    )
}

/// What the board supplies and carries besides the pack.
#[derive(Copy, Clone, Debug, PartialEq, Eq, Structural)]
pub struct SupplyBudget {
    /// Nominal voltage of the DC input rail.
    pub input_nominal_v: F32,
    /// Load current on the buck's output.
    pub load_a: F32,
}

/// What to program into the buck.
#[derive(Copy, Clone, Debug, PartialEq, Eq, Structural)]
pub struct BuckSetup {
    /// Current setpoint: charge current and load.
    pub i_set_a: F32,
    pub limits: SafetyLimits,
}

/// What to program for a profile on a board. The buck limits its total output
/// current, so the load counts in the setpoint and in its trip.
pub open spec fn profile_setup(p: Profile, supply: SupplyBudget) -> BuckSetup {
    let i_set_a = p.regulation_a.sum(supply.load_a);
    BuckSetup {
        i_set_a,
        limits: SafetyLimits {
            ocp_a: i_set_a.product(number(OCP_FACTOR)),
            ..profile_limits(p, supply.input_nominal_v)
        },
    }
}

impl Profile {
    /// Builds a profile from chemistry, series cell count and capacity. A pack
    /// this hardware cannot charge is not admitted.
    pub fn for_pack(chemistry: Chemistry, cells: u8, capacity_ah: F32) -> (p: Profile)
        requires
            cells > 0,
            number(0).below(capacity_ah),
            chargeable(pack_profile(chemistry, cells, capacity_ah)),
        ensures
            p == pack_profile(chemistry, cells, capacity_ah),
    {
        let v = chemistry.charge_voltages();
        let s = F32::from_u32(cells as u32);
        Profile {
            chemistry,
            cells,
            capacity_ah,
            absorb_v: v.absorb_v.mul(s),
            float_v: v.float_v.mul(s),
            regulation_a: capacity_ah.mul(F32::from_bits(REGULATION_C)),
            enter_absorb_a: capacity_ah.mul(F32::from_bits(ENTER_ABSORB_C)),
            exit_absorb_a: capacity_ah.mul(F32::from_bits(EXIT_ABSORB_C)),
        }
    }

    /// Whether the buck can charge such a pack at all: what `for_pack` asks for.
    pub fn pack_fits(chemistry: Chemistry, cells: u8, capacity_ah: F32) -> (b: bool)
        ensures
            b == (cells > 0 && number(0).below(capacity_ah) && chargeable(
                pack_profile(chemistry, cells, capacity_ah),
            )),
    {
        let s = F32::from_u32(cells as u32);
        cells > 0 && F32::from_bits(0).lt(capacity_ah) && chemistry.charge_voltages().absorb_v.mul(
            s,
        ).le(F32::from_bits(V_SET_CEILING)) && capacity_ah.mul(F32::from_bits(REGULATION_C)).le(
            F32::from_bits(I_SET_CEILING),
        )
    }

    /// Estimated state of charge in percent from the pack's bus voltage.
    pub fn soc(&self, pack_voltage_v: F32) -> (soc: F32)
        requires
            self.cells > 0,
        ensures
            soc == pack_soc(self.chemistry, self.cells, pack_voltage_v),
    {
        ocv_soc(self.chemistry, self.cells, pack_voltage_v)
    }

    /// Resting state of charge at or above which a pack counts as full. Taken
    /// from this profile's own float target, because what "full" means belongs to
    /// the profile and not to the chemistry's 100 % point.
    pub fn full_rest_soc(&self) -> (soc: F32)
        requires
            self.cells > 0,
        ensures
            soc == pack_soc(self.chemistry, self.cells, self.float_v).difference(
                number(FULL_SOC_MARGIN),
            ),
    {
        self.soc(self.float_v).sub(F32::from_bits(FULL_SOC_MARGIN))
    }

    /// Trip thresholds for the buck's own protection. It fires them only when
    /// regulation has already failed: the supervisor's overvoltage trip sits at a
    /// third of the margin. The low-voltage limit is about the input rail, not
    /// the pack. Limits the buck does not take are not admitted.
    pub fn safety_limits(&self, input_nominal_v: F32) -> (limits: SafetyLimits)
        requires
            programmable(profile_limits(*self, input_nominal_v)),
        ensures
            limits == profile_limits(*self, input_nominal_v),
    {
        SafetyLimits {
            ovp_v: self.absorb_v.add(F32::from_bits(HARDWARE_OVP_MARGIN_V)),
            ocp_a: self.regulation_a.mul(F32::from_bits(OCP_FACTOR)),
            lvp_v: input_nominal_v.sub(F32::from_bits(INPUT_LVP_MARGIN_V)),
        }
    }

    /// Whether the buck takes the limits for this input rail: what `safety_limits`
    /// asks for.
    pub fn limits_fit(&self, input_nominal_v: F32) -> (b: bool)
        ensures
            b == programmable(profile_limits(*self, input_nominal_v)),
    {
        takes_limits(
            SafetyLimits {
                ovp_v: self.absorb_v.add(F32::from_bits(HARDWARE_OVP_MARGIN_V)),
                ocp_a: self.regulation_a.mul(F32::from_bits(OCP_FACTOR)),
                lvp_v: input_nominal_v.sub(F32::from_bits(INPUT_LVP_MARGIN_V)),
            },
        )
    }

    /// Whether the buck takes the setup for this supply and load: what `buck_setup`
    /// asks for.
    pub fn setup_fits(&self, supply: SupplyBudget) -> (b: bool)
        ensures
            b == programmable(profile_setup(*self, supply).limits),
    {
        takes_limits(
            SafetyLimits {
                ovp_v: self.absorb_v.add(F32::from_bits(HARDWARE_OVP_MARGIN_V)),
                ocp_a: self.regulation_a.add(supply.load_a).mul(F32::from_bits(OCP_FACTOR)),
                lvp_v: supply.input_nominal_v.sub(F32::from_bits(INPUT_LVP_MARGIN_V)),
            },
        )
    }

    /// What to program into the buck on a board with this supply and load. Values
    /// the buck does not take are not admitted.
    pub fn buck_setup(&self, supply: SupplyBudget) -> (setup: BuckSetup)
        requires
            programmable(profile_setup(*self, supply).limits),
        ensures
            setup == profile_setup(*self, supply),
    {
        let i_set_a = self.regulation_a.add(supply.load_a);
        BuckSetup {
            i_set_a,
            limits: SafetyLimits {
                ovp_v: self.absorb_v.add(F32::from_bits(HARDWARE_OVP_MARGIN_V)),
                ocp_a: i_set_a.mul(F32::from_bits(OCP_FACTOR)),
                lvp_v: supply.input_nominal_v.sub(F32::from_bits(INPUT_LVP_MARGIN_V)),
            },
        }
    }
}

} // verus!
