//! What the supervisor makes of a protection cause.

use crate::device::ProtectionStatus;
use vstd::prelude::*;

verus! {

/// The two questions anything asks about a protection cause. The supervisor
/// decides from them whether to latch or wait, the display and the event log what
/// to show; reading the same answers keeps them in agreement.
///
/// Both answer `false` for a cause that is not singled out, which is the safe
/// direction: an unrecognised protection latches instead of being waited out.
pub trait ProtectionPolicy: Sized {
    /// What `is_self_clearing` answers.
    spec fn self_clearing(self) -> bool;

    /// What `is_input_loss` answers.
    spec fn input_loss(self) -> bool;

    /// The buck holds itself off but is otherwise healthy, and comes back by
    /// itself once the condition lifts.
    fn is_self_clearing(self) -> (b: bool)
        ensures
            b == self.self_clearing(),
    ;

    /// The DC input went away, or sagged too low: the routine "supply unplugged"
    /// case.
    fn is_input_loss(self) -> (b: bool)
        ensures
            b == self.input_loss(),
    ;
}

impl ProtectionPolicy for ProtectionStatus {
    open spec fn self_clearing(self) -> bool {
        self == ProtectionStatus::Lvp || self == ProtectionStatus::Otp
    }

    open spec fn input_loss(self) -> bool {
        self == ProtectionStatus::Lvp
    }

    fn is_self_clearing(self) -> (b: bool) {
        matches!(self, ProtectionStatus::Lvp | ProtectionStatus::Otp)
    }

    fn is_input_loss(self) -> (b: bool) {
        matches!(self, ProtectionStatus::Lvp)
    }
}

/// Input loss is one of the self-clearing causes, so that the supervisor never
/// latches on what the display calls benign.
pub proof fn input_loss_is_self_clearing(cause: ProtectionStatus)
    ensures
        cause.input_loss() ==> cause.self_clearing(),
{
}

/// Of all causes a sagging input and heat clear by themselves, and only a sagging input
/// is a loss of the supply.
pub proof fn input_and_heat_clear_themselves(cause: ProtectionStatus)
    ensures
        cause.self_clearing() <==> cause == ProtectionStatus::Lvp || cause == ProtectionStatus::Otp,
        cause.input_loss() <==> cause == ProtectionStatus::Lvp,
{
}

} // verus!
