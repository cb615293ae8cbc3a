//! Which constant-voltage setpoint the supervisor is holding.

use vstd::prelude::*;

verus! {

/// The two constant-voltage targets.
#[derive(Copy, Clone, Debug, PartialEq, Eq, Structural)]
pub enum Phase {
    Float,
    Absorb,
}

impl Phase {
    /// The text of `label`.
    pub open spec fn label_text(self) -> Seq<char> {
        match self {
            Phase::Float => "float"@,
            Phase::Absorb => "absorb"@,
        }
    }

    /// The phase in lower case.
    pub fn label(self) -> (name: &'static str)
        ensures
            name@ == self.label_text(),
    {
        match self {
            Phase::Float => "float",
            Phase::Absorb => "absorb",
        }
    }
}

} // verus!
