//! A RoCC instruction as the host issues it.
use vstd::prelude::*;

verus! {

/// A RoCC instruction: function code and two operands.
#[derive(Clone, Copy, Debug, PartialEq, Eq, Structural)]
pub struct RoccInstruction {
    pub funct: u32,
    pub xs1: u64,
    pub xs2: u64,
}

impl RoccInstruction {
    /// The instruction with these fields.
    pub fn new(funct: u32, xs1: u64, xs2: u64) -> (r: Self)
        ensures
            r == (RoccInstruction { funct, xs1, xs2 }),
    {
        RoccInstruction { funct, xs1, xs2 }
    }
}

} // verus!
