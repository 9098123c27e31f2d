//! The instruction the reorder buffer hands the reservation station.
use vstd::prelude::*;

verus! {

/// A dispatched instruction: function code, operands, domain and ROB id.
#[derive(Clone, Copy, Debug, PartialEq, Eq, Structural)]
pub struct DispatchedInstruction {
    pub funct: u32,
    pub xs1: u64,
    pub xs2: u64,
    pub domain_id: u8,
    pub rob_id: u64,
}

impl DispatchedInstruction {
    /// The instruction with these fields.
    pub fn new(funct: u32, xs1: u64, xs2: u64, domain_id: u8, rob_id: u64) -> (r: Self)
        ensures
            r == (DispatchedInstruction { funct, xs1, xs2, domain_id, rob_id }),
    {
        DispatchedInstruction { funct, xs1, xs2, domain_id, rob_id }
    }
}

} // verus!
