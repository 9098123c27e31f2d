//! The instruction the decoder hands the reorder buffer.
use vstd::prelude::*;

verus! {

/// A decoded instruction: function code, operands and domain.
#[derive(Clone, Copy, Debug, PartialEq, Eq, Structural)]
pub struct DecodedInstruction {
    pub funct: u32,
    pub xs1: u64,
    pub xs2: u64,
    pub domain_id: u8,
}

impl DecodedInstruction {
    /// The instruction with these fields.
    pub fn new(funct: u32, xs1: u64, xs2: u64, domain_id: u8) -> (r: Self)
        ensures
            r == (DecodedInstruction { funct, xs1, xs2, domain_id }),
    {
        DecodedInstruction { funct, xs1, xs2, domain_id }
    }
}

} // verus!
