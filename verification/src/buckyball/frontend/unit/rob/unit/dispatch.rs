//! When the reorder buffer may dispatch an instruction.
use crate::buckyball::frontend::unit::rob::bundles::decoder_rob::DecodedInstruction;
use vstd::prelude::*;

verus! {

/// The dispatch policy of the reorder buffer.
pub struct DispatchPolicy;

impl DispatchPolicy {
    /// An instruction may go unless its domain is the invalid one, 255.
    pub fn can_dispatch(inst: &DecodedInstruction) -> (r: bool)
        ensures
            r == (inst.domain_id != 255),
    {
        inst.domain_id != 255
    }
}

} // verus!
