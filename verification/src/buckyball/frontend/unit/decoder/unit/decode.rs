//! The domain of a function code, as the decoder unit tags it.
use vstd::prelude::*;

verus! {

/// The domain of a function code: 0 for a fence (31), 1 for the memory
/// domain (24, 25), 2 for the compute domain (any other).
pub open spec fn funct_domain(funct: u32) -> u8 {
    if funct == 31 {
        0
    } else if funct == 24 || funct == 25 {
        1
    } else {
        2
    }
}

/// Decodes a function code to its domain.
pub fn decode_funct(funct: u32) -> (d: u8)
    ensures
        d == funct_domain(funct),
{
    match funct {
        31 => 0,
        24 | 25 => 1,
        _ => 2,
    }
}

} // verus!
