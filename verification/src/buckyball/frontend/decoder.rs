//! The front-end decoder stage: takes a raw instruction, finds its domain,
//! drops fences, and holds the decoded instruction for the ROB.
use vstd::prelude::*;
use crate::buckyball::lib::operation::{ExternalOp, InternalOp};
use crate::buckyball::memdomain::memdomain::mem_inst_of;

verus! {

/// The domain of a function code: 0 for a fence (31), 1 for a load or a
/// store (24, 25), 2 for a computation.
pub open spec fn domain_of(funct: u32) -> u32 {
    if funct == 31 {
        0
    } else if funct == 24 || funct == 25 {
        1
    } else {
        2
    }
}

/// The domain of a function code (see `domain_of`).
pub fn decode_funct(funct: u32) -> (d: u32)
    ensures
        d == domain_of(funct),
{
    match funct {
        31 => 0,
        24 | 25 => 1,
        _ => 2,
    }
}

/// A function code goes to the memory domain exactly when the memory
/// domain decodes it as one of its instructions (a move-in or a move-out),
/// whatever the operands.
pub proof fn lemma_memory_domain_codes(funct: u32, xs1: u64, xs2: u64)
    ensures
        domain_of(funct) == 1 <==> mem_inst_of(funct, xs1, xs2) is Some,
{
}

/// The decoder: the last decoded instruction `(funct, xs1, xs2, domain)`.
pub struct Decoder {
    pub decoded_inst: Option<(u32, u64, u64, u32)>,
}

/// What decoding `(funct, xs1, xs2)` leaves: nothing for a fence, else the
/// instruction with its domain.
pub open spec fn decoded(funct: u32, xs1: u64, xs2: u64) -> Option<(u32, u64, u64, u32)> {
    if domain_of(funct) == 0 {
        None
    } else {
        Some((funct, xs1, xs2, domain_of(funct)))
    }
}

impl Decoder {
    /// An empty decoder.
    pub fn new() -> (d: Self)
        ensures
            d.decoded_inst is None,
    {
        Decoder { decoded_inst: None }
    }

    /// The decode operation on this decoder.
    pub fn decode(&mut self) -> (op: DecoderDecode<'_>)
        ensures
            *op.0 == *old(self),
            *final(self) == *final(op.0),
    {
        DecoderDecode(self)
    }

    /// The hand-over to the ROB.
    pub fn push_to_rob(&mut self) -> (op: DecoderPushToRob<'_>)
        ensures
            *op.0 == *old(self),
            *final(self) == *final(op.0),
    {
        DecoderPushToRob(self)
    }
}

/// The decode operation: a raw instruction `(funct, xs1, xs2)`.
pub struct DecoderDecode<'a>(pub &'a mut Decoder);

impl<'a> ExternalOp for DecoderDecode<'a> {
    type Input = Option<(u32, u64, u64)>;

    open spec fn accepts(&self, input: &Self::Input) -> bool {
        true
    }

    /// The decoder takes an instruction whenever the control allows.
    fn can_input(&self, ctrl: bool) -> (r: bool)
        ensures
            r == ctrl,
    {
        ctrl
    }

    fn has_input(&self, input: &Self::Input) -> (r: bool)
        ensures
            r == input is Some,
    {
        input.is_some()
    }

    /// Decodes the instruction given (see `decoded`); nothing happens
    /// without one.
    fn execute(&mut self, input: &Self::Input)
        ensures
            match *input {
                Some((funct, xs1, xs2)) => final(self).0.decoded_inst == decoded(funct, xs1, xs2),
                None => *final(self).0 == *old(self).0,
            },
            *final(final(self).0) == *final(old(self).0),
    {
        match *input {
            Some((funct, xs1, xs2)) => {
                let domain_id = decode_funct(funct);
                if domain_id == 0 {
                    self.0.decoded_inst = None;
                } else {
                    self.0.decoded_inst = Some((funct, xs1, xs2, domain_id));
                }
            },
            None => {},
        }
    }
}

/// The hand-over of the decoded instruction to the ROB.
pub struct DecoderPushToRob<'a>(pub &'a mut Decoder);

impl<'a> InternalOp for DecoderPushToRob<'a> {
    type Output = Option<(u32, u64, u64, u32)>;

    open spec fn ready(&self) -> bool {
        true
    }

    fn has_output(&self) -> (r: bool)
        ensures
            r == old(self.0).decoded_inst is Some,
    {
        self.0.decoded_inst.is_some()
    }

    fn update(&mut self)
        ensures
            *final(self).0 == *old(self).0,
            *final(final(self).0) == *final(old(self).0),
    {
    }

    /// Hands out the decoded instruction, which stays.
    fn output(&mut self) -> (r: Self::Output)
        ensures
            r == old(self).0.decoded_inst,
            *final(self).0 == *old(self).0,
            *final(final(self).0) == *final(old(self).0),
    {
        self.0.decoded_inst
    }
}

} // verus!
