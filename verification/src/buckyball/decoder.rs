//! The front-end decoder: it takes RoCC instructions, sends each to the
//! ROB with its domain, and holds a fence until the ROB drains.
//!
//! Domains: 0 for a fence (function 31), 1 for the memory domain (24, 25),
//! 2 for the compute domain (any other).
use vstd::prelude::*;
use crate::buckyball::memdomain::memdomain::mem_inst_of;

verus! {

/// The flags the decoder and the ROB share: whether the ROB takes a new
/// instruction, and whether a fence waits for the ROB to drain.
#[derive(Clone)]
pub struct FrontendFlags {
    pub rob_ready: bool,
    pub fence: bool,
}

impl FrontendFlags {
    /// The ROB ready and no fence.
    pub fn new() -> (f: Self)
        ensures
            f.rob_ready,
            !f.fence,
    {
        FrontendFlags { rob_ready: true, fence: false }
    }
}

/// The domain of a function code.
pub open spec fn domain_of(funct: u64) -> u64 {
    if funct == 31 {
        0
    } else if funct == 24 || funct == 25 {
        1
    } else {
        2
    }
}

/// A function code goes to the memory domain exactly when the memory
/// domain decodes it as one of its instructions (a move-in or a move-out),
/// whatever the operands.
pub proof fn lemma_memory_domain_codes(funct: u64, xs1: u64, xs2: u64)
    ensures
        domain_of(funct) == 1 <==> (funct <= u32::MAX && mem_inst_of(funct as u32, xs1, xs2) is Some),
{
}

/// The domain of a function code: 0 for a fence, 1 for a load or store,
/// 2 for a computation.
pub fn decode_funct(funct: u64) -> (d: u64)
    ensures
        d == domain_of(funct),
{
    match funct {
        31 => 0,
        24 | 25 => 1,
        _ => 2,
    }
}

/// The decoder: its ports and the instruction it holds, `(funct, xs1,
/// xs2)`.
#[derive(Clone)]
pub struct Decoder {
    pub instruction_port: String,
    pub push_to_rob_port: String,
    inst: Option<(u64, u64, u64)>,
}

/// What the decoder does in an internal step.
#[derive(Clone, Copy, Debug, PartialEq, Eq, Structural)]
pub enum DecoderStep {
    /// The ROB is full or a fence waits: try again next cycle.
    Retry,
    /// Send `[funct, xs1, xs2, domain_id]` to the ROB and answer the host.
    Issue { funct: u64, xs1: u64, xs2: u64, domain_id: u64 },
}

impl Decoder {
    /// The instruction held.
    pub closed spec fn held(&self) -> Option<(u64, u64, u64)> {
        self.inst
    }

    /// A decoder that holds no instruction.
    pub fn new(instruction_port: String, push_to_rob_port: String) -> (d: Self)
        ensures
            d.held() is None,
    {
        Decoder { instruction_port, push_to_rob_port, inst: None }
    }

    /// Whether the decoder holds an instruction.
    pub fn holds_instruction(&self) -> (r: bool)
        ensures
            r == self.held() is Some,
    {
        self.inst.is_some()
    }

    /// Takes an instruction `[funct, xs1, xs2, ..]` from the host. A fence
    /// raises the fence flag and is not sent on (`false`); any other
    /// instruction is sent at the next step (`true`).
    pub fn on_instruction(&mut self, flags: &mut FrontendFlags, values: &Vec<u64>) -> (r: bool)
        requires
            values@.len() >= 3,
        ensures
            final(self).held() == Some((values@[0], values@[1], values@[2])),
            r == (values@[0] != 31),
            !r ==> final(flags).fence && final(flags).rob_ready == old(flags).rob_ready,
            r ==> *final(flags) == *old(flags),
    {
        let funct = values[0];
        let xs1 = values[1];
        let xs2 = values[2];
        self.inst = Some((funct, xs1, xs2));
        if funct == 31 {
            flags.fence = true;
            false
        } else {
            true
        }
    }

    /// Sends the held instruction on, with its domain, when the ROB takes
    /// one and no fence waits; otherwise tries again.
    pub fn internal_step(&self, flags: &FrontendFlags) -> (r: DecoderStep)
        requires
            self.held() is Some,
        ensures
            ({
                let (funct, xs1, xs2) = self.held()->0;
                &&& (!flags.rob_ready || flags.fence) ==> r is Retry
                &&& (flags.rob_ready && !flags.fence) ==> r == DecoderStep::Issue {
                    funct,
                    xs1,
                    xs2,
                    domain_id: domain_of(funct),
                }
            }),
    {
        let (funct, xs1, xs2) = match self.inst {
            Some(i) => i,
            None => (0, 0, 0),
        };
        if !flags.rob_ready {
            return DecoderStep::Retry;
        }
        if flags.fence {
            return DecoderStep::Retry;
        }
        let domain_id = decode_funct(funct);
        DecoderStep::Issue { funct, xs1, xs2, domain_id }
    }
}

} // verus!
