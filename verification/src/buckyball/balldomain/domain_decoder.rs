//! The ball-domain decoder: it tags each compute instruction with the ball
//! that runs it (27 the vector ball, 28 the transpose ball, 29 the ReLU
//! ball).
use crate::buckyball::frontend::decoder::domain_of;
use vstd::prelude::*;

verus! {

/// A function code that names a ball.
pub open spec fn ball_funct(funct: u32) -> bool {
    27 <= funct <= 29
}

/// The ball of a function code that names one.
pub open spec fn ball_of(funct: u32) -> u32 {
    (funct - 27) as u32
}

/// The balls are numbered 0, 1, 2 in the order of their function codes:
/// the numbers stay below three and rise with the code, so no two codes
/// share a ball.
pub proof fn lemma_balls_in_code_order(f1: u32, f2: u32)
    requires
        ball_funct(f1),
        ball_funct(f2),
    ensures
        ball_of(f1) < 3,
        f1 < f2 ==> ball_of(f1) < ball_of(f2),
        f1 != f2 ==> ball_of(f1) != ball_of(f2),
{
}

/// Every code that names a ball is one the front end sends to the compute
/// domain.
pub proof fn lemma_ball_codes_are_compute(funct: u32)
    requires
        ball_funct(funct),
    ensures
        domain_of(funct) == 2,
{
}

/// The ball of a function code: 0 for 27, 1 for 28, 2 for 29.
fn decode_funct(funct: u32) -> (b: u32)
    requires
        ball_funct(funct),
    ensures
        b == ball_of(funct),
{
    match funct {
        27 => 0,
        28 => 1,
        _ => 2,
    }
}

/// The decoder and the instruction it last took, tagged with its ball:
/// `(funct, xs1, xs2, rob_id, ball_id)`.
pub struct DomainDecoder {
    decoded_inst: Option<(u32, u64, u64, u32, u32)>,
}

impl DomainDecoder {
    /// The instruction held.
    pub closed spec fn held(&self) -> Option<(u32, u64, u64, u32, u32)> {
        self.decoded_inst
    }

    /// A decoder that holds nothing.
    pub fn new() -> (d: Self)
        ensures
            d.held() is None,
    {
        DomainDecoder { decoded_inst: None }
    }

    /// Takes `(funct, xs1, xs2, rob_id)`, or nothing; always `true`. A
    /// function code must name a ball.
    pub fn new_inst_ext(&mut self, raw_inst: Option<(u32, u64, u64, u32)>) -> (r: bool)
        requires
            raw_inst matches Some(i) ==> ball_funct(i.0),
        ensures
            r,
            match raw_inst {
                Some((funct, xs1, xs2, rob_id)) => final(self).held() == Some(
                    (funct, xs1, xs2, rob_id, ball_of(funct)),
                ),
                None => final(self).held() is None,
            },
    {
        match raw_inst {
            Some((funct, xs1, xs2, rob_id)) => {
                self.decoded_inst = Some((funct, xs1, xs2, rob_id, decode_funct(funct)));
            },
            None => {
                self.decoded_inst = None;
            },
        }
        true
    }

    /// The tagged instruction held, if any; it stays held.
    pub fn exec_int(&mut self) -> (r: Option<(u32, u64, u64, u32, u32)>)
        ensures
            r == old(self).held(),
            final(self).held() == old(self).held(),
    {
        if self.decoded_inst.is_some() {
            return self.decoded_inst;
        }
        None
    }
}

} // verus!
