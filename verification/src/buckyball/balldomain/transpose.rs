//! The transpose ball: it takes an instruction and, when run, hands back
//! its function code and operands.
use vstd::prelude::*;

verus! {

/// The ball and the instruction it last took, `(funct, xs1, xs2,
/// rob_id)`.
pub struct TransBall {
    received_inst: Option<(u32, u64, u64, u32)>,
}

impl TransBall {
    /// The instruction held.
    pub closed spec fn held(&self) -> Option<(u32, u64, u64, u32)> {
        self.received_inst
    }

    /// A ball that holds nothing.
    pub fn new() -> (t: Self)
        ensures
            t.held() is None,
    {
        TransBall { received_inst: None }
    }

    /// Takes an instruction, or nothing; always `true`.
    pub fn new_inst_ext(&mut self, received_inst: Option<(u32, u64, u64, u32)>) -> (r: bool)
        ensures
            r,
            final(self).held() == received_inst,
    {
        match received_inst {
            Some((funct, xs1, xs2, rob_id)) => {
                self.received_inst = Some((funct, xs1, xs2, rob_id));
            },
            None => {
                self.received_inst = None;
            },
        }
        true
    }

    /// Runs the instruction held: `(funct, xs1, xs2)`; it stays held.
    pub fn exec_int(&mut self) -> (r: Option<(u32, u64, u64)>)
        ensures
            match old(self).held() {
                Some((funct, xs1, xs2, rob_id)) => r == Some((funct, xs1, xs2)),
                None => r is None,
            },
            final(self).held() == old(self).held(),
    {
        match self.received_inst {
            Some((funct, xs1, xs2, _rob_id)) => Some((funct, xs1, xs2)),
            None => None,
        }
    }
}

} // verus!
