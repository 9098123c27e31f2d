//! The vector unit: it reads two 16-word operands from banks, forms their
//! dot product over the low 64 bits of each word, and writes sixteen
//! copies of it to a bank.
//!
//! Its steps: take the instruction (Idle to WaitOp1); ask for operand 1
//! every cycle until it comes (WaitOp1 to WaitOp2), then operand 2
//! (WaitOp2 to Computing); compute and send the write (Computing to
//! WaitWriteResp); commit once the write is done (back to Idle).
use crate::arch::buckyball::mem_ctrl::{
    read_for,
    request_read_bank_for_vecball,
    vecball_source,
    MemSystem,
};
use crate::message::{decode_words, json_words, MessageError};
use vstd::prelude::*;

verus! {

/// The unit's state.
#[derive(Clone, Copy, Debug, PartialEq, Eq, Structural)]
pub enum VecBallState {
    Idle,
    WaitOp1,
    WaitOp2,
    Computing,
    WaitWriteResp,
}

/// A vector instruction, decoded.
#[derive(Clone, Copy, PartialEq, Eq, Structural)]
pub struct VecballInst {
    pub op1_bank_id: u64,
    pub op2_bank_id: u64,
    pub wr_bank_id: u64,
    pub iter: u64,
    pub rob_id: u64,
}

/// The unit's issue slot: whether a new instruction may be issued, the
/// instruction that waits, and the state the unit last reported.
pub struct VecballSlot {
    pub can_issue: bool,
    pub inst: Option<VecballInst>,
    pub state: VecBallState,
}

impl VecballSlot {
    /// An open slot with no instruction, the unit idle.
    pub fn new() -> (s: Self)
        ensures
            s.can_issue,
            s.inst is None,
            s.state == VecBallState::Idle,
    {
        VecballSlot { can_issue: true, inst: None, state: VecBallState::Idle }
    }
}

/// The fields of a vector instruction, `(op1_bank_id, op2_bank_id,
/// wr_bank_id, iter)`: bits 0 to 7 and 8 to 15 of `xs1`, bits 0 to 7 and 8
/// to 23 of `xs2`.
pub open spec fn vecball_fields(xs1: u64, xs2: u64) -> (u64, u64, u64, u64) {
    ((xs1 % 256) as u64, ((xs1 / 256) % 256) as u64, (xs2 % 256) as u64, ((xs2 / 256) % 65536) as u64)
}

/// Decodes a vector instruction into `(op1_bank_id, op2_bank_id,
/// wr_bank_id, iter)`.
pub fn decode_inst(xs1: u64, xs2: u64) -> (r: (u64, u64, u64, u64))
    ensures
        r == vecball_fields(xs1, xs2),
{
    let op1_bank_id = xs1 & 0xFF;
    let op2_bank_id = (xs1 >> 8) & 0xFF;
    let wr_bank_id = xs2 & 0xFF;
    let iter = (xs2 >> 8) & 0xFFFF;
    assert(xs1 & 0xff == xs1 % 256) by (bit_vector);
    assert((xs1 >> 8) & 0xff == (xs1 / 256) % 256) by (bit_vector);
    assert(xs2 & 0xff == xs2 % 256) by (bit_vector);
    assert((xs2 >> 8) & 0xffff == (xs2 / 256) % 65536) by (bit_vector);
    (op1_bank_id, op2_bank_id, wr_bank_id, iter)
}

/// Hands the unit a vector instruction and closes the slot. The caller
/// checks first that the slot is open.
pub fn receive_vecball_inst(slot: &mut VecballSlot, xs1: u64, xs2: u64, rob_id: u64)
    ensures
        ({
            let (op1_bank_id, op2_bank_id, wr_bank_id, iter) = vecball_fields(xs1, xs2);
            final(slot).inst == Some(VecballInst { op1_bank_id, op2_bank_id, wr_bank_id, iter, rob_id })
        }),
        !final(slot).can_issue,
        final(slot).state == old(slot).state,
{
    let (op1_bank_id, op2_bank_id, wr_bank_id, iter) = decode_inst(xs1, xs2);
    slot.inst = Some(VecballInst { op1_bank_id, op2_bank_id, wr_bank_id, iter, rob_id });
    slot.can_issue = false;
}

/// Whether the unit is idle.
pub fn is_vecball_idle(slot: &VecballSlot) -> (r: bool)
    ensures
        r == (slot.state == VecBallState::Idle),
{
    slot.state == VecBallState::Idle
}

/// The product of the low 64 bits of `a` and `b`, modulo 2^64.
pub open spec fn low_product(a: u128, b: u128) -> int {
    ((a % 0x1_0000_0000_0000_0000) * (b % 0x1_0000_0000_0000_0000)) % 0x1_0000_0000_0000_0000
}

/// The sum of the first `n` low products of `a` and `b`.
pub open spec fn warp_dot(a: Seq<u128>, b: Seq<u128>, n: int) -> int
    decreases n,
{
    if n <= 0 {
        0
    } else {
        warp_dot(a, b, n - 1) + low_product(a[n - 1], b[n - 1])
    }
}

/// The dot product does not depend on the order of its operands.
pub proof fn lemma_warp_dot_commutes(a: Seq<u128>, b: Seq<u128>, n: int)
    ensures
        warp_dot(a, b, n) == warp_dot(b, a, n),
    decreases n,
{
    if n > 0 {
        lemma_warp_dot_commutes(a, b, n - 1);
        let x = a[n - 1] % 0x1_0000_0000_0000_0000;
        let y = b[n - 1] % 0x1_0000_0000_0000_0000;
        assert(x * y == y * x) by (nonlinear_arith);
    }
}

/// A word whose low half is one picks out the low half of the word it is
/// multiplied with, and a word whose low half is zero contributes nothing.
pub proof fn lemma_low_product_unit(a: u128, b: u128)
    ensures
        a % 0x1_0000_0000_0000_0000 == 1 ==> low_product(a, b) == b % 0x1_0000_0000_0000_0000,
        a % 0x1_0000_0000_0000_0000 == 0 ==> low_product(a, b) == 0,
{
    let y = b % 0x1_0000_0000_0000_0000;
    vstd::arithmetic::div_mod::lemma_small_mod(y as nat, 0x1_0000_0000_0000_0000nat);
}

proof fn lemma_warp_dot_bound(a: Seq<u128>, b: Seq<u128>, n: int)
    requires
        0 <= n,
    ensures
        0 <= warp_dot(a, b, n) <= n * 0xffff_ffff_ffff_ffff,
    decreases n,
{
    if n > 0 {
        lemma_warp_dot_bound(a, b, n - 1);
    }
}

/// The unit's result: sixteen copies of the dot product of the operands.
pub fn compute_warp(op1: &Vec<u128>, op2: &Vec<u128>) -> (r: Vec<u128>)
    requires
        op1@.len() == 16,
        op2@.len() == 16,
    ensures
        r@.len() == 16,
        forall|i: int| 0 <= i < 16 ==> #[trigger] r@[i] == warp_dot(op1@, op2@, 16),
{
    let mut result: Vec<u128> = Vec::new();
    let mut i: usize = 0;
    while i < 16
        invariant
            i <= 16,
            op1@.len() == 16,
            op2@.len() == 16,
            result@.len() == i,
            forall|k: int| 0 <= k < i ==> #[trigger] result@[k] == warp_dot(op1@, op2@, 16),
        decreases 16 - i,
    {
        let mut sum: u128 = 0;
        let mut j: usize = 0;
        while j < 16
            invariant
                j <= 16,
                op1@.len() == 16,
                op2@.len() == 16,
                sum == warp_dot(op1@, op2@, j as int),
            decreases 16 - j,
        {
            let x = op1[j];
            let y = op2[j];
            let a = x as u64;
            let b = y as u64;
            assert(a == x % 0x1_0000_0000_0000_0000) by (bit_vector)
                requires
                    a == x as u64,
            ;
            assert(b == y % 0x1_0000_0000_0000_0000) by (bit_vector)
                requires
                    b == y as u64,
            ;
            let p = a.wrapping_mul(b);
            assert(p == (a * b) % 0x1_0000_0000_0000_0000);
            proof {
                lemma_warp_dot_bound(op1@, op2@, j as int);
            }
            sum = sum.wrapping_add(p as u128);
            j = j + 1;
        }
        result.push(sum);
        i = i + 1;
    }
    result
}

/// The vector unit.
#[derive(Clone)]
pub struct VectorBall {
    pub ball_mem_write_req_port: String,
    pub mem_ball_read_resp_port: String,
    pub commit_to_rob_port: String,
    state: VecBallState,
    op1_bank_id: u64,
    op2_bank_id: u64,
    wr_bank_id: u64,
    iter: u64,
    mode: u64,
    rob_id: u64,
    op1_data: Vec<u128>,
    op2_data: Vec<u128>,
    result_data: Vec<u128>,
}

/// What the unit asks of its host after an internal step.
pub enum VecballAction {
    /// Nothing to do until an instruction comes.
    Idle,
    /// An instruction was taken; look again next cycle.
    Started,
    /// An operand read was asked for; look again next cycle.
    ReadIssued,
    /// Send the bank write `(rob_id, wr_bank_id, 0, data)`; the write takes
    /// its latency.
    Write { rob_id: u64, wr_bank_id: u64, data: Vec<u128> },
    /// The write is not done yet.
    Pending,
    /// The instruction of `rob_id` is done.
    Commit { rob_id: u64 },
}

/// What became of a read response.
#[derive(Clone, Copy, Debug, PartialEq, Eq, Structural)]
pub enum VecballResponse {
    /// The unit was not waiting for an operand.
    Ignored,
    /// Operand 1 came; operand 2 is asked for next.
    Op1,
    /// Operand 2 came; the computation runs.
    Op2,
}

/// Why a read response could not be taken.
#[derive(Clone, Copy, Debug, PartialEq, Eq, Structural)]
pub enum VecballError {
    /// The body did not decode.
    Malformed,
    /// The body did not hold sixteen words.
    WrongLength,
}

impl VectorBall {
    /// The unit's state.
    pub closed spec fn spec_state(&self) -> VecBallState {
        self.state
    }

    /// The instruction being carried out.
    pub closed spec fn current(&self) -> VecballInst {
        VecballInst {
            op1_bank_id: self.op1_bank_id,
            op2_bank_id: self.op2_bank_id,
            wr_bank_id: self.wr_bank_id,
            iter: self.iter,
            rob_id: self.rob_id,
        }
    }

    /// The operands as received.
    pub closed spec fn operands(&self) -> (Seq<u128>, Seq<u128>) {
        (self.op1_data@, self.op2_data@)
    }

    /// The unit is consistent: both operands and the result have sixteen
    /// words.
    pub closed spec fn wf(&self) -> bool {
        &&& self.op1_data@.len() == 16
        &&& self.op2_data@.len() == 16
        &&& self.result_data@.len() == 16
    }

    /// An idle unit with zero operands.
    pub fn new(
        commit_to_rob_port: String,
        ball_mem_write_req_port: String,
        mem_ball_read_resp_port: String,
        slot: &mut VecballSlot,
    ) -> (v: Self)
        ensures
            v.wf(),
            v.spec_state() == VecBallState::Idle,
            final(slot).can_issue,
            final(slot).inst is None,
            final(slot).state == old(slot).state,
    {
        slot.can_issue = true;
        slot.inst = None;
        VectorBall {
            ball_mem_write_req_port,
            mem_ball_read_resp_port,
            commit_to_rob_port,
            state: VecBallState::Idle,
            op1_bank_id: 0,
            op2_bank_id: 0,
            wr_bank_id: 0,
            iter: 0,
            mode: 0,
            rob_id: 0,
            op1_data: zero_words16(),
            op2_data: zero_words16(),
            result_data: zero_words16(),
        }
    }

    /// The unit's state.
    pub fn state(&self) -> (r: VecBallState)
        ensures
            r == self.spec_state(),
    {
        self.state
    }

    /// Takes a read response with body a list of words: operand 1 while
    /// waiting for it, then operand 2, which starts the computation. An
    /// error, with nothing changed, for a body that does not decode or
    /// does not hold sixteen words.
    pub fn on_read_response(&mut self, slot: &mut VecballSlot, content: &String) -> (r: Result<VecballResponse, VecballError>)
        requires
            old(self).wf(),
        ensures
            final(self).wf(),
            final(self).current() == old(self).current(),
            match json_words(content@) {
                None => r == Err::<VecballResponse, VecballError>(VecballError::Malformed)
                    && *final(self) == *old(self) && *final(slot) == *old(slot),
                Some(data) => {
                    &&& data.len() != 16 ==> r == Err::<VecballResponse, VecballError>(VecballError::WrongLength)
                        && *final(self) == *old(self) && *final(slot) == *old(slot)
                    &&& data.len() == 16 ==> {
                        &&& old(self).spec_state() == VecBallState::WaitOp1 ==> {
                            &&& r == Ok::<VecballResponse, VecballError>(VecballResponse::Op1)
                            &&& final(self).operands() == (data, old(self).operands().1)
                            &&& final(self).spec_state() == VecBallState::WaitOp2
                            &&& final(slot).state == VecBallState::WaitOp2
                            &&& final(slot).inst == old(slot).inst
                            &&& final(slot).can_issue == old(slot).can_issue
                        }
                        &&& old(self).spec_state() == VecBallState::WaitOp2 ==> {
                            &&& r == Ok::<VecballResponse, VecballError>(VecballResponse::Op2)
                            &&& final(self).operands() == (old(self).operands().0, data)
                            &&& final(self).spec_state() == VecBallState::Computing
                            &&& final(slot).state == VecBallState::Computing
                            &&& final(slot).inst == old(slot).inst
                            &&& final(slot).can_issue == old(slot).can_issue
                        }
                        &&& old(self).spec_state() != VecBallState::WaitOp1 && old(self).spec_state()
                            != VecBallState::WaitOp2 ==> r == Ok::<VecballResponse, VecballError>(
                            VecballResponse::Ignored,
                        ) && *final(self) == *old(self) && *final(slot) == *old(slot)
                    }
                },
            },
    {
        let data_vec = match decode_words(content) {
            Ok(v) => v,
            Err(_) => {
                return Err(VecballError::Malformed);
            },
        };
        if data_vec.len() != 16 {
            return Err(VecballError::WrongLength);
        }
        match self.state {
            VecBallState::WaitOp1 => {
                self.op1_data = data_vec;
                self.state = VecBallState::WaitOp2;
                slot.state = VecBallState::WaitOp2;
                Ok(VecballResponse::Op1)
            },
            VecBallState::WaitOp2 => {
                self.op2_data = data_vec;
                self.state = VecBallState::Computing;
                slot.state = VecBallState::Computing;
                Ok(VecballResponse::Op2)
            },
            _ => Ok(VecballResponse::Ignored),
        }
    }

    /// One internal step: take a waiting instruction (Idle); ask for
    /// operand 1 or 2 (WaitOp1, WaitOp2); compute and hand out the write
    /// (Computing); commit and open the slot once `write_done` (the write's
    /// latency has passed) while waiting for the write.
    pub fn internal_step(&mut self, slot: &mut VecballSlot, sys: &mut MemSystem, write_done: bool) -> (r: VecballAction)
        requires
            old(self).wf(),
            old(sys).wf(),
        ensures
            final(self).wf(),
            final(sys).wf(),
            old(self).spec_state() == VecBallState::Idle ==> match old(slot).inst {
                Some(inst) => {
                    &&& r is Started
                    &&& final(self).current() == inst
                    &&& final(self).spec_state() == VecBallState::WaitOp1
                    &&& final(slot).state == VecBallState::WaitOp1
                    &&& final(slot).inst is None
                    &&& final(slot).can_issue == old(slot).can_issue
                    &&& *final(sys) == *old(sys)
                },
                None => r is Idle && *final(self) == *old(self) && *final(slot) == *old(slot)
                    && *final(sys) == *old(sys),
            },
            old(self).spec_state() == VecBallState::WaitOp1 ==> {
                let inst = old(self).current();
                &&& r is ReadIssued
                &&& *final(self) == *old(self)
                &&& *final(slot) == *old(slot)
                &&& read_for(*old(sys), *final(sys), vecball_source(), inst.op1_bank_id, 0, 16, inst.rob_id)
            },
            old(self).spec_state() == VecBallState::WaitOp2 ==> {
                let inst = old(self).current();
                &&& r is ReadIssued
                &&& *final(self) == *old(self)
                &&& *final(slot) == *old(slot)
                &&& read_for(*old(sys), *final(sys), vecball_source(), inst.op2_bank_id, 0, 16, inst.rob_id)
            },
            old(self).spec_state() == VecBallState::Computing ==> {
                let (op1, op2) = old(self).operands();
                &&& r matches VecballAction::Write { rob_id, wr_bank_id, data } && rob_id
                    == old(self).current().rob_id && wr_bank_id == old(self).current().wr_bank_id
                    && data@.len() == 16 && forall|i: int| 0 <= i < 16 ==> #[trigger] data@[i] == warp_dot(op1, op2, 16)
                &&& final(self).spec_state() == VecBallState::WaitWriteResp
                &&& final(slot).state == VecBallState::WaitWriteResp
                &&& final(slot).inst == old(slot).inst
                &&& final(slot).can_issue == old(slot).can_issue
                &&& *final(sys) == *old(sys)
            },
            old(self).spec_state() == VecBallState::WaitWriteResp ==> {
                &&& *final(sys) == *old(sys)
                &&& write_done ==> {
                    &&& r == VecballAction::Commit { rob_id: old(self).current().rob_id }
                    &&& final(self).spec_state() == VecBallState::Idle
                    &&& final(slot).state == VecBallState::Idle
                    &&& final(slot).inst == old(slot).inst
                    &&& final(slot).can_issue
                }
                &&& !write_done ==> r is Pending && *final(self) == *old(self) && *final(slot) == *old(slot)
            },
    {
        match self.state {
            VecBallState::Idle => {
                match slot.inst.take() {
                    Some(inst) => {
                        self.op1_bank_id = inst.op1_bank_id;
                        self.op2_bank_id = inst.op2_bank_id;
                        self.wr_bank_id = inst.wr_bank_id;
                        self.iter = inst.iter;
                        self.mode = 0;
                        self.rob_id = inst.rob_id;
                        self.state = VecBallState::WaitOp1;
                        slot.state = VecBallState::WaitOp1;
                        VecballAction::Started
                    },
                    None => VecballAction::Idle,
                }
            },
            VecBallState::WaitOp1 => {
                request_read_bank_for_vecball(sys, self.op1_bank_id, 0, 16, self.rob_id);
                VecballAction::ReadIssued
            },
            VecBallState::WaitOp2 => {
                request_read_bank_for_vecball(sys, self.op2_bank_id, 0, 16, self.rob_id);
                VecballAction::ReadIssued
            },
            VecBallState::Computing => {
                self.result_data = compute_warp(&self.op1_data, &self.op2_data);
                let write_data = self.result_data.clone();
                assert(write_data@ =~= self.result_data@);
                self.state = VecBallState::WaitWriteResp;
                slot.state = VecBallState::WaitWriteResp;
                VecballAction::Write { rob_id: self.rob_id, wr_bank_id: self.wr_bank_id, data: write_data }
            },
            VecBallState::WaitWriteResp => {
                if write_done {
                    self.state = VecBallState::Idle;
                    slot.state = VecBallState::Idle;
                    slot.can_issue = true;
                    VecballAction::Commit { rob_id: self.rob_id }
                } else {
                    VecballAction::Pending
                }
            },
        }
    }
}

/// Sixteen zero words.
fn zero_words16() -> (v: Vec<u128>)
    ensures
        v@.len() == 16,
{
    let mut v: Vec<u128> = Vec::new();
    let mut i: usize = 0;
    while i < 16
        invariant
            i <= 16,
            v@.len() == i,
        decreases 16 - i,
    {
        v.push(0);
        i = i + 1;
    }
    v
}

} // verus!
