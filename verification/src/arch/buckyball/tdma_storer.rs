//! The DMA storer: it carries out MVOUT, moving `depth` words of a bank to
//! DRAM.
//!
//! Its steps: take the instruction and ask the memory controller for the
//! bank's words (Idle to Wait); write the words that come back to DRAM
//! (Wait to Active); finish the transfer (Active to Complete); commit
//! (Complete to Idle). The DRAM writes are the host's: the storer names
//! each address and word.
use crate::arch::buckyball::mem_ctrl::{read_for, request_read_bank_for_tdma, tdma_source, MemSystem};
use vstd::prelude::*;

verus! {

/// The storer's state.
#[derive(Clone, Copy, Debug, PartialEq, Eq, Structural)]
pub enum TdmaStorerState {
    Idle,
    Wait,
    Active,
    Complete,
}

/// An MVOUT instruction, decoded.
#[derive(Clone, Copy, PartialEq, Eq, Structural)]
pub struct MvoutInst {
    pub base_dram_addr: u64,
    pub stride: u64,
    pub depth: u64,
    pub vbank_id: u64,
    pub rob_id: u64,
}

/// The storer's issue slot: whether a new instruction may be issued and
/// the instruction that waits.
pub struct MvoutSlot {
    pub can_issue: bool,
    pub inst: Option<MvoutInst>,
}

impl MvoutSlot {
    /// An open slot with no instruction.
    pub fn new() -> (s: Self)
        ensures
            s.can_issue,
            s.inst is None,
    {
        MvoutSlot { can_issue: true, inst: None }
    }
}

/// The fields of an MVOUT instruction, `(base_dram_addr, stride, depth,
/// vbank_id)`: the address is the low 32 bits of `xs1`; `xs2` holds the
/// bank in bits 0 to 7, the depth in bits 8 to 23 and the stride in bits
/// 24 to 33.
pub open spec fn mvout_fields(xs1: u64, xs2: u64) -> (u64, u64, u64, u64) {
    (
        (xs1 % 0x1_0000_0000) as u64,
        ((xs2 / 0x100_0000) % 1024) as u64,
        ((xs2 / 256) % 65536) as u64,
        (xs2 % 256) as u64,
    )
}

/// Decodes an MVOUT instruction into `(base_dram_addr, stride, depth,
/// vbank_id)`.
pub fn decode_inst(xs1: u64, xs2: u64) -> (r: (u64, u64, u64, u64))
    ensures
        r == mvout_fields(xs1, xs2),
{
    let base_dram_addr = xs1 & 0xffffffff;
    let stride = (xs2 >> 24) & 0x3ff;
    let depth = (xs2 >> 8) & 0xffff;
    let vbank_id = xs2 & 0xff;
    assert(xs1 & 0xffffffff == xs1 % 0x1_0000_0000) by (bit_vector);
    assert((xs2 >> 24) & 0x3ff == (xs2 / 0x100_0000) % 1024) by (bit_vector);
    assert((xs2 >> 8) & 0xffff == (xs2 / 256) % 65536) by (bit_vector);
    assert(xs2 & 0xff == xs2 % 256) by (bit_vector);
    (base_dram_addr, stride, depth, vbank_id)
}

/// Hands the storer an MVOUT instruction and closes the slot. The caller
/// checks first that the slot is open.
pub fn receive_mvout_inst(slot: &mut MvoutSlot, xs1: u64, xs2: u64, rob_id: u64)
    ensures
        ({
            let (base_dram_addr, stride, depth, vbank_id) = mvout_fields(xs1, xs2);
            final(slot).inst == Some(MvoutInst { base_dram_addr, stride, depth, vbank_id, rob_id })
        }),
        !final(slot).can_issue,
{
    let (base_dram_addr, stride, depth, vbank_id) = decode_inst(xs1, xs2);
    slot.inst = Some(MvoutInst { base_dram_addr, stride, depth, vbank_id, rob_id });
    slot.can_issue = false;
}

/// The storer.
#[derive(Clone)]
pub struct TdmaStorer {
    pub read_bank_resp_port: String,
    pub commit_to_rob_port: String,
    state: TdmaStorerState,
    base_dram_addr: u64,
    stride: u64,
    depth: u64,
    vbank_id: u64,
    rob_id: u64,
}

/// What the storer asks of its host after an internal step.
pub enum StorerAction {
    /// Nothing to do until an instruction comes.
    Idle,
    /// The bank read was asked for; look again next cycle.
    ReadIssued,
    /// The bank data has not come yet; look again next cycle.
    Waiting,
    /// The transfer finished; look again next cycle.
    Finished,
    /// The instruction of `rob_id` is done.
    Commit { rob_id: u64 },
}

/// Why bank data could not be taken.
#[derive(Clone, Copy, Debug, PartialEq, Eq, Structural)]
pub enum StorerError {
    /// The storer was not waiting for bank data.
    NotWaiting,
}

impl TdmaStorer {
    /// The storer's state.
    pub closed spec fn spec_state(&self) -> TdmaStorerState {
        self.state
    }

    /// The instruction being carried out.
    pub closed spec fn current(&self) -> MvoutInst {
        MvoutInst {
            base_dram_addr: self.base_dram_addr,
            stride: self.stride,
            depth: self.depth,
            vbank_id: self.vbank_id,
            rob_id: self.rob_id,
        }
    }

    /// An idle storer.
    pub fn new(read_bank_resp_port: String, commit_to_rob_port: String, slot: &mut MvoutSlot) -> (s: Self)
        ensures
            s.spec_state() == TdmaStorerState::Idle,
            s.current() == (MvoutInst { base_dram_addr: 0, stride: 0, depth: 0, vbank_id: 0, rob_id: 0 }),
            final(slot).can_issue,
            final(slot).inst is None,
    {
        slot.can_issue = true;
        slot.inst = None;
        TdmaStorer {
            read_bank_resp_port,
            commit_to_rob_port,
            state: TdmaStorerState::Idle,
            base_dram_addr: 0,
            stride: 0,
            depth: 0,
            vbank_id: 0,
            rob_id: 0,
        }
    }

    /// The instruction being carried out.
    pub fn instruction(&self) -> (r: MvoutInst)
        ensures
            r == self.current(),
    {
        MvoutInst {
            base_dram_addr: self.base_dram_addr,
            stride: self.stride,
            depth: self.depth,
            vbank_id: self.vbank_id,
            rob_id: self.rob_id,
        }
    }

    /// The storer's state.
    pub fn state(&self) -> (r: TdmaStorerState)
        ensures
            r == self.spec_state(),
    {
        self.state
    }

    /// Takes the bank words: word `i` goes to DRAM at `base + i * 16 *
    /// stride`; the storer moves on to the transfer. An error, with nothing
    /// changed, when it was not waiting for them.
    pub fn on_bank_data(&mut self, data: &Vec<u128>) -> (r: Result<Vec<(u64, u128)>, StorerError>)
        requires
            data@.len() < 0x1_0000_0000,
            old(self).current().base_dram_addr < 0x1_0000_0000,
            old(self).current().stride < 1024,
        ensures
            final(self).current() == old(self).current(),
            old(self).spec_state() != TdmaStorerState::Wait ==> r == Err::<Vec<(u64, u128)>, StorerError>(
                StorerError::NotWaiting,
            ) && final(self).spec_state() == old(self).spec_state(),
            old(self).spec_state() == TdmaStorerState::Wait ==> {
                let inst = old(self).current();
                &&& r matches Ok(writes) && writes@.len() == data@.len() && forall|i: int|
                    0 <= i < data@.len() ==> #[trigger] writes@[i] == (
                        (inst.base_dram_addr + i * 16 * inst.stride) as u64,
                        data@[i],
                    )
                &&& final(self).spec_state() == TdmaStorerState::Active
            },
    {
        if self.state != TdmaStorerState::Wait {
            return Err(StorerError::NotWaiting);
        }
        let mut writes: Vec<(u64, u128)> = Vec::new();
        let mut i: usize = 0;
        while i < data.len()
            invariant
                i <= data@.len(),
                data@.len() < 0x1_0000_0000,
                self.base_dram_addr < 0x1_0000_0000,
                self.stride < 1024,
                writes@.len() == i,
                forall|k: int| 0 <= k < i ==> #[trigger] writes@[k] == (
                    (self.base_dram_addr + k * 16 * self.stride) as u64,
                    data@[k],
                ),
            decreases data@.len() - i,
        {
            let k = i as u64;
            assert(k * 16 * self.stride <= 0x1_0000_0000 * 16 * 1024) by (nonlinear_arith)
                requires
                    k < 0x1_0000_0000,
                    self.stride < 1024,
            ;
            let dram_addr = self.base_dram_addr + k * 16 * self.stride;
            writes.push((dram_addr, data[i]));
            i = i + 1;
        }
        self.state = TdmaStorerState::Active;
        Ok(writes)
    }

    /// One internal step: take a waiting instruction and ask for the bank's
    /// words (Idle); wait for them (Wait); finish the transfer (Active);
    /// commit and open the slot (Complete).
    pub fn internal_step(&mut self, slot: &mut MvoutSlot, sys: &mut MemSystem) -> (r: StorerAction)
        requires
            old(sys).wf(),
        ensures
            final(sys).wf(),
            old(self).spec_state() == TdmaStorerState::Idle ==> match old(slot).inst {
                Some(inst) => {
                    &&& r is ReadIssued
                    &&& final(self).current() == inst
                    &&& final(self).spec_state() == TdmaStorerState::Wait
                    &&& final(slot).inst is None
                    &&& final(slot).can_issue == old(slot).can_issue
                    &&& read_for(*old(sys), *final(sys), tdma_source(), inst.vbank_id, 0, inst.depth, inst.rob_id)
                },
                None => r is Idle && *final(slot) == *old(slot) && final(self).current()
                    == old(self).current() && final(self).spec_state() == old(self).spec_state()
                    && *final(sys) == *old(sys),
            },
            old(self).spec_state() != TdmaStorerState::Idle ==> *final(sys) == *old(sys)
                && final(self).current() == old(self).current(),
            old(self).spec_state() == TdmaStorerState::Wait ==> r is Waiting
                && final(self).spec_state() == TdmaStorerState::Wait && *final(slot) == *old(slot),
            old(self).spec_state() == TdmaStorerState::Active ==> r is Finished
                && final(self).spec_state() == TdmaStorerState::Complete && *final(slot) == *old(slot),
            old(self).spec_state() == TdmaStorerState::Complete ==> {
                &&& r == StorerAction::Commit { rob_id: old(self).current().rob_id }
                &&& final(self).spec_state() == TdmaStorerState::Idle
                &&& final(slot).inst == old(slot).inst
                &&& final(slot).can_issue
            },
    {
        match self.state {
            TdmaStorerState::Idle => {
                match slot.inst.take() {
                    Some(inst) => {
                        self.base_dram_addr = inst.base_dram_addr;
                        self.stride = inst.stride;
                        self.depth = inst.depth;
                        self.vbank_id = inst.vbank_id;
                        self.rob_id = inst.rob_id;
                        request_read_bank_for_tdma(sys, self.vbank_id, 0, self.depth, self.rob_id);
                        self.state = TdmaStorerState::Wait;
                        StorerAction::ReadIssued
                    },
                    None => StorerAction::Idle,
                }
            },
            TdmaStorerState::Wait => StorerAction::Waiting,
            TdmaStorerState::Active => {
                self.state = TdmaStorerState::Complete;
                StorerAction::Finished
            },
            TdmaStorerState::Complete => {
                slot.can_issue = true;
                self.state = TdmaStorerState::Idle;
                StorerAction::Commit { rob_id: self.rob_id }
            },
        }
    }
}

} // verus!
