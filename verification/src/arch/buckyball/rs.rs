//! The reservation station: it buffers the instructions the ROB sends and
//! hands each to its unit when the unit's slot is open.
//!
//! Function codes: 23 MSET, 24 MVIN, 25 MVOUT, 30 the vector unit. Any
//! other code is an error that ends the dispatch.
use crate::arch::buckyball::mset::{receive_mset_inst, MsetInst, MsetSlot};
use crate::arch::buckyball::tdma_loader::{mvin_fields, receive_mvin_inst, MvinInst, MvinSlot, TdmaLoaderState};
use crate::arch::buckyball::tdma_storer::{mvout_fields, receive_mvout_inst, MvoutInst, MvoutSlot};
use crate::arch::buckyball::vecball::{receive_vecball_inst, vecball_fields, VecBallState, VecballInst, VecballSlot};
use crate::buckyball::memdomain::memdomain::{mem_inst_of, MemInstType};
use vstd::prelude::*;

verus! {

/// A buffered instruction.
#[derive(Clone, Copy, Debug, PartialEq, Eq, Structural)]
pub struct Inst {
    pub funct: u64,
    pub xs1: u64,
    pub xs2: u64,
    pub domain_id: u64,
    pub rob_id: u64,
}

/// The issue slots of the units the station feeds.
pub struct IssueSlots {
    pub mset: MsetSlot,
    pub mvin: MvinSlot,
    pub mvout: MvoutSlot,
    pub vecball: VecballSlot,
}

impl IssueSlots {
    /// Every slot open and empty, every unit idle.
    pub fn new() -> (s: Self)
        ensures
            s.mset.can_issue && s.mset.inst is None,
            s.mvin.can_issue && s.mvin.inst is None && s.mvin.state == TdmaLoaderState::Idle,
            s.mvout.can_issue && s.mvout.inst is None,
            s.vecball.can_issue && s.vecball.inst is None && s.vecball.state == VecBallState::Idle,
    {
        IssueSlots {
            mset: MsetSlot::new(),
            mvin: MvinSlot::new(),
            mvout: MvoutSlot::new(),
            vecball: VecballSlot::new(),
        }
    }
}

/// The slots after `inst` is handed to its unit, which takes it only when
/// its slot is open; `None` for an unknown function code.
pub open spec fn issue(s: IssueSlots, inst: Inst) -> Option<IssueSlots> {
    if inst.funct == 23 {
        Some(
            if s.mset.can_issue {
                IssueSlots {
                    mset: MsetSlot {
                        can_issue: false,
                        inst: Some(MsetInst { xs1: inst.xs1, xs2: inst.xs2, rob_id: inst.rob_id }),
                    },
                    ..s
                }
            } else {
                s
            },
        )
    } else if inst.funct == 24 {
        Some(
            if s.mvin.can_issue {
                let (base_dram_addr, stride, depth, vbank_id) = mvin_fields(inst.xs1, inst.xs2);
                IssueSlots {
                    mvin: MvinSlot {
                        can_issue: false,
                        inst: Some(MvinInst { base_dram_addr, stride, depth, vbank_id, rob_id: inst.rob_id }),
                        state: s.mvin.state,
                    },
                    ..s
                }
            } else {
                s
            },
        )
    } else if inst.funct == 25 {
        Some(
            if s.mvout.can_issue {
                let (base_dram_addr, stride, depth, vbank_id) = mvout_fields(inst.xs1, inst.xs2);
                IssueSlots {
                    mvout: MvoutSlot {
                        can_issue: false,
                        inst: Some(MvoutInst { base_dram_addr, stride, depth, vbank_id, rob_id: inst.rob_id }),
                    },
                    ..s
                }
            } else {
                s
            },
        )
    } else if inst.funct == 30 {
        Some(
            if s.vecball.can_issue {
                let (op1_bank_id, op2_bank_id, wr_bank_id, iter) = vecball_fields(inst.xs1, inst.xs2);
                IssueSlots {
                    vecball: VecballSlot {
                        can_issue: false,
                        inst: Some(VecballInst { op1_bank_id, op2_bank_id, wr_bank_id, iter, rob_id: inst.rob_id }),
                        state: s.vecball.state,
                    },
                    ..s
                }
            } else {
                s
            },
        )
    } else {
        None
    }
}

/// The station hands a memory instruction to the unit that the memory
/// domain decodes it for: a move-in to the loader's slot, a move-out to the
/// storer's, leaving the other slot as it was.
pub proof fn lemma_station_routes_memory(s: IssueSlots, inst: Inst)
    requires
        inst.funct <= u32::MAX,
        s.mvin.can_issue,
        s.mvout.can_issue,
        mem_inst_of(inst.funct as u32, inst.xs1, inst.xs2) is Some,
    ensures
        issue(s, inst) is Some,
        mem_inst_of(inst.funct as u32, inst.xs1, inst.xs2)->Some_0.inst_type == MemInstType::Mvin ==> {
            &&& issue(s, inst)->Some_0.mvin.inst is Some
            &&& issue(s, inst)->Some_0.mvin.inst->Some_0.rob_id == inst.rob_id
            &&& issue(s, inst)->Some_0.mvout == s.mvout
        },
        mem_inst_of(inst.funct as u32, inst.xs1, inst.xs2)->Some_0.inst_type == MemInstType::Mvout ==> {
            &&& issue(s, inst)->Some_0.mvout.inst is Some
            &&& issue(s, inst)->Some_0.mvout.inst->Some_0.rob_id == inst.rob_id
            &&& issue(s, inst)->Some_0.mvin == s.mvin
        },
{
}

/// The slots after the instructions are handed out in order, and whether
/// every function code was known; the first unknown code stops the rest.
pub open spec fn issue_all(s: IssueSlots, insts: Seq<Inst>) -> (IssueSlots, bool)
    decreases insts.len(),
{
    if insts.len() == 0 {
        (s, true)
    } else {
        match issue(s, insts[0]) {
            None => (s, false),
            Some(s2) => issue_all(s2, insts.drop_first()),
        }
    }
}

/// An instruction with a function code that no unit takes.
#[derive(Clone, Copy, Debug, PartialEq, Eq, Structural)]
pub enum RsError {
    UnknownFunct,
}

/// Appends an instruction to the buffer.
pub fn push_to_buffer(inst_buffer: &mut Vec<Inst>, funct: u64, xs1: u64, xs2: u64, domain_id: u64, rob_id: u64)
    ensures
        final(inst_buffer)@ == old(inst_buffer)@.push(Inst { funct, xs1, xs2, domain_id, rob_id }),
{
    inst_buffer.push(Inst { funct, xs1, xs2, domain_id, rob_id });
}

/// The reservation station.
#[derive(Clone)]
pub struct Rs {
    pub receive_inst_from_rob_port: String,
    inst_buffer: Vec<Inst>,
}

impl Rs {
    /// The buffered instructions, oldest first.
    pub closed spec fn buffer(&self) -> Seq<Inst> {
        self.inst_buffer@
    }

    /// A station with an empty buffer.
    pub fn new(receive_inst_from_rob_port: String) -> (rs: Self)
        ensures
            rs.buffer().len() == 0,
    {
        Rs { receive_inst_from_rob_port, inst_buffer: Vec::new() }
    }

    /// Buffers the instruction `[funct, xs1, xs2, domain_id, rob_id]`
    /// that the ROB sent.
    pub fn receive_values(&mut self, values: &Vec<u64>)
        requires
            values@.len() >= 5,
        ensures
            final(self).buffer() == old(self).buffer().push(
                Inst {
                    funct: values@[0],
                    xs1: values@[1],
                    xs2: values@[2],
                    domain_id: values@[3],
                    rob_id: values@[4],
                },
            ),
    {
        let funct = values[0];
        let xs1 = values[1];
        let xs2 = values[2];
        let domain_id = values[3];
        let rob_id = values[4];
        push_to_buffer(&mut self.inst_buffer, funct, xs1, xs2, domain_id, rob_id);
    }

    /// Hands every buffered instruction, oldest first, to its unit; a unit
    /// whose slot is closed misses it. The buffer ends empty; an error when
    /// a function code is unknown, the instructions after it dropped.
    pub fn dispatch(&mut self, slots: &mut IssueSlots) -> (r: Result<(), RsError>)
        ensures
            final(self).buffer().len() == 0,
            (*final(slots), r is Ok) == issue_all(*old(slots), old(self).buffer()),
            r is Err ==> r == Err::<(), RsError>(RsError::UnknownFunct),
    {
        let ghost buf = self.inst_buffer@;
        assert(buf.skip(0) =~= buf);
        let mut i: usize = 0;
        while i < self.inst_buffer.len()
            invariant
                i <= buf.len(),
                self.inst_buffer@ == buf,
                buf == old(self).buffer(),
                issue_all(*slots, buf.skip(i as int)) == issue_all(*old(slots), buf),
            decreases buf.len() - i,
        {
            let inst = self.inst_buffer[i];
            let ghost before = *slots;
            assert(buf.skip(i as int)[0] == inst);
            assert(buf.skip(i as int).drop_first() =~= buf.skip(i + 1));
            if inst.funct == 23 {
                if slots.mset.can_issue {
                    receive_mset_inst(&mut slots.mset, inst.xs1, inst.xs2, inst.rob_id);
                }
            } else if inst.funct == 24 {
                if slots.mvin.can_issue {
                    receive_mvin_inst(&mut slots.mvin, inst.xs1, inst.xs2, inst.rob_id);
                }
            } else if inst.funct == 25 {
                if slots.mvout.can_issue {
                    receive_mvout_inst(&mut slots.mvout, inst.xs1, inst.xs2, inst.rob_id);
                }
            } else if inst.funct == 30 {
                if slots.vecball.can_issue {
                    receive_vecball_inst(&mut slots.vecball, inst.xs1, inst.xs2, inst.rob_id);
                }
            } else {
                self.inst_buffer = Vec::new();
                return Err(RsError::UnknownFunct);
            }
            assert(issue(before, inst) == Some(*slots));
            i = i + 1;
        }
        assert(buf.skip(i as int) =~= Seq::<Inst>::empty());
        self.inst_buffer = Vec::new();
        Ok(())
    }
}

} // verus!
