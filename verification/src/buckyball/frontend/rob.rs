//! The front-end reorder buffer: a fixed set of entries that instructions
//! are allocated into, dispatched from in buffer order, and committed out
//! of by ROB id.
use vstd::prelude::*;
use crate::buckyball::lib::operation::{ExternalOp, InternalOp};

verus! {

/// The state of an entry.
#[derive(Clone, Copy, Debug, PartialEq, Eq, Structural)]
pub enum EntryStatus {
    Allocated,
    Inflight,
    Idle,
}

/// An entry of the front-end reorder buffer.
#[derive(Clone, Copy, Debug, PartialEq, Eq, Structural)]
pub struct RobEntry {
    pub funct: u32,
    pub xs1: u64,
    pub xs2: u64,
    pub domain_id: u32,
    pub status: EntryStatus,
    pub rob_id: u32,
}

/// The reorder buffer. `fence_csr` is the fence register, which the buffer
/// clears once it has drained.
pub struct Rob {
    pub rob_buffer: Vec<RobEntry>,
    pub allocated_id: u32,
    pub dispatched_inst: Option<(u32, u32, u64, u64, u32)>,
    pub inst_insert: Option<(u32, u64, u64, u32)>,
    pub commit_rob_id: Option<u32>,
    pub fence_csr: bool,
}

/// Entry `k` is the first with status `st`.
pub open spec fn first_with_status(s: Seq<RobEntry>, k: int, st: EntryStatus) -> bool {
    &&& 0 <= k < s.len()
    &&& s[k].status == st
    &&& forall|i: int| 0 <= i < k ==> (#[trigger] s[i]).status != st
}

/// Some entry has status `st`.
pub open spec fn has_status(s: Seq<RobEntry>, st: EntryStatus) -> bool {
    exists|i: int| 0 <= i < s.len() && (#[trigger] s[i]).status == st
}

/// Entry `k` is the first with ROB id `id`.
pub open spec fn first_with_id(s: Seq<RobEntry>, k: int, id: u32) -> bool {
    &&& 0 <= k < s.len()
    &&& s[k].rob_id == id
    &&& forall|i: int| 0 <= i < k ==> (#[trigger] s[i]).rob_id != id
}

/// The idle entry with everything zero.
pub open spec fn idle_entry() -> RobEntry {
    RobEntry { funct: 0, xs1: 0, xs2: 0, domain_id: 0, status: EntryStatus::Idle, rob_id: 0 }
}

/// The first index of an entry with status `st`, if any.
fn find_status(buffer: &Vec<RobEntry>, st: EntryStatus) -> (r: Option<usize>)
    ensures
        match r {
            Some(k) => first_with_status(buffer@, k as int, st),
            None => !has_status(buffer@, st),
        },
{
    let mut i: usize = 0;
    while i < buffer.len()
        invariant
            i <= buffer@.len(),
            forall|j: int| 0 <= j < i ==> (#[trigger] buffer@[j]).status != st,
        decreases buffer@.len() - i,
    {
        if buffer[i].status == st {
            return Some(i);
        }
        i = i + 1;
    }
    None
}

/// The first index of an entry with ROB id `id`, if any.
fn find_id(buffer: &Vec<RobEntry>, id: u32) -> (r: Option<usize>)
    ensures
        match r {
            Some(k) => first_with_id(buffer@, k as int, id),
            None => forall|i: int| 0 <= i < buffer@.len() ==> (#[trigger] buffer@[i]).rob_id != id,
        },
{
    let mut i: usize = 0;
    while i < buffer.len()
        invariant
            i <= buffer@.len(),
            forall|j: int| 0 <= j < i ==> (#[trigger] buffer@[j]).rob_id != id,
        decreases buffer@.len() - i,
    {
        if buffer[i].rob_id == id {
            return Some(i);
        }
        i = i + 1;
    }
    None
}

impl Rob {
    /// A buffer of `entry_num` idle entries.
    pub fn new(entry_num: u32) -> (r: Self)
        ensures
            r.rob_buffer@ == Seq::new(entry_num as nat, |i: int| idle_entry()),
            r.allocated_id == 0,
            r.dispatched_inst is None,
            r.inst_insert is None,
            r.commit_rob_id is None,
            !r.fence_csr,
    {
        let mut rob_buffer: Vec<RobEntry> = Vec::new();
        let mut i: u32 = 0;
        while i < entry_num
            invariant
                i <= entry_num,
                rob_buffer@ == Seq::new(i as nat, |j: int| idle_entry()),
            decreases entry_num - i,
        {
            rob_buffer.push(
                RobEntry { funct: 0, xs1: 0, xs2: 0, domain_id: 0, status: EntryStatus::Idle, rob_id: 0 },
            );
            i = i + 1;
        }
        Rob {
            rob_buffer,
            allocated_id: 0,
            dispatched_inst: None,
            inst_insert: None,
            commit_rob_id: None,
            fence_csr: false,
        }
    }

    /// The allocation of an instruction into this buffer.
    pub fn allocate(&mut self) -> (op: RobAllocate<'_>)
        ensures
            *op.0 == *old(self),
            *final(self) == *final(op.0),
    {
        RobAllocate(self)
    }

    /// The commit of an instruction by ROB id.
    pub fn commit(&mut self) -> (op: RobCommit<'_>)
        ensures
            *op.0 == *old(self),
            *final(self) == *final(op.0),
    {
        RobCommit(self)
    }

    /// The dispatch of the oldest allocated entry.
    pub fn dispatch(&mut self) -> (op: RobDispatch<'_>)
        ensures
            *op.0 == *old(self),
            *final(self) == *final(op.0),
    {
        RobDispatch(self)
    }

    /// No entry is idle.
    pub fn is_rob_full(&self) -> (r: bool)
        ensures
            r == !has_status(self.rob_buffer@, EntryStatus::Idle),
    {
        find_status(&self.rob_buffer, EntryStatus::Idle).is_none()
    }
}

/// The buffer `t` is `s` after allocating `(funct, xs1, xs2, domain)`:
/// the first idle entry takes it under the next ROB id, counted modulo
/// 2^32; nothing changes without an idle entry.
pub open spec fn allocate_step(s: Rob, t: Rob, inst: (u32, u64, u64, u32)) -> bool {
    let (funct, xs1, xs2, domain_id) = inst;
    &&& !has_status(s.rob_buffer@, EntryStatus::Idle) ==> t == s
    &&& forall|k: int|
        first_with_status(s.rob_buffer@, k, EntryStatus::Idle) ==> t == (Rob {
            rob_buffer: t.rob_buffer,
            allocated_id: s.allocated_id.wrapping_add(1),
            ..s
        }) && t.rob_buffer@ == s.rob_buffer@.update(
            k,
            RobEntry { funct, xs1, xs2, domain_id, status: EntryStatus::Allocated, rob_id: s.allocated_id },
        )
}

/// The allocation operation: `(funct, xs1, xs2, domain)`.
pub struct RobAllocate<'a>(pub &'a mut Rob);

impl<'a> ExternalOp for RobAllocate<'a> {
    type Input = Option<(u32, u64, u64, u32)>;

    open spec fn accepts(&self, input: &Self::Input) -> bool {
        true
    }

    /// An instruction is taken when the control allows and an entry is
    /// idle.
    fn can_input(&self, ctrl: bool) -> (r: bool)
        ensures
            r == (ctrl && has_status(old(self.0).rob_buffer@, EntryStatus::Idle)),
    {
        ctrl && find_status(&self.0.rob_buffer, EntryStatus::Idle).is_some()
    }

    fn has_input(&self, input: &Self::Input) -> (r: bool)
        ensures
            r == input is Some,
    {
        input.is_some()
    }

    /// Puts the instruction given into the first idle entry, under the next
    /// ROB id (counted modulo 2^32); nothing happens without an instruction
    /// or an idle entry.
    fn execute(&mut self, input: &Self::Input)
        ensures
            ({
                let s = *old(self).0;
                let t = *final(self).0;
                match *input {
                    Some(inst) => allocate_step(s, t, inst),
                    None => t == s,
                }
            }),
            *final(final(self).0) == *final(old(self).0),
    {
        if let Some((funct, xs1, xs2, domain_id)) = *input {
            if let Some(k) = find_status(&self.0.rob_buffer, EntryStatus::Idle) {
                let rob_id = self.0.allocated_id;
                self.0.allocated_id = self.0.allocated_id.wrapping_add(1);
                self.0.rob_buffer.set(
                    k,
                    RobEntry { funct, xs1, xs2, domain_id, status: EntryStatus::Allocated, rob_id },
                );
            }
        }
    }
}

/// The commit operation: a ROB id.
pub struct RobCommit<'a>(pub &'a mut Rob);

impl<'a> ExternalOp for RobCommit<'a> {
    type Input = Option<u32>;

    open spec fn accepts(&self, input: &Self::Input) -> bool {
        true
    }

    /// A commit is taken whenever the control allows.
    fn can_input(&self, ctrl: bool) -> (r: bool)
        ensures
            r == ctrl,
    {
        ctrl
    }

    fn has_input(&self, input: &Self::Input) -> (r: bool)
        ensures
            r == input is Some,
    {
        input.is_some()
    }

    /// Frees the first entry with the ROB id given; nothing happens without
    /// an id or such an entry.
    fn execute(&mut self, input: &Self::Input)
        ensures
            ({
                let s = *old(self).0;
                let t = *final(self).0;
                match *input {
                    Some(id) => {
                        &&& (forall|i: int| 0 <= i < s.rob_buffer@.len() ==> (#[trigger] s.rob_buffer@[i]).rob_id != id) ==> t == s
                        &&& forall|k: int|
                            first_with_id(s.rob_buffer@, k, id) ==> t == (Rob { rob_buffer: t.rob_buffer, ..s })
                                && t.rob_buffer@ == s.rob_buffer@.update(
                                k,
                                RobEntry { status: EntryStatus::Idle, ..s.rob_buffer@[k] },
                            )
                    },
                    None => t == s,
                }
            }),
            *final(final(self).0) == *final(old(self).0),
    {
        if let Some(id) = *input {
            if let Some(k) = find_id(&self.0.rob_buffer, id) {
                let e = self.0.rob_buffer[k];
                self.0.rob_buffer.set(k, RobEntry { status: EntryStatus::Idle, ..e });
            }
        }
    }
}

/// The buffer `t` is `s` after a dispatch step: the fence register is
/// cleared when every entry is idle, and the first allocated entry, if
/// any, goes in flight and is held for output as `(rob_id, funct, xs1,
/// xs2, domain)`.
pub open spec fn dispatch_step(s: Rob, t: Rob) -> bool {
    let fence = if !has_status(s.rob_buffer@, EntryStatus::Allocated) && !has_status(
        s.rob_buffer@,
        EntryStatus::Inflight,
    ) {
        false
    } else {
        s.fence_csr
    };
    &&& t.fence_csr == fence
    &&& t.allocated_id == s.allocated_id && t.inst_insert == s.inst_insert
    &&& t.commit_rob_id == s.commit_rob_id
    &&& !has_status(s.rob_buffer@, EntryStatus::Allocated) ==> t.rob_buffer@ == s.rob_buffer@
        && t.dispatched_inst is None
    &&& forall|k: int|
        first_with_status(s.rob_buffer@, k, EntryStatus::Allocated) ==> {
            let e = s.rob_buffer@[k];
            &&& t.rob_buffer@ == s.rob_buffer@.update(k, RobEntry { status: EntryStatus::Inflight, ..e })
            &&& t.dispatched_inst == Some((e.rob_id, e.funct, e.xs1, e.xs2, e.domain_id))
        }
}

/// The dispatch operation.
pub struct RobDispatch<'a>(pub &'a mut Rob);

impl<'a> InternalOp for RobDispatch<'a> {
    type Output = Option<(u32, u32, u64, u64, u32)>;

    open spec fn ready(&self) -> bool {
        true
    }

    fn has_output(&self) -> (r: bool)
        ensures
            r == old(self.0).dispatched_inst is Some,
    {
        self.0.dispatched_inst.is_some()
    }

    /// Clears the fence register when every entry is idle, then marks the
    /// first allocated entry in flight and holds it for output, `(rob_id,
    /// funct, xs1, xs2, domain)`; holds nothing when no entry is allocated.
    fn update(&mut self)
        ensures
            dispatch_step(*old(self).0, *final(self).0),
            *final(final(self).0) == *final(old(self).0),
    {
        let allocated = find_status(&self.0.rob_buffer, EntryStatus::Allocated);
        let inflight = find_status(&self.0.rob_buffer, EntryStatus::Inflight);
        if allocated.is_none() && inflight.is_none() {
            self.0.fence_csr = false;
        }
        match allocated {
            Some(k) => {
                let e = self.0.rob_buffer[k];
                self.0.rob_buffer.set(k, RobEntry { status: EntryStatus::Inflight, ..e });
                self.0.dispatched_inst = Some((e.rob_id, e.funct, e.xs1, e.xs2, e.domain_id));
            },
            None => {
                self.0.dispatched_inst = None;
            },
        }
    }

    /// Hands out the dispatched instruction, which stays.
    fn output(&mut self) -> (r: Self::Output)
        ensures
            r == old(self).0.dispatched_inst,
            *final(self).0 == *old(self).0,
            *final(final(self).0) == *final(old(self).0),
    {
        self.0.dispatched_inst
    }
}

} // verus!
