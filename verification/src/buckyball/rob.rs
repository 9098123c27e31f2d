//! The reorder buffer: a fixed set of entries, each idle, allocated to an
//! instruction, or in flight in a unit. Entry `i` always carries ROB id
//! `i`.
//!
//! An instruction takes the first idle entry; dispatch sends the first
//! allocated instruction whose unit takes one; a commit frees its entry.
use crate::arch::buckyball::rs::{issue, Inst, IssueSlots};
use crate::buckyball::decoder::FrontendFlags;
use vstd::prelude::*;

verus! {

/// The state of a ROB entry.
#[derive(Clone, Copy, Debug, PartialEq, Eq, Structural)]
pub enum EntryStatus {
    Allocated,
    Inflight,
    Idle,
}

/// A ROB entry.
#[derive(Clone, Copy, Debug, PartialEq, Eq, Structural)]
pub struct RobEntry {
    pub funct: u64,
    pub xs1: u64,
    pub xs2: u64,
    pub domain_id: u64,
    pub status: EntryStatus,
    pub rob_id: u64,
}

/// Every entry carries its own index as ROB id.
pub open spec fn ids_match(s: Seq<RobEntry>) -> bool {
    forall|i: int| 0 <= i < s.len() ==> #[trigger] s[i].rob_id == i
}

/// Entry `i` is idle and no entry before it is.
pub open spec fn is_first_idle(s: Seq<RobEntry>, i: int) -> bool {
    &&& 0 <= i < s.len()
    &&& s[i].status == EntryStatus::Idle
    &&& forall|j: int| 0 <= j < i ==> #[trigger] s[j].status != EntryStatus::Idle
}

/// The first idle entry.
pub open spec fn first_idle(s: Seq<RobEntry>) -> Option<int> {
    if exists|i: int| is_first_idle(s, i) {
        Some(choose|i: int| is_first_idle(s, i))
    } else {
        None
    }
}

/// Whether the unit of `funct` takes an instruction: MVIN (24), MVOUT
/// (25) and the vector unit (30) when their slots are open; no other code.
pub open spec fn can_issue(funct: u64, slots: IssueSlots) -> bool {
    if funct == 24 {
        slots.mvin.can_issue
    } else if funct == 25 {
        slots.mvout.can_issue
    } else if funct == 30 {
        slots.vecball.can_issue
    } else {
        false
    }
}

/// For MVIN, MVOUT and the vector unit, the ROB finds an instruction
/// dispatchable exactly when the reservation station's slot for its unit
/// would take it, that is when handing it over changes the slots; the other
/// units' slots play no part.
pub proof fn lemma_can_issue_is_unit_slot_open(slots: IssueSlots, inst: Inst)
    requires
        inst.funct == 24 || inst.funct == 25 || inst.funct == 30,
    ensures
        can_issue(inst.funct, slots) <==> issue(slots, inst) != Some(slots),
{
    if inst.funct == 24 && slots.mvin.can_issue {
        assert(issue(slots, inst)->Some_0.mvin.can_issue != slots.mvin.can_issue);
    }
    if inst.funct == 25 && slots.mvout.can_issue {
        assert(issue(slots, inst)->Some_0.mvout.can_issue != slots.mvout.can_issue);
    }
    if inst.funct == 30 && slots.vecball.can_issue {
        assert(issue(slots, inst)->Some_0.vecball.can_issue != slots.vecball.can_issue);
    }
}

/// Entry `i` is allocated and its unit takes an instruction.
pub open spec fn dispatchable(s: Seq<RobEntry>, slots: IssueSlots, i: int) -> bool {
    0 <= i < s.len() && s[i].status == EntryStatus::Allocated && can_issue(s[i].funct, slots)
}

/// Entry `i` is dispatchable and no entry before it is.
pub open spec fn is_first_dispatchable(s: Seq<RobEntry>, slots: IssueSlots, i: int) -> bool {
    &&& dispatchable(s, slots, i)
    &&& forall|j: int| 0 <= j < i ==> !#[trigger] dispatchable(s, slots, j)
}

/// The first dispatchable entry.
pub open spec fn first_dispatchable(s: Seq<RobEntry>, slots: IssueSlots) -> Option<int> {
    if exists|i: int| is_first_dispatchable(s, slots, i) {
        Some(choose|i: int| is_first_dispatchable(s, slots, i))
    } else {
        None
    }
}

/// A buffer of `capacity` idle entries, numbered from zero.
pub fn init_rob(capacity: u64) -> (r: Vec<RobEntry>)
    ensures
        r@.len() == capacity,
        ids_match(r@),
        forall|i: int| 0 <= i < capacity ==> #[trigger] r@[i] == (RobEntry {
            funct: 0,
            xs1: 0,
            xs2: 0,
            domain_id: 0,
            status: EntryStatus::Idle,
            rob_id: i as u64,
        }),
{
    let mut rob_buffer: Vec<RobEntry> = Vec::new();
    let mut i: u64 = 0;
    while i < capacity
        invariant
            i <= capacity,
            rob_buffer@.len() == i,
            forall|k: int| 0 <= k < i ==> #[trigger] rob_buffer@[k] == (RobEntry {
                funct: 0,
                xs1: 0,
                xs2: 0,
                domain_id: 0,
                status: EntryStatus::Idle,
                rob_id: k as u64,
            }),
        decreases capacity - i,
    {
        rob_buffer.push(
            RobEntry { funct: 0, xs1: 0, xs2: 0, domain_id: 0, status: EntryStatus::Idle, rob_id: i },
        );
        i = i + 1;
    }
    rob_buffer
}

/// The ROB id of the first idle entry; zero when none is idle.
pub fn find_idle_entry(rob_buffer: &Vec<RobEntry>) -> (r: u64)
    ensures
        match first_idle(rob_buffer@) {
            Some(i) => r == rob_buffer@[i].rob_id,
            None => r == 0,
        },
{
    let mut i: usize = 0;
    while i < rob_buffer.len()
        invariant
            i <= rob_buffer@.len(),
            forall|j: int| 0 <= j < i ==> rob_buffer@[j].status != EntryStatus::Idle,
        decreases rob_buffer@.len() - i,
    {
        if rob_buffer[i].status == EntryStatus::Idle {
            let ghost s = rob_buffer@;
            proof {
                assert(is_first_idle(s, i as int));
                let c = choose|k: int| is_first_idle(s, k);
                if c < i {
                    assert(s[c].status != EntryStatus::Idle);
                } else if c > i {
                    assert(s[i as int].status != EntryStatus::Idle);
                }
            }
            return rob_buffer[i].rob_id;
        }
        i = i + 1;
    }
    assert(!exists|k: int| is_first_idle(rob_buffer@, k));
    0
}

/// Allocates an entry to an instruction: the first idle entry, or entry
/// zero when none is idle, takes the instruction; its ROB id comes back.
pub fn allocate_entry(rob_buffer: &mut Vec<RobEntry>, funct: u64, xs1: u64, xs2: u64, domain_id: u64) -> (r: u64)
    requires
        old(rob_buffer)@.len() > 0,
        ids_match(old(rob_buffer)@),
    ensures
        ids_match(final(rob_buffer)@),
        r == (match first_idle(old(rob_buffer)@) {
            Some(i) => i as u64,
            None => 0,
        }),
        final(rob_buffer)@ == old(rob_buffer)@.update(
            r as int,
            RobEntry { funct, xs1, xs2, domain_id, status: EntryStatus::Allocated, rob_id: r },
        ),
{
    let rob_id = find_idle_entry(rob_buffer);
    let n = rob_buffer.len();
    proof {
        match first_idle(rob_buffer@) {
            Some(i) => {
                assert(rob_buffer@[i].rob_id == i);
            },
            None => {},
        }
        crate::arch::buckyball::systolic_array::lemma_index_cast(rob_id, n as nat);
    }
    rob_buffer.set(
        rob_id as usize,
        RobEntry { funct, xs1, xs2, domain_id, status: EntryStatus::Allocated, rob_id },
    );
    proof {
        assert forall|i: int| 0 <= i < rob_buffer@.len() implies #[trigger] rob_buffer@[i].rob_id == i by {
            if i != rob_id as int {
                assert(rob_buffer@[i] == old(rob_buffer)@[i]);
            }
        }
    }
    rob_id
}

/// Whether the unit of `funct` takes an instruction now.
pub fn check_can_issue(funct: u64, slots: &IssueSlots) -> (r: bool)
    ensures
        r == can_issue(funct, *slots),
{
    match funct {
        24 => slots.mvin.can_issue,
        25 => slots.mvout.can_issue,
        30 => slots.vecball.can_issue,
        _ => false,
    }
}

/// Dispatches the first allocated entry whose unit takes an instruction:
/// it goes in flight and `(funct, xs1, xs2, domain_id, rob_id)` comes back;
/// `None`, with nothing changed, when no entry can go.
pub fn dispatch_entry(rob_buffer: &mut Vec<RobEntry>, slots: &IssueSlots) -> (r: Option<(u64, u64, u64, u64, u64)>)
    ensures
        match first_dispatchable(old(rob_buffer)@, *slots) {
            Some(i) => {
                let e = old(rob_buffer)@[i];
                &&& r == Some((e.funct, e.xs1, e.xs2, e.domain_id, e.rob_id))
                &&& final(rob_buffer)@ == old(rob_buffer)@.update(i, RobEntry { status: EntryStatus::Inflight, ..e })
            },
            None => r is None && final(rob_buffer)@ == old(rob_buffer)@,
        },
{
    let mut i: usize = 0;
    while i < rob_buffer.len()
        invariant
            i <= rob_buffer@.len(),
            rob_buffer@ == old(rob_buffer)@,
            forall|j: int| 0 <= j < i ==> !dispatchable(rob_buffer@, *slots, j),
        decreases rob_buffer@.len() - i,
    {
        let entry = rob_buffer[i];
        if entry.status == EntryStatus::Allocated {
            if check_can_issue(entry.funct, slots) {
                let ghost s = rob_buffer@;
                proof {
                    assert(is_first_dispatchable(s, *slots, i as int));
                    let c = choose|k: int| is_first_dispatchable(s, *slots, k);
                    if c > i {
                        assert(!dispatchable(s, *slots, i as int));
                    } else if c < i {
                        assert(!dispatchable(s, *slots, c));
                    }
                }
                rob_buffer.set(i, RobEntry { status: EntryStatus::Inflight, ..entry });
                return Some((entry.funct, entry.xs1, entry.xs2, entry.domain_id, entry.rob_id));
            }
        }
        i = i + 1;
    }
    assert(!exists|k: int| is_first_dispatchable(rob_buffer@, *slots, k));
    None
}

/// Frees the first entry with ROB id `rob_id`; nothing changes when there
/// is none.
pub fn commit_entry(rob_buffer: &mut Vec<RobEntry>, rob_id: u64)
    requires
        ids_match(old(rob_buffer)@),
    ensures
        ids_match(final(rob_buffer)@),
        rob_id < old(rob_buffer)@.len() ==> final(rob_buffer)@ == old(rob_buffer)@.update(
            rob_id as int,
            RobEntry { status: EntryStatus::Idle, ..old(rob_buffer)@[rob_id as int] },
        ),
        rob_id >= old(rob_buffer)@.len() ==> final(rob_buffer)@ == old(rob_buffer)@,
{
    let mut i: usize = 0;
    while i < rob_buffer.len()
        invariant
            i <= rob_buffer@.len(),
            rob_buffer@ == old(rob_buffer)@,
            ids_match(rob_buffer@),
            forall|j: int| 0 <= j < i ==> rob_buffer@[j].rob_id != rob_id,
        decreases rob_buffer@.len() - i,
    {
        let entry = rob_buffer[i];
        if entry.rob_id == rob_id {
            rob_buffer.set(i, RobEntry { status: EntryStatus::Idle, ..entry });
            proof {
                assert forall|k: int| 0 <= k < rob_buffer@.len() implies #[trigger] rob_buffer@[k].rob_id == k by {
                    if k != i {
                        assert(rob_buffer@[k] == old(rob_buffer)@[k]);
                    }
                }
            }
            return;
        }
        i = i + 1;
    }
    proof {
        if rob_id < rob_buffer@.len() {
            assert(rob_buffer@[rob_id as int].rob_id == rob_id);
        }
    }
}

/// Every entry is idle.
pub fn is_empty(rob_buffer: &Vec<RobEntry>) -> (r: bool)
    ensures
        r == forall|i: int| 0 <= i < rob_buffer@.len() ==> #[trigger] rob_buffer@[i].status == EntryStatus::Idle,
{
    let mut i: usize = 0;
    while i < rob_buffer.len()
        invariant
            i <= rob_buffer@.len(),
            forall|j: int| 0 <= j < i ==> #[trigger] rob_buffer@[j].status == EntryStatus::Idle,
        decreases rob_buffer@.len() - i,
    {
        if rob_buffer[i].status != EntryStatus::Idle {
            return false;
        }
        i = i + 1;
    }
    true
}

/// No entry is idle.
pub fn is_full(rob_buffer: &Vec<RobEntry>) -> (r: bool)
    ensures
        r == forall|i: int| 0 <= i < rob_buffer@.len() ==> #[trigger] rob_buffer@[i].status != EntryStatus::Idle,
{
    let mut i: usize = 0;
    while i < rob_buffer.len()
        invariant
            i <= rob_buffer@.len(),
            forall|j: int| 0 <= j < i ==> #[trigger] rob_buffer@[j].status != EntryStatus::Idle,
        decreases rob_buffer@.len() - i,
    {
        if rob_buffer[i].status == EntryStatus::Idle {
            return false;
        }
        i = i + 1;
    }
    true
}

/// The reorder buffer.
#[derive(Clone)]
pub struct Rob {
    pub capacity: u64,
    pub receive_inst_from_decoder_port: String,
    pub dispatch_to_rs_port: String,
    pub commit_port: String,
    rob_buffer: Vec<RobEntry>,
}

/// What the ROB does in an internal step.
#[derive(Clone, Copy, Debug)]
pub struct RobStep {
    /// The ROB drained under a fence: answer the host.
    pub fence_done: bool,
    /// The instruction sent to the reservation station, `(funct, xs1, xs2,
    /// domain_id, rob_id)`.
    pub dispatched: Option<(u64, u64, u64, u64, u64)>,
}

/// No entry of `s` is idle.
pub open spec fn all_busy(s: Seq<RobEntry>) -> bool {
    forall|i: int| 0 <= i < s.len() ==> #[trigger] s[i].status != EntryStatus::Idle
}

/// Every entry of `s` is idle.
pub open spec fn all_idle(s: Seq<RobEntry>) -> bool {
    forall|i: int| 0 <= i < s.len() ==> #[trigger] s[i].status == EntryStatus::Idle
}

impl Rob {
    /// The entries.
    pub closed spec fn entries(&self) -> Seq<RobEntry> {
        self.rob_buffer@
    }

    /// A ROB of `capacity` idle entries; the ROB takes instructions.
    pub fn new(
        capacity: u64,
        receive_inst_from_decoder_port: String,
        dispatch_to_rs_port: String,
        commit_port: String,
        flags: &mut FrontendFlags,
    ) -> (rob: Self)
        ensures
            rob.entries().len() == capacity,
            ids_match(rob.entries()),
            all_idle(rob.entries()),
            final(flags).rob_ready,
            final(flags).fence == old(flags).fence,
    {
        flags.rob_ready = true;
        Rob {
            capacity,
            receive_inst_from_decoder_port,
            dispatch_to_rs_port,
            commit_port,
            rob_buffer: init_rob(capacity),
        }
    }

    /// Takes `[funct, xs1, xs2, domain_id, ..]` from the decoder into a
    /// new entry; the ROB takes more while an entry stays idle.
    pub fn on_instruction(&mut self, flags: &mut FrontendFlags, values: &Vec<u64>) -> (r: u64)
        requires
            values@.len() >= 4,
            old(self).entries().len() > 0,
            ids_match(old(self).entries()),
        ensures
            ids_match(final(self).entries()),
            r == (match first_idle(old(self).entries()) {
                Some(i) => i as u64,
                None => 0,
            }),
            final(self).entries() == old(self).entries().update(
                r as int,
                RobEntry {
                    funct: values@[0],
                    xs1: values@[1],
                    xs2: values@[2],
                    domain_id: values@[3],
                    status: EntryStatus::Allocated,
                    rob_id: r,
                },
            ),
            final(flags).rob_ready == !all_busy(final(self).entries()),
            final(flags).fence == old(flags).fence,
    {
        let r = allocate_entry(&mut self.rob_buffer, values[0], values[1], values[2], values[3]);
        flags.rob_ready = !is_full(&self.rob_buffer);
        r
    }

    /// A unit finished the instruction of `rob_id`: its entry is freed.
    pub fn on_commit(&mut self, flags: &mut FrontendFlags, rob_id: u64)
        requires
            ids_match(old(self).entries()),
        ensures
            ids_match(final(self).entries()),
            rob_id < old(self).entries().len() ==> final(self).entries() == old(self).entries().update(
                rob_id as int,
                RobEntry { status: EntryStatus::Idle, ..old(self).entries()[rob_id as int] },
            ),
            rob_id >= old(self).entries().len() ==> final(self).entries() == old(self).entries(),
            final(flags).rob_ready == !all_busy(final(self).entries()),
            final(flags).fence == old(flags).fence,
    {
        commit_entry(&mut self.rob_buffer, rob_id);
        flags.rob_ready = !is_full(&self.rob_buffer);
    }

    /// Records in the flags whether the ROB takes a new instruction: while
    /// an entry is idle.
    pub fn refresh_ready(&self, flags: &mut FrontendFlags)
        ensures
            final(flags).rob_ready == !all_busy(self.entries()),
            final(flags).fence == old(flags).fence,
    {
        flags.rob_ready = !is_full(&self.rob_buffer);
    }

    /// Whether an entry is in use.
    pub fn has_entries(&self) -> (r: bool)
        ensures
            r == (self.entries().len() > 0),
    {
        self.rob_buffer.len() > 0
    }

    /// One internal step: a fence ends once every entry is idle; the first
    /// entry whose unit takes it is dispatched, after which the ROB takes
    /// instructions again unless every entry is busy.
    pub fn internal_step(&mut self, flags: &mut FrontendFlags, slots: &IssueSlots) -> (r: RobStep)
        ensures
            ids_match(old(self).entries()) ==> ids_match(final(self).entries()),
            r.fence_done == (all_idle(old(self).entries()) && old(flags).fence),
            final(flags).fence == (old(flags).fence && !r.fence_done),
            match first_dispatchable(old(self).entries(), *slots) {
                Some(i) => {
                    let e = old(self).entries()[i];
                    &&& r.dispatched == Some((e.funct, e.xs1, e.xs2, e.domain_id, e.rob_id))
                    &&& final(self).entries() == old(self).entries().update(
                        i,
                        RobEntry { status: EntryStatus::Inflight, ..e },
                    )
                    &&& final(flags).rob_ready == (old(flags).rob_ready || !all_busy(final(self).entries()))
                },
                None => r.dispatched is None && final(self).entries() == old(self).entries()
                    && final(flags).rob_ready == old(flags).rob_ready,
            },
    {
        let mut fence_done = false;
        if is_empty(&self.rob_buffer) {
            if flags.fence {
                flags.fence = false;
                fence_done = true;
            }
        }
        let dispatched = dispatch_entry(&mut self.rob_buffer, slots);
        match dispatched {
            Some(_) => {
                if !is_full(&self.rob_buffer) {
                    flags.rob_ready = true;
                }
            },
            None => {},
        }
        RobStep { fence_done, dispatched }
    }
}

} // verus!
