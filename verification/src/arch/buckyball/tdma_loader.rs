//! The DMA loader: it carries out MVIN, moving `depth` 16-byte words from
//! DRAM into a bank.
//!
//! Its steps: take the instruction and reserve the bank write in the
//! scoreboard (Idle to Wait); read DRAM and send the bank write (Wait to
//! Active); wait for the transfer (Active to Complete); commit (Complete to
//! Idle). The DRAM reads are the host's: the loader names the addresses
//! and takes the data.
use crate::arch::buckyball::mem_ctrl::{pbank_of, resolve_pbank, MemSystem};
use crate::arch::buckyball::scoreboard::reserve_write_request;
use vstd::prelude::*;

verus! {

/// The loader's state.
#[derive(Clone, Copy, Debug, PartialEq, Eq, Structural)]
pub enum TdmaLoaderState {
    Idle,
    Wait,
    Active,
    Complete,
}

/// An MVIN instruction, decoded.
#[derive(Clone, Copy, PartialEq, Eq, Structural)]
pub struct MvinInst {
    pub base_dram_addr: u64,
    pub stride: u64,
    pub depth: u64,
    pub vbank_id: u64,
    pub rob_id: u64,
}

/// The loader's issue slot: whether a new instruction may be issued, the
/// instruction that waits, and the state the loader last reported.
pub struct MvinSlot {
    pub can_issue: bool,
    pub inst: Option<MvinInst>,
    pub state: TdmaLoaderState,
}

impl MvinSlot {
    /// An open slot with no instruction, the loader idle.
    pub fn new() -> (s: Self)
        ensures
            s.can_issue,
            s.inst is None,
            s.state == TdmaLoaderState::Idle,
    {
        MvinSlot { can_issue: true, inst: None, state: TdmaLoaderState::Idle }
    }
}

/// The fields of an MVIN instruction, `(base_dram_addr, stride, depth,
/// vbank_id)`: the address is `xs1`; `xs2` holds the bank in bits 0 to 4,
/// the depth in bits 5 to 14 and the stride in bits 15 to 33.
pub open spec fn mvin_fields(xs1: u64, xs2: u64) -> (u64, u64, u64, u64) {
    (xs1, ((xs2 / 32768) % 524288) as u64, ((xs2 / 32) % 1024) as u64, (xs2 % 32) as u64)
}

/// Decodes an MVIN instruction into `(base_dram_addr, stride, depth,
/// vbank_id)`.
pub fn decode_inst(xs1: u64, xs2: u64) -> (r: (u64, u64, u64, u64))
    ensures
        r == mvin_fields(xs1, xs2),
{
    let base_dram_addr = xs1;
    let vbank_id = xs2 & 0x1f;
    let depth = (xs2 >> 5) & 0x3ff;
    let stride = (xs2 >> 15) & 0x7ffff;
    assert(xs2 & 0x1f == xs2 % 32) by (bit_vector);
    assert((xs2 >> 5) & 0x3ff == (xs2 / 32) % 1024) by (bit_vector);
    assert((xs2 >> 15) & 0x7ffff == (xs2 / 32768) % 524288) by (bit_vector);
    (base_dram_addr, stride, depth, vbank_id)
}

/// Hands the loader an MVIN instruction and closes the slot. The caller
/// checks first that the slot is open.
pub fn receive_mvin_inst(slot: &mut MvinSlot, xs1: u64, xs2: u64, rob_id: u64)
    ensures
        ({
            let (base_dram_addr, stride, depth, vbank_id) = mvin_fields(xs1, xs2);
            final(slot).inst == Some(MvinInst { base_dram_addr, stride, depth, vbank_id, rob_id })
        }),
        !final(slot).can_issue,
        final(slot).state == old(slot).state,
{
    let (base_dram_addr, stride, depth, vbank_id) = decode_inst(xs1, xs2);
    slot.inst = Some(MvinInst { base_dram_addr, stride, depth, vbank_id, rob_id });
    slot.can_issue = false;
}

/// Whether the loader is idle.
pub fn is_tdma_loader_idle(slot: &MvinSlot) -> (r: bool)
    ensures
        r == (slot.state == TdmaLoaderState::Idle),
{
    slot.state == TdmaLoaderState::Idle
}

/// The stride in 16-byte words between DRAM reads: a stride of zero reads
/// consecutive words.
pub open spec fn step_words(stride: u64) -> int {
    if stride == 0 {
        1
    } else {
        stride as int
    }
}

/// The DRAM address of word `i` of a transfer.
pub open spec fn dram_addr(base: u64, stride: u64, i: int) -> int {
    base + i * 16 * step_words(stride)
}

/// A 128-bit word from its low and high halves.
pub open spec fn join_halves(lo: u64, hi: u64) -> u128 {
    (hi as int * 0x1_0000_0000_0000_0000 + lo as int) as u128
}

/// Joining two halves keeps them: the low half is the word modulo 2^64 and
/// the high half the word divided by 2^64; and every word is the join of
/// its halves.
pub proof fn lemma_join_halves_round_trip(lo: u64, hi: u64, w: u128)
    ensures
        join_halves(lo, hi) % 0x1_0000_0000_0000_0000 == lo,
        join_halves(lo, hi) / 0x1_0000_0000_0000_0000 == hi,
        join_halves((w % 0x1_0000_0000_0000_0000) as u64, (w / 0x1_0000_0000_0000_0000) as u64) == w,
{
    let j = hi as int * 0x1_0000_0000_0000_0000 + lo as int;
    assert(j <= u128::MAX) by (nonlinear_arith)
        requires
            j == hi as int * 0x1_0000_0000_0000_0000 + lo as int,
            hi <= u64::MAX,
            lo <= u64::MAX,
    ;
    vstd::arithmetic::div_mod::lemma_fundamental_div_mod_converse(j, 0x1_0000_0000_0000_0000, hi as int, lo as int);
    vstd::arithmetic::div_mod::lemma_fundamental_div_mod(w as int, 0x1_0000_0000_0000_0000);
    assert(w / 0x1_0000_0000_0000_0000 <= u64::MAX) by (nonlinear_arith)
        requires
            w <= u128::MAX,
    ;
}

/// The loader.
#[derive(Clone)]
pub struct TdmaLoader {
    pub write_bank_req_port: String,
    pub commit_to_rob_port: String,
    state: TdmaLoaderState,
    base_dram_addr: u64,
    stride: u64,
    depth: u64,
    vbank_id: u64,
    rob_id: u64,
}

/// What the loader asks of its host after an internal step.
pub enum LoaderAction {
    /// Nothing to do until an instruction comes.
    Idle,
    /// An instruction was taken; step again next cycle.
    Started,
    /// Read these DRAM addresses, 16 bytes each, and hand the data back.
    ReadDram { addrs: Vec<u64> },
    /// The transfer of `depth` words runs; step again when it is done.
    Transfer { depth: u64 },
    /// The instruction of `rob_id` is done.
    Commit { rob_id: u64 },
}

impl TdmaLoader {
    /// The loader's state.
    pub closed spec fn spec_state(&self) -> TdmaLoaderState {
        self.state
    }

    /// The instruction being carried out.
    pub closed spec fn current(&self) -> MvinInst {
        MvinInst {
            base_dram_addr: self.base_dram_addr,
            stride: self.stride,
            depth: self.depth,
            vbank_id: self.vbank_id,
            rob_id: self.rob_id,
        }
    }

    /// The DRAM addresses of the transfer stay within 64 bits.
    pub open spec fn span_fits(&self) -> bool {
        let inst = self.current();
        inst.depth == 0 || dram_addr(inst.base_dram_addr, inst.stride, inst.depth - 1) <= u64::MAX
    }

    /// An idle loader.
    pub fn new(write_bank_req_port: String, commit_to_rob_port: String, slot: &mut MvinSlot) -> (l: Self)
        ensures
            l.spec_state() == TdmaLoaderState::Idle,
            l.current() == (MvinInst { base_dram_addr: 0, stride: 0, depth: 0, vbank_id: 0, rob_id: 0 }),
            final(slot).can_issue,
            final(slot).inst is None,
            final(slot).state == old(slot).state,
    {
        slot.can_issue = true;
        slot.inst = None;
        TdmaLoader {
            write_bank_req_port,
            commit_to_rob_port,
            state: TdmaLoaderState::Idle,
            base_dram_addr: 0,
            stride: 0,
            depth: 0,
            vbank_id: 0,
            rob_id: 0,
        }
    }

    /// The loader's state.
    pub fn state(&self) -> (r: TdmaLoaderState)
        ensures
            r == self.spec_state(),
    {
        self.state
    }

    /// Whether the DRAM addresses of the transfer stay within 64 bits.
    pub fn span_fits_check(&self) -> (r: bool)
        ensures
            r == self.span_fits(),
    {
        if self.depth == 0 {
            return true;
        }
        let step: u64 = if self.stride == 0 {
            1
        } else {
            self.stride
        };
        let unit: u128 = 16 * (step as u128);
        let d = self.depth - 1;
        assert(d * unit == d * 16 * step) by (nonlinear_arith)
            requires
                unit == 16 * step,
        ;
        assert(step == step_words(self.stride));
        match ((self.depth - 1) as u128).checked_mul(unit) {
            Some(span) => {
                if span > u64::MAX as u128 {
                    return false;
                }
                self.base_dram_addr as u128 + span <= u64::MAX as u128
            },
            None => false,
        }
    }

    /// A bank write from the loader reaches the controller; while waiting,
    /// the loader moves on to the transfer (`true`).
    pub fn on_external(&mut self, slot: &mut MvinSlot) -> (r: bool)
        ensures
            r == (old(self).spec_state() == TdmaLoaderState::Wait),
            r ==> final(self).spec_state() == TdmaLoaderState::Active && final(slot).state
                == TdmaLoaderState::Active && final(slot).can_issue == old(slot).can_issue
                && final(slot).inst == old(slot).inst,
            !r ==> *final(slot) == *old(slot) && final(self).spec_state() == old(self).spec_state(),
            final(self).current() == old(self).current(),
    {
        if self.state == TdmaLoaderState::Wait {
            self.state = TdmaLoaderState::Active;
            slot.state = TdmaLoaderState::Active;
            true
        } else {
            false
        }
    }

    /// One internal step: take a waiting instruction and reserve its bank
    /// write (Idle); name the DRAM reads (Wait); start the transfer
    /// (Active); commit and open the slot (Complete).
    pub fn internal_step(&mut self, slot: &mut MvinSlot, sys: &mut MemSystem) -> (r: LoaderAction)
        requires
            old(self).spec_state() == TdmaLoaderState::Wait ==> old(self).span_fits(),
        ensures
            final(sys).bmt@ == old(sys).bmt@,
            final(sys).banks@ == old(sys).banks@,
            final(sys).read_sources@ == old(sys).read_sources@,
            final(sys).read_responses@ == old(sys).read_responses@,
            final(sys).scoreboard@.reads == old(sys).scoreboard@.reads,
            final(sys).scoreboard@.in_flight == old(sys).scoreboard@.in_flight,
            old(self).spec_state() == TdmaLoaderState::Idle ==> match old(slot).inst {
                Some(inst) => {
                    let w = final(sys).scoreboard@.writes;
                    &&& r is Started
                    &&& final(self).current() == inst
                    &&& final(self).spec_state() == TdmaLoaderState::Wait
                    &&& final(slot).state == TdmaLoaderState::Wait
                    &&& final(slot).inst is None
                    &&& final(slot).can_issue == old(slot).can_issue
                    &&& w.len() == old(sys).scoreboard@.writes.len() + 1
                    &&& w.drop_last() == old(sys).scoreboard@.writes
                    &&& w.last().rob_id == inst.rob_id
                    &&& w.last().pbank_id == pbank_of(old(sys).bmt@, inst.vbank_id)
                },
                None => r is Idle && *final(slot) == *old(slot) && final(self).current()
                    == old(self).current() && final(self).spec_state() == old(self).spec_state()
                    && final(sys).scoreboard@ == old(sys).scoreboard@,
            },
            old(self).spec_state() != TdmaLoaderState::Idle ==> final(sys).scoreboard@
                == old(sys).scoreboard@ && final(self).current() == old(self).current(),
            old(self).spec_state() == TdmaLoaderState::Wait ==> {
                let inst = old(self).current();
                &&& r matches LoaderAction::ReadDram { addrs } && addrs@.len() == inst.depth
                    && forall|i: int| 0 <= i < inst.depth ==> #[trigger] addrs@[i] == dram_addr(
                    inst.base_dram_addr,
                    inst.stride,
                    i,
                )
                &&& final(self).spec_state() == TdmaLoaderState::Wait
                &&& *final(slot) == *old(slot)
            },
            old(self).spec_state() == TdmaLoaderState::Active ==> {
                &&& r == LoaderAction::Transfer { depth: old(self).current().depth }
                &&& final(self).spec_state() == TdmaLoaderState::Complete
                &&& final(slot).state == TdmaLoaderState::Complete
                &&& final(slot).inst == old(slot).inst
                &&& final(slot).can_issue == old(slot).can_issue
            },
            old(self).spec_state() == TdmaLoaderState::Complete ==> {
                &&& r == LoaderAction::Commit { rob_id: old(self).current().rob_id }
                &&& final(self).spec_state() == TdmaLoaderState::Idle
                &&& final(slot).state == TdmaLoaderState::Idle
                &&& final(slot).inst == old(slot).inst
                &&& final(slot).can_issue
            },
    {
        match self.state {
            TdmaLoaderState::Idle => {
                match slot.inst.take() {
                    Some(inst) => {
                        self.base_dram_addr = inst.base_dram_addr;
                        self.stride = inst.stride;
                        self.depth = inst.depth;
                        self.vbank_id = inst.vbank_id;
                        self.rob_id = inst.rob_id;
                        let pbank_id = resolve_pbank(&sys.bmt, inst.vbank_id);
                        reserve_write_request(&mut sys.scoreboard, inst.rob_id, pbank_id);
                        self.state = TdmaLoaderState::Wait;
                        slot.state = TdmaLoaderState::Wait;
                        LoaderAction::Started
                    },
                    None => LoaderAction::Idle,
                }
            },
            TdmaLoaderState::Wait => {
                let mut addrs: Vec<u64> = Vec::new();
                let mut i: u64 = 0;
                let stride: u64 = if self.stride == 0 {
                    1
                } else {
                    self.stride
                };
                while i < self.depth
                    invariant
                        i <= self.depth,
                        stride == step_words(self.stride),
                        self.span_fits(),
                        addrs@.len() == i,
                        forall|k: int| 0 <= k < i ==> #[trigger] addrs@[k] == dram_addr(
                            self.base_dram_addr,
                            self.stride,
                            k,
                        ),
                    decreases self.depth - i,
                {
                    assert(i * 16 <= i * 16 * stride && i * 16 * stride <= (self.depth - 1) * 16 * stride) by (nonlinear_arith)
                        requires
                            i < self.depth,
                            stride >= 1,
                    ;
                    assert(self.base_dram_addr + i * 16 * stride <= u64::MAX);
                    addrs.push(self.base_dram_addr + i * 16 * stride);
                    i = i + 1;
                }
                LoaderAction::ReadDram { addrs }
            },
            TdmaLoaderState::Active => {
                self.state = TdmaLoaderState::Complete;
                slot.state = TdmaLoaderState::Complete;
                LoaderAction::Transfer { depth: self.depth }
            },
            TdmaLoaderState::Complete => {
                slot.can_issue = true;
                self.state = TdmaLoaderState::Idle;
                slot.state = TdmaLoaderState::Idle;
                LoaderAction::Commit { rob_id: self.rob_id }
            },
        }
    }

    /// Takes the DRAM data of the transfer, word by word as `(low, high)`
    /// halves, and gives the bank write to send, `(rob_id, vbank_id, 0,
    /// words)`; the loader moves on to the transfer.
    pub fn on_dram_data(&mut self, slot: &mut MvinSlot, halves: &Vec<(u64, u64)>) -> (r: (u64, u64, u64, Vec<u128>))
        requires
            old(self).spec_state() == TdmaLoaderState::Wait,
        ensures
            r.0 == old(self).current().rob_id,
            r.1 == old(self).current().vbank_id,
            r.2 == 0,
            r.3@.len() == halves@.len(),
            forall|i: int| 0 <= i < halves@.len() ==> #[trigger] r.3@[i] == join_halves(halves@[i].0, halves@[i].1),
            final(self).spec_state() == TdmaLoaderState::Active,
            final(self).current() == old(self).current(),
            final(slot).state == TdmaLoaderState::Active,
            final(slot).inst == old(slot).inst,
            final(slot).can_issue == old(slot).can_issue,
    {
        let mut data_u128: Vec<u128> = Vec::new();
        let mut i: usize = 0;
        while i < halves.len()
            invariant
                i <= halves@.len(),
                data_u128@.len() == i,
                forall|k: int| 0 <= k < i ==> #[trigger] data_u128@[k] == join_halves(halves@[k].0, halves@[k].1),
            decreases halves@.len() - i,
        {
            let (data_lo, data_hi) = halves[i];
            let lo = data_lo as u128;
            let hi = data_hi as u128;
            assert((hi << 64u128) | lo == hi * 0x1_0000_0000_0000_0000 + lo) by (bit_vector)
                requires
                    lo < 0x1_0000_0000_0000_0000,
                    hi < 0x1_0000_0000_0000_0000,
            ;
            data_u128.push((hi << 64) | lo);
            i = i + 1;
        }
        self.state = TdmaLoaderState::Active;
        slot.state = TdmaLoaderState::Active;
        (self.rob_id, self.vbank_id, 0, data_u128)
    }
}

} // verus!
