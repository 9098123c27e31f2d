//! The memory domain: sixteen banks with a DMA loader and a DMA storer,
//! driven by MVIN and MVOUT instructions.
//!
//! An MVIN (24) or MVOUT (25) carries the DRAM address in bits 0 to 31 of
//! `xs1`, and in `xs2` the bank in bits 0 to 7, the depth in bits 8 to 23
//! and the stride in bits 24 to 33.
use vstd::prelude::*;
use crate::buckyball::lib::operation::{ExternalOp, InternalOp};
use crate::buckyball::memdomain::banks::Bank;
use crate::buckyball::memdomain::tdma_load::{
    idle_loader,
    mvin_started,
    after_read,
    DmaInterface,
    TDMALoad,
};
use crate::buckyball::memdomain::tdma_store::{
    asked,
    asked_next,
    idle_storer,
    mvout_started,
    wrote,
    DmaWriteInterface,
    TDMAStore,
};

verus! {

/// The kind of a memory instruction.
#[derive(Clone, Copy, Debug, PartialEq, Eq, Structural)]
pub enum MemInstType {
    Mvin,
    Mvout,
}

/// A decoded memory instruction.
#[derive(Clone, Copy, Debug, PartialEq, Eq, Structural)]
pub struct MemInst {
    pub inst_type: MemInstType,
    pub base_dram_addr: u32,
    pub stride: u32,
    pub depth: u32,
    pub vbank_id: u32,
}

/// The memory instruction of a function code and operands, if the code
/// is MVIN or MVOUT.
pub open spec fn mem_inst_of(funct: u32, xs1: u64, xs2: u64) -> Option<MemInst> {
    if funct == 24 || funct == 25 {
        Some(
            MemInst {
                inst_type: if funct == 24 {
                    MemInstType::Mvin
                } else {
                    MemInstType::Mvout
                },
                base_dram_addr: (xs1 % 0x1_0000_0000) as u32,
                stride: ((xs2 / 0x100_0000) % 1024) as u32,
                depth: ((xs2 / 256) % 65536) as u32,
                vbank_id: (xs2 % 256) as u32,
            },
        )
    } else {
        None
    }
}

/// Decodes a memory instruction; `None` for any other function code.
pub fn decode_funct(funct: u32, xs1: u64, xs2: u64) -> (r: Option<MemInst>)
    ensures
        r == mem_inst_of(funct, xs1, xs2),
{
    let inst_type = match funct {
        24 => MemInstType::Mvin,
        25 => MemInstType::Mvout,
        _ => {
            return None;
        },
    };
    let a = xs1 & 0xffffffff;
    let s = (xs2 >> 24) & 0x3ff;
    let d = (xs2 >> 8) & 0xffff;
    let v = xs2 & 0xff;
    assert(xs1 & 0xffffffff == xs1 % 0x1_0000_0000) by (bit_vector);
    assert((xs2 >> 24) & 0x3ff == (xs2 / 0x100_0000) % 1024) by (bit_vector);
    assert((xs2 >> 8) & 0xffff == (xs2 / 256) % 65536) by (bit_vector);
    assert(xs2 & 0xff == xs2 % 256) by (bit_vector);
    Some(
        MemInst {
            inst_type,
            base_dram_addr: a as u32,
            stride: s as u32,
            depth: d as u32,
            vbank_id: v as u32,
        },
    )
}

/// The memory domain. `received_inst` is the last instruction taken,
/// `executed_inst` the one whose transfer has ended, until it is taken.
pub struct MemDomain {
    pub banks: Vec<Bank>,
    pub tdma_load: TDMALoad,
    pub tdma_store: TDMAStore,
    pub received_inst: Option<(u32, u64, u64, u32)>,
    pub executed_inst: Option<(u32, u64, u64, u32)>,
    pub load_busy: bool,
    pub store_busy: bool,
}

/// Bank `i` of a new memory domain: 2048 zero words of 128 bits.
pub open spec fn fresh_bank(b: Bank, i: int) -> bool {
    &&& b.bank_id == i
    &&& b.bank_width == 128
    &&& b.bank_depth == 2048
    &&& b.bank_data@ == Seq::new(2048, |j: int| 0u128)
    &&& b.read_resp is None
}

/// `c` is the banks `b` after the bank write `w`, if any: word `a` of bank
/// `v` becomes `d`.
pub open spec fn banks_written(b: Seq<Bank>, c: Seq<Bank>, w: Option<(u32, u32, u128)>) -> bool {
    match w {
        Some((v, a, d)) => {
            &&& c.len() == b.len()
            &&& forall|i: int| 0 <= i < b.len() && i != v ==> #[trigger] c[i] == b[i]
            &&& c[v as int].bank_data@ == b[v as int].bank_data@.update(a as int, d)
            &&& c[v as int].read_resp == b[v as int].read_resp
            &&& c[v as int].bank_id == b[v as int].bank_id
            &&& c[v as int].bank_width == b[v as int].bank_width
            &&& c[v as int].bank_depth == b[v as int].bank_depth
        },
        None => c == b,
    }
}

/// The banks `b` with the read response of bank `v` set to `r`.
pub open spec fn with_response(b: Seq<Bank>, v: int, r: Option<u128>) -> Seq<Bank> {
    b.update(v, Bank { read_resp: r, ..b[v] })
}

/// The loader `n` is `t` after one update: a word read while words remain.
pub open spec fn load_stepped(t: TDMALoad, n: TDMALoad) -> bool {
    if t.current_index < t.current_depth {
        exists|r: std::io::Result<u128>| #[trigger] after_read(t, r) == n
    } else {
        n == t
    }
}

/// What the memory domain gives back once a transfer ends: the instruction
/// taken, if any, else what it held.
pub open spec fn finished(m: MemDomain) -> Option<(u32, u64, u64, u32)> {
    if m.received_inst is Some {
        m.received_inst
    } else {
        m.executed_inst
    }
}

/// The address of the word a storer is at.
pub open spec fn store_addr(t: TDMAStore) -> u64 {
    (t.current_base_addr + t.current_index * t.current_stride) as u64
}

impl MemDomain {
    /// Sixteen fresh banks, an idle loader and storer, nothing taken.
    pub fn new() -> (m: Self)
        ensures
            m.banks@.len() == 16,
            forall|i: int| 0 <= i < 16 ==> fresh_bank(#[trigger] m.banks@[i], i),
            m.tdma_load == idle_loader(),
            m.tdma_store == idle_storer(),
            m.received_inst is None,
            m.executed_inst is None,
            !m.load_busy,
            !m.store_busy,
    {
        let mut banks: Vec<Bank> = Vec::new();
        let mut i: u32 = 0;
        while i < 16
            invariant
                i <= 16,
                banks@.len() == i,
                forall|j: int| 0 <= j < i ==> fresh_bank(#[trigger] banks@[j], j),
            decreases 16 - i,
        {
            let b = Bank::new(i, 128, 2048);
            banks.push(b);
            i = i + 1;
        }
        MemDomain {
            banks,
            tdma_load: TDMALoad::new(),
            tdma_store: TDMAStore::new(),
            received_inst: None,
            executed_inst: None,
            load_busy: false,
            store_busy: false,
        }
    }

    /// The load instruction operation.
    pub fn load_op(&mut self) -> (op: MemDomainLoadOp<'_>)
        ensures
            *op.0 == *old(self),
            *final(self) == *final(op.0),
    {
        MemDomainLoadOp(self)
    }

    /// The store instruction operation.
    pub fn store_op(&mut self) -> (op: MemDomainStoreOp<'_>)
        ensures
            *op.0 == *old(self),
            *final(self) == *final(op.0),
    {
        MemDomainStoreOp(self)
    }

    /// The load transfer step, through `dma`.
    pub fn execute_load<'a, D: DmaInterface + DmaWriteInterface>(&'a mut self, dma: &'a D) -> (op:
        MemDomainExecuteLoadInt<'a, D>)
        ensures
            *op.0 == *old(self),
            op.1 == dma,
            *final(self) == *final(op.0),
    {
        MemDomainExecuteLoadInt(self, dma)
    }

    /// The store transfer step, through `dma`.
    pub fn execute_store<'a, D: DmaInterface + DmaWriteInterface>(&'a mut self, dma: &'a D) -> (op:
        MemDomainExecuteStoreInt<'a, D>)
        ensures
            *op.0 == *old(self),
            op.1 == dma,
            *final(self) == *final(op.0),
    {
        MemDomainExecuteStoreInt(self, dma)
    }
}

/// The load instruction operation: `(funct, xs1, xs2, rob_id)`.
pub struct MemDomainLoadOp<'a>(pub &'a mut MemDomain);

impl<'a> ExternalOp for MemDomainLoadOp<'a> {
    type Input = Option<(u32, u64, u64, u32)>;

    open spec fn accepts(&self, input: &Self::Input) -> bool {
        true
    }

    /// An instruction is taken when the control allows and no load runs.
    fn can_input(&self, ctrl: bool) -> (r: bool)
        ensures
            r == (ctrl && !old(self.0).load_busy),
    {
        ctrl && !self.0.load_busy
    }

    fn has_input(&self, input: &Self::Input) -> (r: bool)
        ensures
            r == input is Some,
    {
        input.is_some()
    }

    /// Takes the instruction given; an MVIN starts the loader and makes the
    /// domain busy loading. Nothing happens without an instruction.
    fn execute(&mut self, input: &Self::Input)
        ensures
            ({
                let m = *old(self).0;
                let n = *final(self).0;
                match *input {
                    Some((funct, xs1, xs2, rob_id)) => match mem_inst_of(funct, xs1, xs2) {
                        Some(mi) if mi.inst_type == MemInstType::Mvin => n == (MemDomain {
                            received_inst: *input,
                            tdma_load: mvin_started(mi.base_dram_addr, mi.stride, mi.depth, mi.vbank_id),
                            load_busy: true,
                            ..m
                        }),
                        _ => n == (MemDomain { received_inst: *input, ..m }),
                    },
                    None => n == m,
                }
            }),
            *final(final(self).0) == *final(old(self).0),
    {
        if let Some((funct, xs1, xs2, _rob_id)) = *input {
            self.0.received_inst = *input;
            if let Some(mi) = decode_funct(funct, xs1, xs2) {
                if mi.inst_type == MemInstType::Mvin {
                    self.0.tdma_load.mvin().execute(&Some((mi.base_dram_addr, mi.stride, mi.depth, mi.vbank_id)));
                    self.0.load_busy = true;
                }
            }
        }
    }
}

/// The store instruction operation: `(funct, xs1, xs2, rob_id)`.
pub struct MemDomainStoreOp<'a>(pub &'a mut MemDomain);

impl<'a> ExternalOp for MemDomainStoreOp<'a> {
    type Input = Option<(u32, u64, u64, u32)>;

    open spec fn accepts(&self, input: &Self::Input) -> bool {
        true
    }

    /// An instruction is taken when the control allows and no store runs.
    fn can_input(&self, ctrl: bool) -> (r: bool)
        ensures
            r == (ctrl && !old(self.0).store_busy),
    {
        ctrl && !self.0.store_busy
    }

    fn has_input(&self, input: &Self::Input) -> (r: bool)
        ensures
            r == input is Some,
    {
        input.is_some()
    }

    /// Takes the instruction given; an MVOUT starts the storer and makes
    /// the domain busy storing. Nothing happens without an instruction.
    fn execute(&mut self, input: &Self::Input)
        ensures
            ({
                let m = *old(self).0;
                let n = *final(self).0;
                match *input {
                    Some((funct, xs1, xs2, rob_id)) => match mem_inst_of(funct, xs1, xs2) {
                        Some(mi) if mi.inst_type == MemInstType::Mvout => n == (MemDomain {
                            received_inst: *input,
                            tdma_store: mvout_started(mi.base_dram_addr, mi.stride, mi.depth, mi.vbank_id),
                            store_busy: true,
                            ..m
                        }),
                        _ => n == (MemDomain { received_inst: *input, ..m }),
                    },
                    None => n == m,
                }
            }),
            *final(final(self).0) == *final(old(self).0),
    {
        if let Some((funct, xs1, xs2, _rob_id)) = *input {
            self.0.received_inst = *input;
            if let Some(mi) = decode_funct(funct, xs1, xs2) {
                if mi.inst_type == MemInstType::Mvout {
                    self.0.tdma_store.mvout().execute(&Some((mi.base_dram_addr, mi.stride, mi.depth, mi.vbank_id)));
                    self.0.store_busy = true;
                }
            }
        }
    }
}

/// The bank write `w`, if any, lands in an existing word.
pub open spec fn write_fits(b: Seq<Bank>, w: Option<(u32, u32, u128)>) -> bool {
    match w {
        Some((v, a, _)) => v < b.len() && a < b[v as int].bank_data@.len(),
        None => true,
    }
}

/// Writes word `a` of bank `v`.
fn write_bank(banks: &mut Vec<Bank>, v: u32, a: u32, d: u128)
    requires
        write_fits(old(banks)@, Some((v, a, d))),
    ensures
        banks_written(old(banks)@, final(banks)@, Some((v, a, d))),
{
    let mut bank = banks.remove(v as usize);
    bank.write_req().execute(&Some((a, d)));
    banks.insert(v as usize, bank);
    assert(banks_written(old(banks)@, banks@, Some((v, a, d))));
}

/// The load transfer step.
pub struct MemDomainExecuteLoadInt<'a, D: DmaInterface + DmaWriteInterface>(pub &'a mut MemDomain, pub &'a D);

impl<'a, D: DmaInterface + DmaWriteInterface> InternalOp for MemDomainExecuteLoadInt<'a, D> {
    type Output = Option<(u32, u64, u64, u32)>;

    /// While loading, every bank write the loader can hand out this step
    /// lands in an existing word.
    open spec fn ready(&self) -> bool {
        let m = *self.0;
        let t = m.tdma_load;
        m.load_busy ==> {
            &&& write_fits(m.banks@, t.dma_banks_write_req)
            &&& t.current_index < t.current_depth ==> t.current_vbank_id < m.banks@.len()
                && t.current_index < m.banks@[t.current_vbank_id as int].bank_data@.len()
        }
    }

    fn has_output(&self) -> (r: bool)
        ensures
            r == old(self.0).executed_inst is Some,
    {
        self.0.executed_inst.is_some()
    }

    /// While loading: the loader reads a word, the bank write it hands out
    /// lands in its bank, and once the loader stops the domain gives back
    /// the instruction taken.
    fn update(&mut self)
        ensures
            final(self).1 == old(self).1,
            *final(final(self).0) == *final(old(self).0),
            ({
                let m = *old(self).0;
                let n = *final(self).0;
                &&& !m.load_busy ==> n == m
                &&& m.load_busy ==> exists|t: TDMALoad|
                    {
                        &&& load_stepped(m.tdma_load, t)
                        &&& banks_written(m.banks@, n.banks@, t.dma_banks_write_req)
                        &&& n.tdma_load == t
                        &&& n.load_busy == t.busy
                        &&& n.executed_inst == (if t.busy {
                            m.executed_inst
                        } else {
                            finished(m)
                        })
                        &&& n.tdma_store == m.tdma_store
                        &&& n.received_inst == m.received_inst
                        &&& n.store_busy == m.store_busy
                    }
            }),
    {
        if self.0.load_busy {
            let ghost m = *self.0;
            let out = {
                let mut dma_read = self.0.tdma_load.dma_read_int(self.1);
                dma_read.update();
                dma_read.output()
            };
            let ghost t = TDMALoad { dma_banks_write_req: out, ..self.0.tdma_load };
            assert(load_stepped(m.tdma_load, t));
            if let Some((v, a, d)) = out {
                write_bank(&mut self.0.banks, v, a, d);
            }
            if !self.0.tdma_load.busy {
                self.0.load_busy = false;
                if let Some(x) = self.0.received_inst {
                    self.0.executed_inst = Some(x);
                }
            }
            assert(banks_written(m.banks@, self.0.banks@, t.dma_banks_write_req));
        }
    }

    /// Hands out the instruction whose transfer ended, which stays.
    fn output(&mut self) -> (r: Self::Output)
        ensures
            r == old(self).0.executed_inst,
            *final(self).0 == *old(self).0,
            final(self).1 == old(self).1,
            *final(final(self).0) == *final(old(self).0),
    {
        self.0.executed_inst
    }
}

/// The banks after the storer's bank read: the word asked for, if any,
/// goes into its bank's response.
pub open spec fn store_read_banks(m: MemDomain) -> Seq<Bank> {
    match m.tdma_store.dma_banks_read_req {
        Some((v, a)) => with_response(m.banks@, v as int, Some(m.banks@[v as int].bank_data@[a as int])),
        None => m.banks@,
    }
}

/// The storer once its bank read is made and the response of its bank, if
/// any, waits to be written to DRAM at the address of its word.
pub open spec fn store_fetched(m: MemDomain) -> TDMAStore {
    let t = TDMAStore { dma_banks_read_req: None, ..m.tdma_store };
    let b = store_read_banks(m);
    let v = t.current_vbank_id as int;
    if v < b.len() {
        match b[v].read_resp {
            Some(d) => TDMAStore { dma_write_req: Some((store_addr(t), d)), ..t },
            None => t,
        }
    } else {
        t
    }
}

/// The storer `t` is `a` after writing its waiting word, if any, to DRAM.
pub open spec fn store_written(a: TDMAStore, t: TDMAStore) -> bool {
    if a.dma_write_req is Some {
        wrote(a, t)
    } else {
        t == a
    }
}

/// The store transfer step.
pub struct MemDomainExecuteStoreInt<'a, D: DmaInterface + DmaWriteInterface>(pub &'a mut MemDomain, pub &'a D);

impl<'a, D: DmaInterface + DmaWriteInterface> InternalOp for MemDomainExecuteStoreInt<'a, D> {
    type Output = Option<(u32, u64, u64, u32)>;

    /// While storing, the bank read the storer asks for is of an existing
    /// word.
    open spec fn ready(&self) -> bool {
        let m = *self.0;
        m.store_busy ==> match m.tdma_store.dma_banks_read_req {
            Some((v, a)) => v < m.banks@.len() && a < m.banks@[v as int].bank_data@.len(),
            None => true,
        }
    }

    fn has_output(&self) -> (r: bool)
        ensures
            r == old(self.0).executed_inst is Some,
    {
        self.0.executed_inst.is_some()
    }

    /// While storing: the bank read asked for is made, the storer reads
    /// the response of its bank and writes it to DRAM, and once every word
    /// is written the domain gives back the instruction taken.
    fn update(&mut self)
        ensures
            final(self).1 == old(self).1,
            *final(final(self).0) == *final(old(self).0),
            ({
                let m = *old(self).0;
                let n = *final(self).0;
                &&& !m.store_busy ==> n == m
                &&& m.store_busy ==> exists|a: TDMAStore, t: TDMAStore|
                    #![trigger asked_next(store_fetched(m), a), store_written(a, t)]
                    {
                        let done = t.current_index >= t.current_depth;
                        &&& asked_next(store_fetched(m), a)
                        &&& store_written(a, t)
                        &&& n.banks@ == store_read_banks(m)
                        &&& n.tdma_store == t
                        &&& n.store_busy == !done
                        &&& n.executed_inst == (if done {
                            finished(m)
                        } else {
                            m.executed_inst
                        })
                        &&& n.tdma_load == m.tdma_load
                        &&& n.received_inst == m.received_inst
                        &&& n.load_busy == m.load_busy
                    }
            }),
    {
        if self.0.store_busy {
            let ghost m = *self.0;
            if let Some((v, a)) = self.0.tdma_store.dma_banks_read_req {
                let mut bank = self.0.banks.remove(v as usize);
                bank.read_req().execute(&Some(a));
                self.0.banks.insert(v as usize, bank);
                self.0.tdma_store.dma_banks_read_req = None;
            }
            assert(self.0.banks@ =~= store_read_banks(m));
            let v = self.0.tdma_store.current_vbank_id;
            if (v as usize) < self.0.banks.len() {
                let mut bank = self.0.banks.remove(v as usize);
                let resp = {
                    let mut r = bank.read_resp();
                    r.update();
                    r.output()
                };
                self.0.banks.insert(v as usize, bank);
                if let Some(d) = resp {
                    let t = &self.0.tdma_store;
                    assert(t.current_index as u64 * t.current_stride as u64 <= 0xffff_ffff * 0xffff_ffff)
                        by (nonlinear_arith)
                        requires
                            t.current_index <= 0xffff_ffff,
                            t.current_stride <= 0xffff_ffff,
                    ;
                    let addr = t.current_base_addr as u64 + (t.current_index as u64) * (
                    t.current_stride as u64);
                    self.0.tdma_store.dma_write_req = Some((addr, d));
                }
            }
            assert(self.0.banks@ =~= store_read_banks(m));
            assert(self.0.tdma_store == store_fetched(m));
            let ghost fetched = self.0.tdma_store;
            let mut w = self.0.tdma_store.dma_write_int(self.1);
            w.update();
            let ghost t = *w.0;
            let done = w.output();
            let ghost a = asked(fetched);
            if done {
                self.0.store_busy = false;
                if let Some(x) = self.0.received_inst {
                    self.0.executed_inst = Some(x);
                }
            }
            assert(asked_next(store_fetched(m), a) && store_written(a, t));
        }
    }

    /// Hands out the instruction whose transfer ended, which stays.
    fn output(&mut self) -> (r: Self::Output)
        ensures
            r == old(self).0.executed_inst,
            *final(self).0 == *old(self).0,
            final(self).1 == old(self).1,
            *final(final(self).0) == *final(old(self).0),
    {
        self.0.executed_inst
    }
}

} // verus!
