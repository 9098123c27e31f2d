//! The memory domain's DMA storer: after an MVOUT it asks the banks for
//! one word per update, `(vbank_id, index)`, and writes each word it is
//! given to DRAM; the transfer ends after `depth` words or a failed write.
use crate::buckyball::lib::operation::{ExternalOp, InternalOp};
use vstd::prelude::*;

verus! {

/// The DRAM side of the storer.
pub trait DmaWriteInterface {
    fn dma_write(&self, addr: u64, data: u128, size: u32) -> std::io::Result<()>;
}

/// The storer's state.
pub struct TDMAStore {
    /// The bank read to ask for: `(vbank_id, index)`.
    pub dma_banks_read_req: Option<(u32, u32)>,
    /// The DRAM write to make: `(addr, data)`.
    pub dma_write_req: Option<(u64, u128)>,
    pub current_depth: u32,
    pub current_stride: u32,
    pub current_base_addr: u32,
    pub current_vbank_id: u32,
    pub current_index: u32,
    pub busy: bool,
}

/// An idle storer: nothing asked or to write, every field zero.
pub open spec fn idle_storer() -> TDMAStore {
    TDMAStore {
        dma_banks_read_req: None,
        dma_write_req: None,
        current_depth: 0,
        current_stride: 0,
        current_base_addr: 0,
        current_vbank_id: 0,
        current_index: 0,
        busy: false,
    }
}

impl TDMAStore {
    /// An idle storer.
    pub fn new() -> (t: Self)
        ensures
            t == idle_storer(),
    {
        TDMAStore {
            dma_banks_read_req: None,
            dma_write_req: None,
            current_depth: 0,
            current_stride: 0,
            current_base_addr: 0,
            current_vbank_id: 0,
            current_index: 0,
            busy: false,
        }
    }

    /// The MVOUT operation on this storer.
    pub fn mvout(&mut self) -> (op: TDMAStoreMvout<'_>)
        ensures
            *op.0 == *old(self),
            *final(self) == *final(op.0),
    {
        TDMAStoreMvout(self)
    }

    /// The DRAM write operation on this storer, through `dma`.
    pub fn dma_write_int<'a, D: DmaWriteInterface>(&'a mut self, dma: &'a D) -> (op: TDMAStoreDmaWriteInt<'a, D>)
        ensures
            *op.0 == *old(self),
            op.1 == dma,
            *final(self) == *final(op.0),
    {
        TDMAStoreDmaWriteInt(self, dma)
    }
}

/// The storer after an MVOUT of `depth` words of bank `vbank_id` to
/// `base_dram_addr`, `stride` bytes apart: busy, at word zero, nothing
/// asked.
pub open spec fn mvout_started(base_dram_addr: u32, stride: u32, depth: u32, vbank_id: u32) -> TDMAStore {
    TDMAStore {
        dma_banks_read_req: None,
        dma_write_req: None,
        current_depth: depth,
        current_stride: stride,
        current_base_addr: base_dram_addr,
        current_vbank_id: vbank_id,
        current_index: 0,
        busy: true,
    }
}

/// The MVOUT operation: `(base_dram_addr, stride, depth, vbank_id)`.
pub struct TDMAStoreMvout<'a>(pub &'a mut TDMAStore);

impl<'a> ExternalOp for TDMAStoreMvout<'a> {
    type Input = Option<(u32, u32, u32, u32)>;

    open spec fn accepts(&self, input: &Self::Input) -> bool {
        true
    }

    /// An MVOUT is taken when the control allows and the storer is not
    /// busy.
    fn can_input(&self, ctrl: bool) -> (r: bool)
        ensures
            r == (ctrl && !old(self.0).busy),
    {
        ctrl && !self.0.busy
    }

    fn has_input(&self, input: &Self::Input) -> (r: bool)
        ensures
            r == input is Some,
    {
        input.is_some()
    }

    /// Starts the MVOUT given; nothing happens without one.
    fn execute(&mut self, input: &Self::Input)
        ensures
            match *input {
                Some((base_dram_addr, stride, depth, vbank_id)) => *final(self).0 == mvout_started(
                    base_dram_addr,
                    stride,
                    depth,
                    vbank_id,
                ),
                None => *final(self).0 == *old(self).0,
            },
            *final(final(self).0) == *final(old(self).0),
    {
        match *input {
            Some((base_dram_addr, stride, depth, vbank_id)) => {
                init_mvout(self.0, base_dram_addr, stride, depth, vbank_id);
            },
            None => {},
        }
    }
}

/// The number of bytes in one DRAM write, a bank word.
pub const DMA_WRITE_BYTES: u32 = 16;

/// The storer `t` once it has asked for its next word while words remain.
pub open spec fn asked(t: TDMAStore) -> TDMAStore {
    if t.current_index < t.current_depth {
        TDMAStore { dma_banks_read_req: Some((t.current_vbank_id, t.current_index)), ..t }
    } else {
        t
    }
}

/// The storer `n` is `t` after asking for its next word while words
/// remain.
pub open spec fn asked_next(t: TDMAStore, n: TDMAStore) -> bool {
    n == asked(t)
}

/// The word index after `i`, wrapping past the largest.
pub open spec fn next_index(i: u32) -> u32 {
    if i == u32::MAX {
        0
    } else {
        (i + 1) as u32
    }
}

/// The storer `t`, its waiting write taken, once the DRAM write answered
/// `r`: on `Ok` the index moves on and the storer stops once every word is
/// written; on an error it stops.
pub open spec fn after_write(t: TDMAStore, r: std::io::Result<()>) -> TDMAStore {
    let i = next_index(t.current_index);
    match r {
        Ok(_) => TDMAStore { dma_write_req: None, current_index: i, busy: t.busy && i < t.current_depth, ..t },
        Err(_) => TDMAStore { dma_write_req: None, busy: false, ..t },
    }
}

/// The storer `n` is `t` after its waiting write to DRAM, whatever the
/// write answered.
pub open spec fn wrote(t: TDMAStore, n: TDMAStore) -> bool {
    exists|r: std::io::Result<()>| #[trigger] after_write(t, r) == n
}

/// Takes the DRAM write the storer waits to make, `(dram_addr, data)`.
pub fn take_write_req(t: &mut TDMAStore) -> (w: Option<(u64, u128)>)
    ensures
        w == old(t).dma_write_req,
        *final(t) == (TDMAStore { dma_write_req: None, ..*old(t) }),
{
    t.dma_write_req.take()
}

/// Takes the answer `r` of the DRAM write (see `after_write`).
pub fn take_write_result(t: &mut TDMAStore, r: std::io::Result<()>)
    ensures
        *final(t) == after_write(*old(t), r),
{
    t.dma_write_req = None;
    match r {
        Ok(_) => {
            t.current_index = t.current_index.wrapping_add(1);
            if t.current_index >= t.current_depth {
                t.busy = false;
            }
        },
        Err(_) => {
            t.busy = false;
        },
    }
}

/// The DRAM write operation.
pub struct TDMAStoreDmaWriteInt<'a, D: DmaWriteInterface>(pub &'a mut TDMAStore, pub &'a D);

impl<'a, D: DmaWriteInterface> InternalOp for TDMAStoreDmaWriteInt<'a, D> {
    type Output = bool;

    open spec fn ready(&self) -> bool {
        true
    }

    /// Every word has been written.
    fn has_output(&self) -> (r: bool)
        ensures
            r == (old(self.0).current_index >= old(self.0).current_depth),
    {
        self.0.current_index >= self.0.current_depth
    }

    /// Asks for the next word while words remain (see `asked`), then takes
    /// the waiting DRAM write, if any, asks `dma_write` to write exactly its
    /// `(dram_addr, data)` with `DMA_WRITE_BYTES` bytes, and hands the answer
    /// to `take_write_result`, so the storer becomes `after_write` of
    /// whatever the write answered.
    fn update(&mut self)
        ensures
            final(self).1 == old(self).1,
            *final(final(self).0) == *final(old(self).0),
            ({
                let a = asked(*old(self).0);
                let n = *final(self).0;
                match a.dma_write_req {
                    Some(_) => wrote(a, n),
                    None => n == a,
                }
            }),
    {
        if self.0.current_index < self.0.current_depth {
            self.0.dma_banks_read_req = Some((self.0.current_vbank_id, self.0.current_index));
        }
        let ghost a = *self.0;
        if let Some((dram_addr, data)) = take_write_req(self.0) {
            let r = self.1.dma_write(dram_addr, data, DMA_WRITE_BYTES);
            take_write_result(self.0, r);
            assert(after_write(a, r) == *self.0);
        }
    }

    /// Every word has been written (`true`).
    fn output(&mut self) -> (r: bool)
        ensures
            r == (old(self).0.current_index >= old(self).0.current_depth),
            *final(self).0 == *old(self).0,
            final(self).1 == old(self).1,
            *final(final(self).0) == *final(old(self).0),
    {
        self.has_output()
    }
}

fn init_mvout(tdma: &mut TDMAStore, base_dram_addr: u32, stride: u32, depth: u32, vbank_id: u32)
    ensures
        *final(tdma) == mvout_started(base_dram_addr, stride, depth, vbank_id),
{
    tdma.current_base_addr = base_dram_addr;
    tdma.current_stride = stride;
    tdma.current_depth = depth;
    tdma.current_vbank_id = vbank_id;
    tdma.current_index = 0;
    tdma.busy = true;
    tdma.dma_banks_read_req = None;
    tdma.dma_write_req = None;
}

} // verus!
