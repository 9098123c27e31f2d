//! The memory domain's DMA loader: after an MVIN it reads one 16-byte word
//! from DRAM per update, at `base + index * stride`, and offers each as a
//! bank write `(vbank_id, index, data)`; a failed read ends the transfer.
use crate::buckyball::lib::operation::{ExternalOp, InternalOp};
use vstd::prelude::*;

verus! {

/// The DRAM side of the loader.
pub trait DmaInterface {
    fn dma_read(&self, addr: u64, size: u32) -> std::io::Result<u128>;
}

/// The loader's state.
pub struct TDMALoad {
    /// The bank write to hand out: `(vbank_id, index, data)`.
    pub dma_banks_write_req: Option<(u32, u32, u128)>,
    pub current_depth: u32,
    pub current_stride: u32,
    pub current_base_addr: u32,
    pub current_vbank_id: u32,
    pub current_index: u32,
    pub busy: bool,
}

/// An idle loader: nothing to hand out, every field zero.
pub open spec fn idle_loader() -> TDMALoad {
    TDMALoad {
        dma_banks_write_req: None,
        current_depth: 0,
        current_stride: 0,
        current_base_addr: 0,
        current_vbank_id: 0,
        current_index: 0,
        busy: false,
    }
}

impl TDMALoad {
    /// An idle loader.
    pub fn new() -> (t: Self)
        ensures
            t == idle_loader(),
    {
        TDMALoad {
            dma_banks_write_req: None,
            current_depth: 0,
            current_stride: 0,
            current_base_addr: 0,
            current_vbank_id: 0,
            current_index: 0,
            busy: false,
        }
    }

    /// The MVIN operation on this loader.
    pub fn mvin(&mut self) -> (op: TDMALoadMvin<'_>)
        ensures
            *op.0 == *old(self),
            *final(self) == *final(op.0),
    {
        TDMALoadMvin(self)
    }

    /// The DRAM read operation on this loader, through `dma`.
    pub fn dma_read_int<'a, D: DmaInterface>(&'a mut self, dma: &'a D) -> (op: TDMALoadDmaReadInt<'a, D>)
        ensures
            *op.0 == *old(self),
            op.1 == dma,
            *final(self) == *final(op.0),
    {
        TDMALoadDmaReadInt(self, dma)
    }
}

/// The loader after an MVIN of `depth` words from `base_dram_addr`,
/// `stride` bytes apart, into bank `vbank_id`: busy, at word zero, with no
/// bank write.
pub open spec fn mvin_started(base_dram_addr: u32, stride: u32, depth: u32, vbank_id: u32) -> TDMALoad {
    TDMALoad {
        dma_banks_write_req: None,
        current_depth: depth,
        current_stride: stride,
        current_base_addr: base_dram_addr,
        current_vbank_id: vbank_id,
        current_index: 0,
        busy: true,
    }
}

/// The number of bytes in one DRAM read, a bank word.
pub const DMA_READ_BYTES: u32 = 16;

/// The DRAM address of the loader's current word: `base + index * stride`.
pub open spec fn load_addr(t: TDMALoad) -> u64 {
    (t.current_base_addr + t.current_index * t.current_stride) as u64
}

/// The loader `t` once the DRAM read of its current word answered `r`: on
/// `Ok(d)` the bank write is `(vbank_id, index, d)` and the index moves on;
/// on an error the loader stops.
pub open spec fn after_read(t: TDMALoad, r: std::io::Result<u128>) -> TDMALoad {
    match r {
        Ok(d) => TDMALoad {
            dma_banks_write_req: Some((t.current_vbank_id, t.current_index, d)),
            current_index: (t.current_index + 1) as u32,
            ..t
        },
        Err(_) => TDMALoad { busy: false, ..t },
    }
}

/// The DRAM address of the loader's current word (see `load_addr`).
pub fn load_read_addr(t: &TDMALoad) -> (a: u64)
    ensures
        a == load_addr(*t),
{
    assert(t.current_index as u64 * t.current_stride as u64 <= 0xffff_ffff * 0xffff_ffff) by (nonlinear_arith)
        requires
            t.current_index <= 0xffff_ffff,
            t.current_stride <= 0xffff_ffff,
    ;
    t.current_base_addr as u64 + (t.current_index as u64) * (t.current_stride as u64)
}

/// Takes the answer `r` of the DRAM read of the current word (see
/// `after_read`).
pub fn take_read_result(t: &mut TDMALoad, r: std::io::Result<u128>)
    requires
        old(t).current_index < old(t).current_depth,
    ensures
        *final(t) == after_read(*old(t), r),
{
    match r {
        Ok(data) => {
            t.dma_banks_write_req = Some((t.current_vbank_id, t.current_index, data));
            t.current_index = t.current_index + 1;
        },
        Err(_) => {
            t.busy = false;
        },
    }
}

/// The MVIN operation: `(base_dram_addr, stride, depth, vbank_id)`.
pub struct TDMALoadMvin<'a>(pub &'a mut TDMALoad);

impl<'a> ExternalOp for TDMALoadMvin<'a> {
    type Input = Option<(u32, u32, u32, u32)>;

    open spec fn accepts(&self, input: &Self::Input) -> bool {
        true
    }

    /// An MVIN is taken when the control allows and the loader is not busy.
    fn can_input(&self, ctrl: bool) -> (r: bool)
        ensures
            r == (ctrl && !old(self.0).busy),
    {
        ctrl && !self.0.busy
    }

    fn has_input(&self, input: &Self::Input) -> (r: bool)
        ensures
            r == input is Some,
    {
        input.is_some()
    }

    /// Starts the MVIN given; nothing happens without one.
    fn execute(&mut self, input: &Self::Input)
        ensures
            match *input {
                Some((base_dram_addr, stride, depth, vbank_id)) => *final(self).0 == mvin_started(
                    base_dram_addr,
                    stride,
                    depth,
                    vbank_id,
                ),
                None => *final(self).0 == *old(self).0,
            },
            *final(final(self).0) == *final(old(self).0),
    {
        match *input {
            Some((base_dram_addr, stride, depth, vbank_id)) => {
                init_mvin(self.0, base_dram_addr, stride, depth, vbank_id);
            },
            None => {},
        }
    }
}

/// The DRAM read operation.
pub struct TDMALoadDmaReadInt<'a, D: DmaInterface>(pub &'a mut TDMALoad, pub &'a D);

impl<'a, D: DmaInterface> InternalOp for TDMALoadDmaReadInt<'a, D> {
    type Output = Option<(u32, u32, u128)>;

    open spec fn ready(&self) -> bool {
        true
    }

    fn has_output(&self) -> (r: bool)
        ensures
            r == old(self.0).dma_banks_write_req is Some,
    {
        self.0.dma_banks_write_req.is_some()
    }

    /// Reads the next word while words remain: it asks `dma_read` for
    /// `DMA_READ_BYTES` bytes at `load_addr` and hands the answer to
    /// `take_read_result`, so the loader becomes `after_read` of whatever
    /// the read answered.
    fn update(&mut self)
        ensures
            final(self).1 == old(self).1,
            *final(final(self).0) == *final(old(self).0),
            old(self).0.current_index >= old(self).0.current_depth ==> *final(self).0 == *old(self).0,
            old(self).0.current_index < old(self).0.current_depth ==> exists|r: std::io::Result<u128>|
                #[trigger] after_read(*old(self).0, r) == *final(self).0,
    {
        if self.0.current_index < self.0.current_depth {
            let addr = load_read_addr(self.0);
            let r = self.1.dma_read(addr, DMA_READ_BYTES);
            take_read_result(self.0, r);
        }
    }

    /// Hands out the bank write, if any, which stays.
    fn output(&mut self) -> (r: Self::Output)
        ensures
            r == old(self).0.dma_banks_write_req,
            *final(self).0 == *old(self).0,
            final(self).1 == old(self).1,
            *final(final(self).0) == *final(old(self).0),
    {
        self.0.dma_banks_write_req
    }
}

fn init_mvin(tdma: &mut TDMALoad, base_dram_addr: u32, stride: u32, depth: u32, vbank_id: u32)
    ensures
        *final(tdma) == mvin_started(base_dram_addr, stride, depth, vbank_id),
{
    tdma.current_base_addr = base_dram_addr;
    tdma.current_stride = stride;
    tdma.current_depth = depth;
    tdma.current_vbank_id = vbank_id;
    tdma.current_index = 0;
    tdma.busy = true;
    tdma.dma_banks_write_req = None;
}

} // verus!
