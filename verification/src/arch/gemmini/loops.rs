//! Gemmini's loop instructions: `loop_ws` unrolls a tiled matrix product
//! into the move-in, preload, compute and move-out commands the accelerator
//! then runs in order.
//!
//! DRAM addresses are computed in 64-bit arithmetic that wraps.
use vstd::prelude::*;
use crate::arch::gemmini::gemmini::{
    lemma_field_ranges, loop_ws_addrs_ab_state, loop_ws_addrs_dc_state,
    loop_ws_strides_ab_state, loop_ws_strides_dc_state, Gemmini, GemminiState, DIM,
};

verus! {

/// One command of the accelerator, as a loop instruction issues it.
#[derive(Clone, Copy, Debug, PartialEq, Eq, Structural)]
pub enum GemminiCmd {
    /// `mvin(dram_addr, sp_addr, state_id)`.
    Mvin { dram_addr: u64, sp_addr: u64, state_id: usize },
    /// `mvout(dram_addr, sp_addr)`.
    Mvout { dram_addr: u64, sp_addr: u64 },
    /// `preload(bd_addr, c_addr)`.
    Preload { bd_addr: u64, c_addr: u64 },
    /// `compute(a_addr, bd_addr, preload)`.
    Compute { a_addr: u64, bd_addr: u64, preload: bool },
    /// `config(rs1, rs2)`.
    Config { rs1: u64, rs2: u64 },
}

/// An operand register: rows, columns and scratchpad address.
pub open spec fn operand(rows: u64, cols: u64, addr: u32) -> u64 {
    (rows << 48) | (cols << 32) | (addr as u64)
}

/// Builds an operand register.
pub fn make_operand(rows: u64, cols: u64, addr: u32) -> (r: u64)
    ensures
        r == operand(rows, cols, addr),
{
    (rows << 48) | (cols << 32) | (addr as u64)
}

/// The DRAM address of tile (`r`, `c`) of a matrix at `base` whose rows of
/// tiles are `stride` tiles apart, with `bytes`-byte elements: `base +
/// (r * stride + c) * DIM * bytes`, modulo 2^64.
pub open spec fn tile_dram_addr(base: u64, stride: u64, r: u64, c: u64, bytes: u64) -> u64 {
    base.wrapping_add(r.wrapping_mul(stride).wrapping_add(c).wrapping_mul((DIM * bytes) as u64))
}

/// Below 2^64, the wrapping product and sum are the exact ones.
proof fn lemma_exact_wrapping(x: u64, y: u64)
    ensures
        x * y <= u64::MAX ==> x.wrapping_mul(y) == x * y,
        x + y <= u64::MAX ==> x.wrapping_add(y) == x + y,
{
    if x * y <= u64::MAX {
        vstd::arithmetic::div_mod::lemma_small_mod((x * y) as nat, 0x1_0000_0000_0000_0000nat);
    }
}

/// Where no sum or product overflows, tile (`r`, `c`) starts `r * stride +
/// c` tiles of `DIM` elements of `bytes` bytes after `base`.
pub proof fn lemma_tile_dram_addr_exact(base: u64, stride: u64, r: u64, c: u64, bytes: u64)
    requires
        1 <= bytes <= 4,
        base + (r * stride + c) * DIM * bytes <= u64::MAX,
    ensures
        tile_dram_addr(base, stride, r, c, bytes) == base + (r * stride + c) * DIM * bytes,
{
    let size = (DIM * bytes) as u64;
    assert(r * stride + c <= (r * stride + c) * DIM * bytes && (r * stride + c) * DIM * bytes == (r * stride
        + c) * size && 0 <= r * stride) by (nonlinear_arith)
        requires
            1 <= bytes <= 4,
            DIM == 16,
            size == DIM * bytes,
    ;
    lemma_exact_wrapping(r, stride);
    lemma_exact_wrapping(r.wrapping_mul(stride), c);
    lemma_exact_wrapping(r.wrapping_mul(stride).wrapping_add(c), size);
    lemma_exact_wrapping(base, r.wrapping_mul(stride).wrapping_add(c).wrapping_mul(size));
}

/// Computes `tile_dram_addr`.
fn dram_addr(base: u64, stride: u64, r: u64, c: u64, bytes: u64) -> (a: u64)
    requires
        bytes <= 4,
    ensures
        a == tile_dram_addr(base, stride, r, c, bytes),
{
    assert(DIM as u64 * bytes <= 64) by (nonlinear_arith)
        requires
            bytes <= 4,
            DIM == 16,
    ;
    let size: u64 = DIM as u64 * bytes;
    base.wrapping_add(r.wrapping_mul(stride).wrapping_add(c).wrapping_mul(size))
}

/// The extent of tile `idx` of `count` along a side whose last tile is
/// `pad` short.
pub open spec fn tile_extent(idx: u64, count: u64, pad: u64) -> u64 {
    if idx + 1 == count {
        (DIM - pad) as u64
    } else {
        DIM as u64
    }
}

/// Computes `tile_extent`.
fn extent(idx: u64, count: u64, pad: u64) -> (e: u64)
    requires
        pad <= DIM,
        idx < count,
    ensures
        e == tile_extent(idx, count, pad),
{
    if idx + 1 == count {
        DIM as u64 - pad
    } else {
        DIM as u64
    }
}

/// The parameters of a `loop_ws`, decoded from the state and the operands.
#[derive(Clone, Copy)]
pub struct LoopWsParams {
    pub i: u64,
    pub j: u64,
    pub k: u64,
    pub pad_i: u64,
    pub pad_j: u64,
    pub pad_k: u64,
    pub a: u64,
    pub b: u64,
    pub c: u64,
    pub d: u64,
    pub a_stride: u64,
    pub b_stride: u64,
    pub c_stride: u64,
    pub d_stride: u64,
    pub ex_accumulate: bool,
    pub full_c: bool,
    pub low_d: bool,
    pub a_transpose: bool,
    pub b_transpose: bool,
    pub is_resadd: bool,
    pub a_spad_id: u64,
    pub b_spad_id: u64,
}

/// Decodes the parameters of `loop_ws`.
pub open spec fn loop_ws_params(s: GemminiState, rs1: u64, rs2: u64) -> LoopWsParams {
    LoopWsParams {
        i: s.loop_ws_I as u64,
        j: s.loop_ws_J as u64,
        k: s.loop_ws_K as u64,
        pad_i: s.loop_ws_pad_I as u64,
        pad_j: s.loop_ws_pad_J as u64,
        pad_k: s.loop_ws_pad_K as u64,
        a: s.loop_ws_A,
        b: s.loop_ws_B,
        c: s.loop_ws_C,
        d: s.loop_ws_D,
        a_stride: s.loop_ws_A_stride,
        b_stride: s.loop_ws_B_stride,
        c_stride: s.loop_ws_C_stride,
        d_stride: s.loop_ws_D_stride,
        ex_accumulate: rs1 & 1 != 0,
        full_c: (rs1 >> 1) & 1 != 0,
        low_d: (rs1 >> 2) & 1 != 0,
        a_transpose: rs2 & 1 != 0,
        b_transpose: (rs2 >> 1) & 1 != 0,
        is_resadd: (rs2 >> 2) & 1 != 0,
        a_spad_id: (rs1 >> 18) & 3,
        b_spad_id: (rs1 >> 16) & 3,
    }
}

/// The tiles do not fit the halves of the scratchpad and of the
/// accumulator that double buffering leaves.
pub open spec fn loop_ws_too_large(p: LoopWsParams) -> bool {
    (p.i * p.k + p.k * p.j) * DIM > 8192 || p.i * p.j * DIM > 512
}

/// The paddings are at most a tile wherever a loop reaches them.
pub open spec fn loop_ws_pads_fit(p: LoopWsParams) -> bool {
    &&& (p.i > 0 && p.j > 0) ==> p.pad_i <= DIM && p.pad_j <= DIM
    &&& (p.i > 0 && p.j > 0 && p.k > 0) ==> p.pad_k <= DIM
}

/// Where A starts in the scratchpad.
pub open spec fn ws_a_start(p: LoopWsParams) -> int {
    if p.is_resadd {
        0x8000_0000
    } else if p.a_spad_id == 2 {
        8192
    } else {
        0
    }
}

/// Where B starts in the scratchpad.
pub open spec fn ws_b_start(p: LoopWsParams) -> int {
    if p.is_resadd {
        0xC000_0000
    } else if p.b_spad_id == 2 {
        16384 - p.k * p.j * DIM
    } else {
        8192 - p.k * p.j * DIM
    }
}

/// Where C starts in the accumulator address space.
pub open spec fn ws_c_start(p: LoopWsParams) -> int {
    0xC000_0000 + if p.full_c {
        0x2000_0000int
    } else {
        0
    }
}

/// Where D starts in the accumulator address space.
pub open spec fn ws_d_start() -> int {
    0x8000_0000
}

/// The scratchpad address of output tile (`ii`, `jj`) counted from `start`.
pub open spec fn ws_tile_sp(p: LoopWsParams, start: int, ii: u64, jj: u64) -> u32 {
    (start + (ii * p.j + jj) * DIM) as u32
}

/// The byte size of a C element.
pub open spec fn c_bytes(p: LoopWsParams) -> u64 {
    if p.full_c {
        4
    } else {
        1
    }
}

/// The byte size of a D element.
pub open spec fn d_bytes(p: LoopWsParams) -> u64 {
    if p.low_d {
        1
    } else {
        4
    }
}

/// The move-out of output tile (`ii`, `jj`).
pub open spec fn ws_mvout(p: LoopWsParams, ii: u64, jj: u64, c_sp: u32) -> GemminiCmd {
    GemminiCmd::Mvout {
        dram_addr: tile_dram_addr(p.c, p.c_stride, ii, jj, c_bytes(p)),
        sp_addr: operand(tile_extent(ii, p.i, p.pad_i), tile_extent(jj, p.j, p.pad_j), c_sp),
    }
}

/// The commands of tile (`ii`, `jj`) of a residual addition: move A and B
/// into the accumulator, then move the sum out if C has an address.
pub open spec fn resadd_step(p: LoopWsParams, ii: u64, jj: u64) -> Seq<GemminiCmd> {
    let rows = tile_extent(ii, p.i, p.pad_i);
    let cols = tile_extent(jj, p.j, p.pad_j);
    let mvins = seq![
        GemminiCmd::Mvin {
            dram_addr: tile_dram_addr(p.a, p.a_stride, ii, jj, 1),
            sp_addr: operand(rows, cols, ws_tile_sp(p, ws_a_start(p), ii, jj)),
            state_id: 0,
        },
        GemminiCmd::Mvin {
            dram_addr: tile_dram_addr(p.b, p.b_stride, ii, jj, 1),
            sp_addr: operand(rows, cols, ws_tile_sp(p, ws_b_start(p), ii, jj)),
            state_id: 1,
        },
    ];
    if p.c != 0 {
        mvins.push(ws_mvout(p, ii, jj, ws_tile_sp(p, ws_c_start(p), ii, jj)))
    } else {
        mvins
    }
}

/// The move-in of bias tile (`ii`, `jj`).
pub open spec fn bias_step(p: LoopWsParams, ii: u64, jj: u64) -> GemminiCmd {
    GemminiCmd::Mvin {
        dram_addr: tile_dram_addr(p.d, p.d_stride, ii, jj, d_bytes(p)),
        sp_addr: operand(
            tile_extent(ii, p.i, p.pad_i),
            tile_extent(jj, p.j, p.pad_j),
            ws_tile_sp(p, ws_d_start(), ii, jj),
        ),
        state_id: 2,
    }
}

/// The scratchpad address of A tile (`ii`, `kk`).
pub open spec fn ws_a_sp(p: LoopWsParams, kk: u64, ii: u64) -> u32 {
    if p.a_transpose {
        (ws_a_start(p) + (kk * p.i + ii) * DIM) as u32
    } else {
        (ws_a_start(p) + (ii * p.k + kk) * DIM) as u32
    }
}

/// The scratchpad address of B tile (`kk`, `jj`).
pub open spec fn ws_b_sp(p: LoopWsParams, kk: u64, jj: u64) -> u32 {
    if p.b_transpose {
        (ws_b_start(p) + (jj * p.k + kk) * DIM) as u32
    } else {
        (ws_b_start(p) + (kk * p.j + jj) * DIM) as u32
    }
}

/// The move-in of A tile (`ii`, `kk`), once per row of output tiles.
pub open spec fn ws_mvin_a(p: LoopWsParams, kk: u64, jj: u64, ii: u64) -> Seq<GemminiCmd> {
    if jj == 0 && p.a != 0 {
        let cmd = if p.a_transpose {
            GemminiCmd::Mvin {
                dram_addr: tile_dram_addr(p.a, p.a_stride, kk, ii, 1),
                sp_addr: operand(
                    tile_extent(kk, p.k, p.pad_k),
                    tile_extent(ii, p.i, p.pad_i),
                    ws_a_sp(p, kk, ii),
                ),
                state_id: 0,
            }
        } else {
            GemminiCmd::Mvin {
                dram_addr: tile_dram_addr(p.a, p.a_stride, ii, kk, 1),
                sp_addr: operand(
                    tile_extent(ii, p.i, p.pad_i),
                    tile_extent(kk, p.k, p.pad_k),
                    ws_a_sp(p, kk, ii),
                ),
                state_id: 0,
            }
        };
        seq![cmd]
    } else {
        Seq::empty()
    }
}

/// The move-in of B tile (`kk`, `jj`), once per column of output tiles.
pub open spec fn ws_mvin_b(p: LoopWsParams, kk: u64, jj: u64, ii: u64) -> Seq<GemminiCmd> {
    if ii == 0 && p.b != 0 {
        let cmd = if p.b_transpose {
            GemminiCmd::Mvin {
                dram_addr: tile_dram_addr(p.b, p.b_stride, jj, kk, 1),
                sp_addr: operand(
                    tile_extent(jj, p.j, p.pad_j),
                    tile_extent(kk, p.k, p.pad_k),
                    ws_b_sp(p, kk, jj),
                ),
                state_id: 1,
            }
        } else {
            GemminiCmd::Mvin {
                dram_addr: tile_dram_addr(p.b, p.b_stride, kk, jj, 1),
                sp_addr: operand(
                    tile_extent(kk, p.k, p.pad_k),
                    tile_extent(jj, p.j, p.pad_j),
                    ws_b_sp(p, kk, jj),
                ),
                state_id: 1,
            }
        };
        seq![cmd]
    } else {
        Seq::empty()
    }
}

/// A tile (`ii`, `kk`) of the K-step of output row `ii` is moved in from
/// row `ii`, column `kk` of A's grid of tiles; with A transposed, A is
/// stored K by I, and the tile comes from row `kk`, column `ii`.
pub proof fn lemma_ws_mvin_a_address(p: LoopWsParams, kk: u64, ii: u64)
    requires
        p.a != 0,
        !p.a_transpose ==> p.a + (ii * p.a_stride + kk) * DIM <= u64::MAX,
        p.a_transpose ==> p.a + (kk * p.a_stride + ii) * DIM <= u64::MAX,
    ensures
        ws_mvin_a(p, kk, 0, ii).len() == 1,
        ws_mvin_a(p, kk, 0, ii)[0] is Mvin,
        !p.a_transpose ==> ws_mvin_a(p, kk, 0, ii)[0]->Mvin_dram_addr == p.a + (ii * p.a_stride + kk) * DIM,
        p.a_transpose ==> ws_mvin_a(p, kk, 0, ii)[0]->Mvin_dram_addr == p.a + (kk * p.a_stride + ii) * DIM,
{
    if p.a_transpose {
        lemma_tile_dram_addr_exact(p.a, p.a_stride, kk, ii, 1);
    } else {
        lemma_tile_dram_addr_exact(p.a, p.a_stride, ii, kk, 1);
    }
}

/// B tile (`kk`, `jj`) of the first output row is moved in from row `kk`,
/// column `jj` of B's grid of tiles; with B transposed, B is stored J by K,
/// and the tile comes from row `jj`, column `kk`.
pub proof fn lemma_ws_mvin_b_address(p: LoopWsParams, kk: u64, jj: u64)
    requires
        p.b != 0,
        !p.b_transpose ==> p.b + (kk * p.b_stride + jj) * DIM <= u64::MAX,
        p.b_transpose ==> p.b + (jj * p.b_stride + kk) * DIM <= u64::MAX,
    ensures
        ws_mvin_b(p, kk, jj, 0).len() == 1,
        ws_mvin_b(p, kk, jj, 0)[0] is Mvin,
        !p.b_transpose ==> ws_mvin_b(p, kk, jj, 0)[0]->Mvin_dram_addr == p.b + (kk * p.b_stride + jj) * DIM,
        p.b_transpose ==> ws_mvin_b(p, kk, jj, 0)[0]->Mvin_dram_addr == p.b + (jj * p.b_stride + kk) * DIM,
{
    if p.b_transpose {
        lemma_tile_dram_addr_exact(p.b, p.b_stride, jj, kk, 1);
    } else {
        lemma_tile_dram_addr_exact(p.b, p.b_stride, kk, jj, 1);
    }
}

/// Output tile (`ii`, `jj`) is moved out to row `ii`, column `jj` of C's
/// grid of tiles, whose elements take four bytes when C is full and one
/// otherwise.
pub proof fn lemma_ws_mvout_address(p: LoopWsParams, ii: u64, jj: u64, c_sp: u32)
    requires
        p.c + (ii * p.c_stride + jj) * DIM * 4 <= u64::MAX,
    ensures
        ws_mvout(p, ii, jj, c_sp) is Mvout,
        ws_mvout(p, ii, jj, c_sp)->Mvout_dram_addr == p.c + (ii * p.c_stride + jj) * DIM * (if p.full_c {
            4int
        } else {
            1int
        }),
{
    assert((ii * p.c_stride + jj) * DIM * 1 <= (ii * p.c_stride + jj) * DIM * 4) by (nonlinear_arith)
        requires
            0 <= ii * p.c_stride + jj,
    ;
    assert(0 <= ii * p.c_stride) by (nonlinear_arith);
    lemma_tile_dram_addr_exact(p.c, p.c_stride, ii, jj, c_bytes(p));
}

/// Bias tile (`ii`, `jj`) is moved in from row `ii`, column `jj` of D's
/// grid of tiles, whose elements take one byte when D is low and four
/// otherwise.
pub proof fn lemma_bias_address(p: LoopWsParams, ii: u64, jj: u64)
    requires
        p.d + (ii * p.d_stride + jj) * DIM * 4 <= u64::MAX,
    ensures
        bias_step(p, ii, jj) is Mvin,
        bias_step(p, ii, jj)->Mvin_dram_addr == p.d + (ii * p.d_stride + jj) * DIM * (if p.low_d {
            1int
        } else {
            4int
        }),
{
    assert((ii * p.d_stride + jj) * DIM * 1 <= (ii * p.d_stride + jj) * DIM * 4) by (nonlinear_arith)
        requires
            0 <= ii * p.d_stride + jj,
    ;
    assert(0 <= ii * p.d_stride) by (nonlinear_arith);
    lemma_tile_dram_addr_exact(p.d, p.d_stride, ii, jj, d_bytes(p));
}

/// The preload and the compute of step (`kk`, `jj`, `ii`): B is preloaded
/// for the first row of output tiles, and the first K step overwrites the
/// accumulator unless the loop accumulates.
pub open spec fn ws_preload_compute(p: LoopWsParams, kk: u64, jj: u64, ii: u64) -> Seq<GemminiCmd> {
    let c_sp = ws_tile_sp(p, ws_c_start(p), ii, jj);
    let pre_sp: u32 = if ii == 0 {
        ws_b_sp(p, kk, jj)
    } else {
        0xFFFF_FFFFu32
    };
    let out_sp: u32 = if !p.ex_accumulate && kk == 0 {
        c_sp & 0xBFFF_FFFFu32
    } else {
        c_sp
    };
    let rows_i = tile_extent(ii, p.i, p.pad_i);
    let cols_j = tile_extent(jj, p.j, p.pad_j);
    let depth = tile_extent(kk, p.k, p.pad_k);
    seq![
        GemminiCmd::Preload {
            bd_addr: operand(depth, cols_j, pre_sp),
            c_addr: operand(rows_i, cols_j, out_sp),
        },
        GemminiCmd::Compute {
            a_addr: operand(rows_i, depth, ws_a_sp(p, kk, ii)),
            bd_addr: operand(DIM as u64, DIM as u64, 0xFFFF_FFFFu32),
            preload: ii == 0,
        },
    ]
}

/// The commands of step (`kk`, `jj`, `ii`) of the tiled product: move in A
/// and B where needed, preload and compute, and move C out after the last K
/// step.
pub open spec fn ws_step(p: LoopWsParams, kk: u64, jj: u64, ii: u64) -> Seq<GemminiCmd> {
    let mvout = if p.c != 0 && kk + 1 == p.k {
        seq![ws_mvout(p, ii, jj, ws_tile_sp(p, ws_c_start(p), ii, jj))]
    } else {
        Seq::empty()
    };
    ws_mvin_a(p, kk, jj, ii) + ws_mvin_b(p, kk, jj, ii) + ws_preload_compute(p, kk, jj, ii) + mvout
}

/// The steps (`kk`, `jj`, `ii`) for `ii < n`, in order.
pub open spec fn ws_row(p: LoopWsParams, kk: u64, jj: u64, n: int) -> Seq<GemminiCmd>
    decreases n,
{
    if n <= 0 {
        Seq::empty()
    } else {
        ws_row(p, kk, jj, n - 1) + ws_step(p, kk, jj, (n - 1) as u64)
    }
}

/// The steps (`kk`, `jj`, `ii`) for `jj < n`, in order.
pub open spec fn ws_plane(p: LoopWsParams, kk: u64, n: int) -> Seq<GemminiCmd>
    decreases n,
{
    if n <= 0 {
        Seq::empty()
    } else {
        ws_plane(p, kk, n - 1) + ws_row(p, kk, (n - 1) as u64, p.i as int)
    }
}

/// The steps (`kk`, `jj`, `ii`) for `kk < n`, in order.
pub open spec fn ws_steps(p: LoopWsParams, n: int) -> Seq<GemminiCmd>
    decreases n,
{
    if n <= 0 {
        Seq::empty()
    } else {
        ws_steps(p, n - 1) + ws_plane(p, (n - 1) as u64, p.j as int)
    }
}

/// The bias move-ins of tiles (`ii`, `jj`) for `jj < n`.
pub open spec fn bias_row(p: LoopWsParams, ii: u64, n: int) -> Seq<GemminiCmd>
    decreases n,
{
    if n <= 0 {
        Seq::empty()
    } else {
        bias_row(p, ii, n - 1).push(bias_step(p, ii, (n - 1) as u64))
    }
}

/// The bias move-ins of tiles (`ii`, `jj`) for `ii < n`.
pub open spec fn bias_tiles(p: LoopWsParams, n: int) -> Seq<GemminiCmd>
    decreases n,
{
    if n <= 0 {
        Seq::empty()
    } else {
        bias_tiles(p, n - 1) + bias_row(p, (n - 1) as u64, p.j as int)
    }
}

/// The residual-addition commands of tiles (`ii`, `jj`) for `jj < n`.
pub open spec fn resadd_row(p: LoopWsParams, ii: u64, n: int) -> Seq<GemminiCmd>
    decreases n,
{
    if n <= 0 {
        Seq::empty()
    } else {
        resadd_row(p, ii, n - 1) + resadd_step(p, ii, (n - 1) as u64)
    }
}

/// The residual-addition commands of tiles (`ii`, `jj`) for `ii < n`.
pub open spec fn resadd_tiles(p: LoopWsParams, n: int) -> Seq<GemminiCmd>
    decreases n,
{
    if n <= 0 {
        Seq::empty()
    } else {
        resadd_tiles(p, n - 1) + resadd_row(p, (n - 1) as u64, p.j as int)
    }
}

/// The commands a `loop_ws` issues: none when the tiles do not fit; the
/// residual additions for a residual add; else the bias move-ins, when D
/// has an address, then the steps of the tiled product.
pub open spec fn loop_ws_cmds(p: LoopWsParams) -> Seq<GemminiCmd> {
    if loop_ws_too_large(p) {
        Seq::empty()
    } else if p.is_resadd {
        resadd_tiles(p, p.i as int)
    } else {
        (if p.d != 0 {
            bias_tiles(p, p.i as int)
        } else {
            Seq::empty()
        }) + ws_steps(p, p.k as int)
    }
}


/// The decoded fields are in their registers' ranges.
pub open spec fn params_bounded(p: LoopWsParams) -> bool {
    &&& p.i <= 0xFFFF && p.j <= 0xFFFF && p.k <= 0xFFFF
    &&& p.pad_i <= 0xFFFF && p.pad_j <= 0xFFFF && p.pad_k <= 0xFFFF
    &&& p.a_spad_id <= 3 && p.b_spad_id <= 3
}

/// Decodes the parameters of `loop_ws`.
pub(crate) fn decode_loop_ws(s: &GemminiState, rs1: u64, rs2: u64) -> (p: LoopWsParams)
    ensures
        p == loop_ws_params(*s, rs1, rs2),
        params_bounded(p),
{
    proof {
        lemma_field_ranges();
    }
    LoopWsParams {
        i: s.loop_ws_I as u64,
        j: s.loop_ws_J as u64,
        k: s.loop_ws_K as u64,
        pad_i: s.loop_ws_pad_I as u64,
        pad_j: s.loop_ws_pad_J as u64,
        pad_k: s.loop_ws_pad_K as u64,
        a: s.loop_ws_A,
        b: s.loop_ws_B,
        c: s.loop_ws_C,
        d: s.loop_ws_D,
        a_stride: s.loop_ws_A_stride,
        b_stride: s.loop_ws_B_stride,
        c_stride: s.loop_ws_C_stride,
        d_stride: s.loop_ws_D_stride,
        ex_accumulate: rs1 & 1 != 0,
        full_c: (rs1 >> 1) & 1 != 0,
        low_d: (rs1 >> 2) & 1 != 0,
        a_transpose: rs2 & 1 != 0,
        b_transpose: (rs2 >> 1) & 1 != 0,
        is_resadd: (rs2 >> 2) & 1 != 0,
        a_spad_id: (rs1 >> 18) & 3,
        b_spad_id: (rs1 >> 16) & 3,
    }
}

/// The tiles fit and the loops can reach every padding.
pub open spec fn ws_ready(p: LoopWsParams) -> bool {
    &&& params_bounded(p)
    &&& !loop_ws_too_large(p)
    &&& loop_ws_pads_fit(p)
}

/// Computes `ws_a_start`.
fn a_start(p: &LoopWsParams) -> (a: u64)
    requires
        ws_ready(*p),
    ensures
        a == ws_a_start(*p),
        a <= 0x8000_0000,
{
    if p.is_resadd {
        0x8000_0000
    } else if p.a_spad_id == 2 {
        8192
    } else {
        0
    }
}

/// Computes `ws_b_start`.
fn b_start(p: &LoopWsParams) -> (b: u64)
    requires
        ws_ready(*p),
    ensures
        b == ws_b_start(*p),
        b <= 0xC000_0000,
{
    assert(p.k * p.j * DIM <= 8192) by (nonlinear_arith)
        requires
            (p.i * p.k + p.k * p.j) * DIM <= 8192,
            p.i * p.k >= 0,
    ;
    if p.is_resadd {
        0xC000_0000
    } else if p.b_spad_id == 2 {
        16384 - p.k * p.j * DIM as u64
    } else {
        8192 - p.k * p.j * DIM as u64
    }
}

/// Computes `ws_c_start`.
fn c_start(p: &LoopWsParams) -> (c: u64)
    ensures
        c == ws_c_start(*p),
        c <= 0xE000_0000,
{
    if p.full_c {
        0xE000_0000
    } else {
        0xC000_0000
    }
}

/// Computes `(start + (r * n + c) * DIM) as u32`.
fn sp_at(start: u64, r: u64, n: u64, c: u64) -> (a: u32)
    requires
        start <= 0xE000_0000,
        r <= 0xFFFF,
        n <= 0xFFFF,
        c <= 0xFFFF,
    ensures
        a == (start + (r * n + c) * DIM) as u32,
{
    assert(r * n <= 0xFFFF * 0xFFFF) by (nonlinear_arith)
        requires
            r <= 0xFFFF,
            n <= 0xFFFF,
    ;
    (start + (r * n + c) * DIM as u64) as u32
}

/// Appends the commands of a residual-addition tile.
fn push_resadd_step(cmds: &mut Vec<GemminiCmd>, p: &LoopWsParams, ii: u64, jj: u64)
    requires
        ws_ready(*p),
        p.is_resadd,
        ii < p.i,
        jj < p.j,
    ensures
        final(cmds)@ == old(cmds)@ + resadd_step(*p, ii, jj),
{
    let rows = extent(ii, p.i, p.pad_i);
    let cols = extent(jj, p.j, p.pad_j);
    let a_sp = sp_at(a_start(p), ii, p.j, jj);
    let b_sp = sp_at(b_start(p), ii, p.j, jj);
    let ghost start = cmds@;
    cmds.push(
        GemminiCmd::Mvin {
            dram_addr: dram_addr(p.a, p.a_stride, ii, jj, 1),
            sp_addr: make_operand(rows, cols, a_sp),
            state_id: 0,
        },
    );
    cmds.push(
        GemminiCmd::Mvin {
            dram_addr: dram_addr(p.b, p.b_stride, ii, jj, 1),
            sp_addr: make_operand(rows, cols, b_sp),
            state_id: 1,
        },
    );
    if p.c != 0 {
        let c_sp = sp_at(c_start(p), ii, p.j, jj);
        let bytes: u64 = if p.full_c {
            4
        } else {
            1
        };
        cmds.push(
            GemminiCmd::Mvout {
                dram_addr: dram_addr(p.c, p.c_stride, ii, jj, bytes),
                sp_addr: make_operand(rows, cols, c_sp),
            },
        );
    }
    assert(cmds@ =~= start + resadd_step(*p, ii, jj));
}

/// Appends the move-in of a bias tile.
fn push_bias_step(cmds: &mut Vec<GemminiCmd>, p: &LoopWsParams, ii: u64, jj: u64)
    requires
        ws_ready(*p),
        ii < p.i,
        jj < p.j,
    ensures
        final(cmds)@ == old(cmds)@.push(bias_step(*p, ii, jj)),
{
    let rows = extent(ii, p.i, p.pad_i);
    let cols = extent(jj, p.j, p.pad_j);
    let sp = sp_at(0x8000_0000, ii, p.j, jj);
    let bytes: u64 = if p.low_d {
        1
    } else {
        4
    };
    cmds.push(
        GemminiCmd::Mvin {
            dram_addr: dram_addr(p.d, p.d_stride, ii, jj, bytes),
            sp_addr: make_operand(rows, cols, sp),
            state_id: 2,
        },
    );
}

/// Computes `ws_a_sp`.
fn a_sp_of(p: &LoopWsParams, kk: u64, ii: u64) -> (a: u32)
    requires
        ws_ready(*p),
        kk < p.k,
        ii < p.i,
    ensures
        a == ws_a_sp(*p, kk, ii),
{
    if p.a_transpose {
        sp_at(a_start(p), kk, p.i, ii)
    } else {
        sp_at(a_start(p), ii, p.k, kk)
    }
}

/// Computes `ws_b_sp`.
fn b_sp_of(p: &LoopWsParams, kk: u64, jj: u64) -> (b: u32)
    requires
        ws_ready(*p),
        kk < p.k,
        jj < p.j,
    ensures
        b == ws_b_sp(*p, kk, jj),
{
    if p.b_transpose {
        sp_at(b_start(p), jj, p.k, kk)
    } else {
        sp_at(b_start(p), kk, p.j, jj)
    }
}

/// Appends the move-in of A for step (`kk`, `jj`, `ii`).
fn push_ws_mvin_a(cmds: &mut Vec<GemminiCmd>, p: &LoopWsParams, kk: u64, jj: u64, ii: u64)
    requires
        ws_ready(*p),
        kk < p.k,
        jj < p.j,
        ii < p.i,
    ensures
        final(cmds)@ == old(cmds)@ + ws_mvin_a(*p, kk, jj, ii),
{
    let ghost start = cmds@;
    if jj == 0 && p.a != 0 {
        let rows_i = extent(ii, p.i, p.pad_i);
        let depth = extent(kk, p.k, p.pad_k);
        let a_sp = a_sp_of(p, kk, ii);
        if p.a_transpose {
            cmds.push(
                GemminiCmd::Mvin {
                    dram_addr: dram_addr(p.a, p.a_stride, kk, ii, 1),
                    sp_addr: make_operand(depth, rows_i, a_sp),
                    state_id: 0,
                },
            );
        } else {
            cmds.push(
                GemminiCmd::Mvin {
                    dram_addr: dram_addr(p.a, p.a_stride, ii, kk, 1),
                    sp_addr: make_operand(rows_i, depth, a_sp),
                    state_id: 0,
                },
            );
        }
    }
    assert(cmds@ =~= start + ws_mvin_a(*p, kk, jj, ii));
}

/// Appends the move-in of B for step (`kk`, `jj`, `ii`).
fn push_ws_mvin_b(cmds: &mut Vec<GemminiCmd>, p: &LoopWsParams, kk: u64, jj: u64, ii: u64)
    requires
        ws_ready(*p),
        kk < p.k,
        jj < p.j,
        ii < p.i,
    ensures
        final(cmds)@ == old(cmds)@ + ws_mvin_b(*p, kk, jj, ii),
{
    let ghost start = cmds@;
    if ii == 0 && p.b != 0 {
        let cols_j = extent(jj, p.j, p.pad_j);
        let depth = extent(kk, p.k, p.pad_k);
        let b_sp = b_sp_of(p, kk, jj);
        if p.b_transpose {
            cmds.push(
                GemminiCmd::Mvin {
                    dram_addr: dram_addr(p.b, p.b_stride, jj, kk, 1),
                    sp_addr: make_operand(cols_j, depth, b_sp),
                    state_id: 1,
                },
            );
        } else {
            cmds.push(
                GemminiCmd::Mvin {
                    dram_addr: dram_addr(p.b, p.b_stride, kk, jj, 1),
                    sp_addr: make_operand(depth, cols_j, b_sp),
                    state_id: 1,
                },
            );
        }
    }
    assert(cmds@ =~= start + ws_mvin_b(*p, kk, jj, ii));
}

/// Appends the preload and the compute of step (`kk`, `jj`, `ii`).
fn push_ws_preload_compute(cmds: &mut Vec<GemminiCmd>, p: &LoopWsParams, kk: u64, jj: u64, ii: u64)
    requires
        ws_ready(*p),
        kk < p.k,
        jj < p.j,
        ii < p.i,
    ensures
        final(cmds)@ == old(cmds)@ + ws_preload_compute(*p, kk, jj, ii),
{
    let ghost start = cmds@;
    let rows_i = extent(ii, p.i, p.pad_i);
    let cols_j = extent(jj, p.j, p.pad_j);
    let depth = extent(kk, p.k, p.pad_k);
    let a_sp = a_sp_of(p, kk, ii);
    let b_sp = b_sp_of(p, kk, jj);
    let c_sp = sp_at(c_start(p), ii, p.j, jj);
    let pre_sp: u32 = if ii == 0 {
        b_sp
    } else {
        0xFFFF_FFFF
    };
    let out_sp: u32 = if !p.ex_accumulate && kk == 0 {
        c_sp & 0xBFFF_FFFF
    } else {
        c_sp
    };
    cmds.push(
        GemminiCmd::Preload {
            bd_addr: make_operand(depth, cols_j, pre_sp),
            c_addr: make_operand(rows_i, cols_j, out_sp),
        },
    );
    cmds.push(
        GemminiCmd::Compute {
            a_addr: make_operand(rows_i, depth, a_sp),
            bd_addr: make_operand(DIM as u64, DIM as u64, 0xFFFF_FFFF),
            preload: ii == 0,
        },
    );
    assert(cmds@ =~= start + ws_preload_compute(*p, kk, jj, ii));
}

/// Appends the commands of step (`kk`, `jj`, `ii`) of the tiled product.
#[verifier::rlimit(40)]
fn push_ws_step(cmds: &mut Vec<GemminiCmd>, p: &LoopWsParams, kk: u64, jj: u64, ii: u64)
    requires
        ws_ready(*p),
        kk < p.k,
        jj < p.j,
        ii < p.i,
    ensures
        final(cmds)@ == old(cmds)@ + ws_step(*p, kk, jj, ii),
{
    let ghost start = cmds@;
    push_ws_mvin_a(cmds, p, kk, jj, ii);
    push_ws_mvin_b(cmds, p, kk, jj, ii);
    push_ws_preload_compute(cmds, p, kk, jj, ii);
    let ghost before_out = cmds@;
    if p.c != 0 && kk + 1 == p.k {
        let rows_i = extent(ii, p.i, p.pad_i);
        let cols_j = extent(jj, p.j, p.pad_j);
        let c_sp = sp_at(c_start(p), ii, p.j, jj);
        let bytes: u64 = if p.full_c {
            4
        } else {
            1
        };
        cmds.push(
            GemminiCmd::Mvout {
                dram_addr: dram_addr(p.c, p.c_stride, ii, jj, bytes),
                sp_addr: make_operand(rows_i, cols_j, c_sp),
            },
        );
    }
    assert(cmds@ =~= start + ws_step(*p, kk, jj, ii));
}

impl Gemmini {
    /// The commands of a `loop_ws` with flags `rs1` and `rs2` over the
    /// bounds, addresses and strides configured before (see `loop_ws_cmds`);
    /// the accelerator runs them in order.
    #[verifier::rlimit(40)]
    pub fn loop_ws(&self, rs1: u64, rs2: u64) -> (cmds: Vec<GemminiCmd>)
        requires
            loop_ws_pads_fit(loop_ws_params(self.state, rs1, rs2)),
        ensures
            cmds@ == loop_ws_cmds(loop_ws_params(self.state, rs1, rs2)),
    {
        let p = decode_loop_ws(&self.state, rs1, rs2);
        let mut cmds: Vec<GemminiCmd> = Vec::new();
        assert(p.i * p.k <= 0xFFFF * 0xFFFF && p.k * p.j <= 0xFFFF * 0xFFFF && p.i * p.j
            <= 0xFFFF * 0xFFFF) by (nonlinear_arith)
            requires
                p.i <= 0xFFFF,
                p.j <= 0xFFFF,
                p.k <= 0xFFFF,
        ;
        let tiles_ab: u64 = p.i * p.k + p.k * p.j;
        let tiles_c: u64 = p.i * p.j;
        assert(DIM as u64 == 16);
        let too_large = tiles_ab * 16 > 8192 || tiles_c * 16 > 512;
        if too_large {
            return cmds;
        }
        if p.is_resadd {
            let mut ii: u64 = 0;
            while ii < p.i
                invariant
                    ws_ready(p),
                    p.is_resadd,
                    ii <= p.i,
                    cmds@ == resadd_tiles(p, ii as int),
                decreases p.i - ii,
            {
                let mut jj: u64 = 0;
                while jj < p.j
                    invariant
                        ws_ready(p),
                        p.is_resadd,
                        ii < p.i,
                        jj <= p.j,
                        cmds@ == resadd_tiles(p, ii as int) + resadd_row(p, ii, jj as int),
                    decreases p.j - jj,
                {
                    let ghost before = cmds@;
                    push_resadd_step(&mut cmds, &p, ii, jj);
                    assert(cmds@ =~= resadd_tiles(p, ii as int) + resadd_row(p, ii, jj + 1));
                    jj = jj + 1;
                }
                ii = ii + 1;
            }
            return cmds;
        }
        if p.d != 0 {
            let mut ii: u64 = 0;
            while ii < p.i
                invariant
                    ws_ready(p),
                    ii <= p.i,
                    cmds@ == bias_tiles(p, ii as int),
                decreases p.i - ii,
            {
                let mut jj: u64 = 0;
                while jj < p.j
                    invariant
                        ws_ready(p),
                        ii < p.i,
                        jj <= p.j,
                        cmds@ == bias_tiles(p, ii as int) + bias_row(p, ii, jj as int),
                    decreases p.j - jj,
                {
                    push_bias_step(&mut cmds, &p, ii, jj);
                    assert(cmds@ =~= bias_tiles(p, ii as int) + bias_row(p, ii, jj + 1));
                    jj = jj + 1;
                }
                ii = ii + 1;
            }
        }
        let ghost bias = cmds@;
        let mut kk: u64 = 0;
        while kk < p.k
            invariant
                ws_ready(p),
                kk <= p.k,
                cmds@ == bias + ws_steps(p, kk as int),
            decreases p.k - kk,
        {
            let mut jj: u64 = 0;
            while jj < p.j
                invariant
                    ws_ready(p),
                    kk < p.k,
                    jj <= p.j,
                    cmds@ == bias + ws_steps(p, kk as int) + ws_plane(p, kk, jj as int),
                decreases p.j - jj,
            {
                let mut ii: u64 = 0;
                while ii < p.i
                    invariant
                        ws_ready(p),
                        kk < p.k,
                        jj < p.j,
                        ii <= p.i,
                        cmds@ == bias + ws_steps(p, kk as int) + ws_plane(p, kk, jj as int) + ws_row(
                            p,
                            kk,
                            jj,
                            ii as int,
                        ),
                    decreases p.i - ii,
                {
                    push_ws_step(&mut cmds, &p, kk, jj, ii);
                    assert(cmds@ =~= bias + ws_steps(p, kk as int) + ws_plane(p, kk, jj as int) + ws_row(
                        p,
                        kk,
                        jj,
                        ii + 1,
                    ));
                    ii = ii + 1;
                }
                assert(cmds@ =~= bias + ws_steps(p, kk as int) + ws_plane(p, kk, jj + 1));
                jj = jj + 1;
            }
            assert(cmds@ =~= bias + ws_steps(p, kk + 1));
            kk = kk + 1;
        }
        cmds
    }
}

/// The number of compute commands in `cmds`.
pub open spec fn compute_count(cmds: Seq<GemminiCmd>) -> nat
    decreases cmds.len(),
{
    if cmds.len() == 0 {
        0
    } else {
        compute_count(cmds.drop_last()) + if cmds.last() is Compute {
            1nat
        } else {
            0nat
        }
    }
}

/// Counting computes distributes over concatenation.
proof fn lemma_compute_count_concat(a: Seq<GemminiCmd>, b: Seq<GemminiCmd>)
    ensures
        compute_count(a + b) == compute_count(a) + compute_count(b),
    decreases b.len(),
{
    if b.len() == 0 {
        assert(a + b =~= a);
    } else {
        assert((a + b).drop_last() =~= a + b.drop_last());
        lemma_compute_count_concat(a, b.drop_last());
    }
}

/// A sequence of at most one command that is no compute holds no compute.
proof fn lemma_compute_count_no_compute(cmds: Seq<GemminiCmd>)
    requires
        cmds.len() <= 1,
        cmds.len() == 1 ==> !(cmds[0] is Compute),
    ensures
        compute_count(cmds) == 0,
{
    if cmds.len() == 1 {
        assert(cmds.drop_last() =~= Seq::<GemminiCmd>::empty());
        assert(compute_count(cmds.drop_last()) == 0);
        assert(cmds.last() == cmds[0]);
    }
}

/// Each step of the tiled product holds exactly one compute.
proof fn lemma_step_one_compute(p: LoopWsParams, kk: u64, jj: u64, ii: u64)
    ensures
        compute_count(ws_step(p, kk, jj, ii)) == 1,
{
    let ma = ws_mvin_a(p, kk, jj, ii);
    let mb = ws_mvin_b(p, kk, jj, ii);
    let pc = ws_preload_compute(p, kk, jj, ii);
    let mo = if p.c != 0 && kk + 1 == p.k {
        seq![ws_mvout(p, ii, jj, ws_tile_sp(p, ws_c_start(p), ii, jj))]
    } else {
        Seq::empty()
    };
    lemma_compute_count_no_compute(ma);
    lemma_compute_count_no_compute(mb);
    lemma_compute_count_no_compute(mo);
    assert(pc.drop_last().drop_last() =~= Seq::<GemminiCmd>::empty());
    lemma_compute_count_no_compute(pc.drop_last());
    lemma_compute_count_concat(ma, mb);
    lemma_compute_count_concat(ma + mb, pc);
    lemma_compute_count_concat(ma + mb + pc, mo);
}

/// `ws_row(.., n)` holds `n` computes.
proof fn lemma_row_computes(p: LoopWsParams, kk: u64, jj: u64, n: int)
    requires
        n >= 0,
    ensures
        compute_count(ws_row(p, kk, jj, n)) == n,
    decreases n,
{
    if n > 0 {
        lemma_row_computes(p, kk, jj, n - 1);
        lemma_step_one_compute(p, kk, jj, (n - 1) as u64);
        lemma_compute_count_concat(ws_row(p, kk, jj, n - 1), ws_step(p, kk, jj, (n - 1) as u64));
    }
}

/// `ws_plane(.., n)` holds `n * I` computes.
#[verifier::spinoff_prover]
#[verifier::rlimit(30)]
proof fn lemma_plane_computes(p: LoopWsParams, kk: u64, n: int)
    requires
        n >= 0,
    ensures
        compute_count(ws_plane(p, kk, n)) == n * p.i,
    decreases n,
{
    if n > 0 {
        let rest = ws_plane(p, kk, n - 1);
        let row = ws_row(p, kk, (n - 1) as u64, p.i as int);
        assert(ws_plane(p, kk, n) == rest + row);
        lemma_plane_computes(p, kk, n - 1);
        lemma_row_computes(p, kk, (n - 1) as u64, p.i as int);
        lemma_compute_count_concat(rest, row);
        let i: int = p.i as int;
        assert((n - 1) * i + i == n * i) by (nonlinear_arith);
    }
}

/// `ws_steps(.., n)` holds `n * J * I` computes.
#[verifier::spinoff_prover]
#[verifier::rlimit(30)]
proof fn lemma_steps_computes(p: LoopWsParams, n: int)
    requires
        n >= 0,
    ensures
        compute_count(ws_steps(p, n)) == n * (p.j * p.i),
    decreases n,
{
    if n > 0 {
        let rest = ws_steps(p, n - 1);
        let plane = ws_plane(p, (n - 1) as u64, p.j as int);
        assert(ws_steps(p, n) == rest + plane);
        lemma_steps_computes(p, n - 1);
        lemma_plane_computes(p, (n - 1) as u64, p.j as int);
        lemma_compute_count_concat(rest, plane);
        let ji: int = p.j * p.i;
        assert((n - 1) * ji + ji == n * ji) by (nonlinear_arith);
    }
}

/// The bias move-ins hold no compute.
proof fn lemma_bias_no_compute(p: LoopWsParams, n: int)
    ensures
        compute_count(bias_tiles(p, n)) == 0,
    decreases n,
{
    if n > 0 {
        lemma_bias_no_compute(p, n - 1);
        lemma_bias_row_no_compute(p, (n - 1) as u64, p.j as int);
        lemma_compute_count_concat(bias_tiles(p, n - 1), bias_row(p, (n - 1) as u64, p.j as int));
    }
}

/// A row of bias move-ins holds no compute.
proof fn lemma_bias_row_no_compute(p: LoopWsParams, ii: u64, n: int)
    ensures
        compute_count(bias_row(p, ii, n)) == 0,
    decreases n,
{
    if n > 0 {
        lemma_bias_row_no_compute(p, ii, n - 1);
        let row = bias_row(p, ii, n);
        assert(row.drop_last() =~= bias_row(p, ii, n - 1));
    }
}

/// A residual addition holds no compute.
proof fn lemma_resadd_no_compute(p: LoopWsParams, n: int)
    ensures
        compute_count(resadd_tiles(p, n)) == 0,
    decreases n,
{
    if n > 0 {
        lemma_resadd_no_compute(p, n - 1);
        lemma_resadd_row_no_compute(p, (n - 1) as u64, p.j as int);
        lemma_compute_count_concat(resadd_tiles(p, n - 1), resadd_row(p, (n - 1) as u64, p.j as int));
    }
}

/// A row of residual additions holds no compute.
proof fn lemma_resadd_row_no_compute(p: LoopWsParams, ii: u64, n: int)
    ensures
        compute_count(resadd_row(p, ii, n)) == 0,
    decreases n,
{
    if n > 0 {
        let jj = (n - 1) as u64;
        lemma_resadd_row_no_compute(p, ii, n - 1);
        let step = resadd_step(p, ii, jj);
        let two = step.take(2);
        assert(two.drop_last().drop_last() =~= Seq::<GemminiCmd>::empty());
        lemma_compute_count_no_compute(two.drop_last());
        lemma_compute_count_no_compute(step.skip(2));
        assert(step =~= two + step.skip(2));
        lemma_compute_count_concat(two, step.skip(2));
        lemma_compute_count_concat(resadd_row(p, ii, n - 1), step);
    }
}

/// A `loop_ws` whose tiles fit runs the array once per output tile and per
/// depth tile, I * J * K computes in all; a residual addition runs none.
pub proof fn lemma_loop_ws_compute_count(p: LoopWsParams)
    requires
        !loop_ws_too_large(p),
    ensures
        !p.is_resadd ==> compute_count(loop_ws_cmds(p)) == p.i * p.j * p.k,
        p.is_resadd ==> compute_count(loop_ws_cmds(p)) == 0,
{
    if p.is_resadd {
        lemma_resadd_no_compute(p, p.i as int);
    } else {
        let bias = if p.d != 0 {
            bias_tiles(p, p.i as int)
        } else {
            Seq::empty()
        };
        lemma_bias_no_compute(p, p.i as int);
        lemma_steps_computes(p, p.k as int);
        lemma_compute_count_concat(bias, ws_steps(p, p.k as int));
        assert(p.k * (p.j * p.i) == p.i * p.j * p.k) by (nonlinear_arith);
    }
}

/// The address field of an operand register is the address it was built
/// with.
pub proof fn lemma_operand_address(rows: u64, cols: u64, addr: u32)
    ensures
        operand(rows, cols, addr) & 0xFFFF_FFFF == addr as u64,
{
    let a = addr as u64;
    assert(((rows << 48u64) | (cols << 32u64) | a) & 0xFFFF_FFFFu64 == a) by (bit_vector)
        requires
            a <= 0xFFFF_FFFFu64,
    ;
}

/// Each step computes with the tiles the loop moved in: A tile (`ii`,
/// `kk`), moved in at the first output column, is the A operand of every
/// step (`kk`, `jj`, `ii`); B tile (`kk`, `jj`), moved in at the first output
/// row, is what that row preloads; and the output tile the steps write is
/// the one moved out, up to the bit that makes the first K step overwrite
/// rather than accumulate.
pub proof fn lemma_ws_steps_share_tiles(p: LoopWsParams, kk: u64, jj: u64, ii: u64)
    requires
        p.a != 0,
        p.b != 0,
    ensures
        ws_mvin_a(p, kk, 0, ii).len() == 1 && ws_mvin_a(p, kk, 0, ii)[0] is Mvin,
        ws_mvin_b(p, kk, jj, 0).len() == 1 && ws_mvin_b(p, kk, jj, 0)[0] is Mvin,
        ws_preload_compute(p, kk, jj, ii)[1] is Compute,
        ws_preload_compute(p, kk, jj, 0)[0] is Preload,
        ws_preload_compute(p, kk, jj, ii)[0] is Preload,
        ws_mvin_a(p, kk, 0, ii)[0]->Mvin_sp_addr & 0xFFFF_FFFF == ws_preload_compute(p, kk, jj, ii)[1]->Compute_a_addr
            & 0xFFFF_FFFF,
        ws_mvin_b(p, kk, jj, 0)[0]->Mvin_sp_addr & 0xFFFF_FFFF == ws_preload_compute(p, kk, jj, 0)[0]->Preload_bd_addr
            & 0xFFFF_FFFF,
        ws_mvout(p, ii, jj, ws_tile_sp(p, ws_c_start(p), ii, jj)) is Mvout,
        (ws_preload_compute(p, kk, jj, ii)[0]->Preload_c_addr & 0xBFFF_FFFF) == (ws_mvout(
            p,
            ii,
            jj,
            ws_tile_sp(p, ws_c_start(p), ii, jj),
        )->Mvout_sp_addr & 0xBFFF_FFFF),
{
    let rows_i = tile_extent(ii, p.i, p.pad_i);
    let cols_j = tile_extent(jj, p.j, p.pad_j);
    let depth = tile_extent(kk, p.k, p.pad_k);
    let a_sp = ws_a_sp(p, kk, ii);
    let b_sp = ws_b_sp(p, kk, jj);
    lemma_operand_address(rows_i, depth, a_sp);
    lemma_operand_address(tile_extent(kk, p.k, p.pad_k), tile_extent(ii, p.i, p.pad_i), a_sp);
    lemma_operand_address(tile_extent(ii, p.i, p.pad_i), tile_extent(kk, p.k, p.pad_k), a_sp);
    lemma_operand_address(depth, cols_j, b_sp);
    lemma_operand_address(tile_extent(jj, p.j, p.pad_j), tile_extent(kk, p.k, p.pad_k), b_sp);
    lemma_operand_address(tile_extent(kk, p.k, p.pad_k), tile_extent(jj, p.j, p.pad_j), b_sp);
    let c_sp = ws_tile_sp(p, ws_c_start(p), ii, jj);
    let out_sp: u32 = if !p.ex_accumulate && kk == 0 {
        c_sp & 0xBFFF_FFFFu32
    } else {
        c_sp
    };
    lemma_operand_address(rows_i, cols_j, out_sp);
    lemma_operand_address(rows_i, cols_j, c_sp);
    let o = out_sp as u64;
    let c = c_sp as u64;
    let x = ws_preload_compute(p, kk, jj, ii)[0]->Preload_c_addr;
    let y = ws_mvout(p, ii, jj, c_sp)->Mvout_sp_addr;
    assert(x & 0xBFFF_FFFFu64 == y & 0xBFFF_FFFFu64) by (bit_vector)
        requires
            c == c_sp as u64,
            o == out_sp as u64,
            out_sp == c_sp || out_sp == c_sp & 0xBFFF_FFFFu32,
            x & 0xFFFF_FFFFu64 == o,
            y & 0xFFFF_FFFFu64 == c,
    ;
}

/// The address and stride registers of `loop_ws` hold A and B, D and C,
/// in that order: what the configuration writes is what `loop_ws` reads.
pub proof fn lemma_loop_ws_addresses_round_trip(
    s: GemminiState,
    a: u64,
    b: u64,
    c: u64,
    d: u64,
    a_stride: u64,
    b_stride: u64,
    c_stride: u64,
    d_stride: u64,
    rs1: u64,
    rs2: u64,
)
    ensures
        ({
            let st = loop_ws_strides_dc_state(
                loop_ws_strides_ab_state(
                    loop_ws_addrs_dc_state(loop_ws_addrs_ab_state(s, a, b), d, c),
                    a_stride,
                    b_stride,
                ),
                d_stride,
                c_stride,
            );
            let p = loop_ws_params(st, rs1, rs2);
            &&& p.a == a && p.b == b && p.c == c && p.d == d
            &&& p.a_stride == a_stride && p.b_stride == b_stride
            &&& p.c_stride == c_stride && p.d_stride == d_stride
        }),
{
}

/// Distinct output tiles of a product that fits the accumulator are moved
/// through distinct accumulator rows: no tile's result overwrites another's.
pub proof fn lemma_ws_output_tiles_distinct(p: LoopWsParams, ii1: u64, jj1: u64, ii2: u64, jj2: u64)
    requires
        !loop_ws_too_large(p),
        ii1 < p.i && ii2 < p.i,
        jj1 < p.j && jj2 < p.j,
        (ii1, jj1) != (ii2, jj2),
    ensures
        ws_tile_sp(p, ws_c_start(p), ii1, jj1) != ws_tile_sp(p, ws_c_start(p), ii2, jj2),
{
    let nj = p.j as int;
    assert(ii1 * nj + jj1 < p.i * nj && ii2 * nj + jj2 < p.i * nj) by (nonlinear_arith)
        requires
            ii1 < p.i && ii2 < p.i,
            jj1 < nj && jj2 < nj,
    ;
    assert(0 <= ii1 * nj && 0 <= ii2 * nj) by (nonlinear_arith)
        requires
            nj >= 0,
    ;
    if ii1 * nj + jj1 == ii2 * nj + jj2 {
        vstd::arithmetic::div_mod::lemma_fundamental_div_mod_converse(ii1 * nj + jj1, nj, ii1 as int, jj1 as int);
        vstd::arithmetic::div_mod::lemma_fundamental_div_mod_converse(ii1 * nj + jj1, nj, ii2 as int, jj2 as int);
    }
}

} // verus!
