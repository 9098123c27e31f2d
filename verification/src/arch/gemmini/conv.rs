//! Gemmini's `loop_conv_ws`: a tiled convolution unrolled into the commands
//! the accelerator runs in order: bias move-ins, input move-ins, weight
//! move-ins, preloads and computes, then move-outs, pooled or not.
//!
//! Offsets and DRAM addresses are taken modulo 2^64 and scratchpad
//! addresses modulo 2^32, as the registers hold them.
use vstd::prelude::*;
use crate::arch::gemmini::gemmini::{lemma_field_ranges, Gemmini, GemminiState, DIM, MVIN_SCALE_IDENTITY_BITS};
use crate::arch::gemmini::loops::{lemma_operand_address, make_operand, operand, GemminiCmd};

verus! {

/// `a + b` modulo 2^64.
pub open spec fn a64(a: u64, b: u64) -> u64 {
    a.wrapping_add(b)
}

/// `a * b` modulo 2^64.
pub open spec fn m64(a: u64, b: u64) -> u64 {
    a.wrapping_mul(b)
}

/// The smaller of `a` and `b`.
pub open spec fn min_int(a: int, b: int) -> int {
    if a < b {
        a
    } else {
        b
    }
}

/// The parameters of a `loop_conv_ws`, decoded from the state and the
/// operands.
#[derive(Clone, Copy)]
pub struct ConvParams {
    pub batch_size: u64,
    pub in_col_dim: u64,
    pub in_row_dim: u64,
    pub in_channels: u64,
    pub out_channels: u64,
    pub in_stride: u64,
    pub out_stride: u64,
    pub weight_stride: u64,
    pub out_col_dim: u64,
    pub pool_out_col_dim: u64,
    pub out_row_dim: u64,
    pub pool_out_row_dim: u64,
    pub stride: u64,
    pub kernel_dim: u64,
    pub kernel_dilation: u64,
    pub pool_size: u64,
    pub pool_stride: u64,
    pub batches: u64,
    pub porows: u64,
    pub pocols: u64,
    pub pochs: u64,
    pub krows: u64,
    pub kcols: u64,
    pub kchs: u64,
    pub lpad: u64,
    pub rpad: u64,
    pub upad: u64,
    pub dpad: u64,
    pub plpad: u64,
    pub pupad: u64,
    pub orows: u64,
    pub ocols: u64,
    pub weights: u64,
    pub output: u64,
    pub bias: u64,
    pub input: u64,
    pub no_bias: bool,
    pub wrot180: bool,
    pub trans_output_1203: bool,
    pub trans_weight_1203: bool,
    pub trans_weight_0132: bool,
    pub trans_input_3120: bool,
    pub dw: bool,
    pub no_pool: bool,
    pub downsample: bool,
    pub input_dilated: bool,
    pub max_pixels_per_row: u64,
    pub activation: u64,
    pub a_spad_id: u64,
    pub b_spad_id: u64,
    /// Bit pattern of the accumulator scale in force.
    pub acc_scale: u32,
}

/// Decodes the parameters of `loop_conv_ws`.
pub open spec fn conv_params(s: GemminiState, rs1: u64, rs2: u64) -> ConvParams {
    ConvParams {
        batch_size: s.loop_conv_ws_batch_size as u64,
        in_col_dim: s.loop_conv_ws_in_col_dim as u64,
        in_row_dim: s.loop_conv_ws_in_row_dim as u64,
        in_channels: s.loop_conv_ws_in_channels as u64,
        out_channels: s.loop_conv_ws_out_channels as u64,
        in_stride: s.loop_conv_ws_in_stride as u64,
        out_stride: s.loop_conv_ws_out_stride as u64,
        weight_stride: s.loop_conv_ws_weight_stride as u64,
        out_col_dim: s.loop_conv_ws_out_col_dim as u64,
        pool_out_col_dim: s.loop_conv_ws_pool_out_col_dim as u64,
        out_row_dim: s.loop_conv_ws_out_row_dim as u64,
        pool_out_row_dim: s.loop_conv_ws_pool_out_row_dim as u64,
        stride: s.loop_conv_ws_stride as u64,
        kernel_dim: s.loop_conv_ws_kernel_dim as u64,
        kernel_dilation: s.loop_conv_ws_kernel_dilation as u64,
        pool_size: s.loop_conv_ws_pool_size as u64,
        pool_stride: s.loop_conv_ws_pool_stride as u64,
        batches: s.loop_conv_ws_batches as u64,
        porows: s.loop_conv_ws_porows as u64,
        pocols: s.loop_conv_ws_pocols as u64,
        pochs: s.loop_conv_ws_pochs as u64,
        krows: s.loop_conv_ws_krows as u64,
        kcols: s.loop_conv_ws_kcols as u64,
        kchs: s.loop_conv_ws_kchs as u64,
        lpad: s.loop_conv_ws_lpad as u64,
        rpad: s.loop_conv_ws_rpad as u64,
        upad: s.loop_conv_ws_upad as u64,
        dpad: s.loop_conv_ws_dpad as u64,
        plpad: s.loop_conv_ws_plpad as u64,
        pupad: s.loop_conv_ws_pupad as u64,
        orows: s.loop_conv_ws_orows as u64,
        ocols: s.loop_conv_ws_ocols as u64,
        weights: s.loop_conv_ws_weights,
        output: s.loop_conv_ws_output,
        bias: s.loop_conv_ws_bias,
        input: s.loop_conv_ws_input,
        no_bias: rs1 & 1 != 0,
        wrot180: (rs1 >> 1) & 1 != 0,
        trans_output_1203: (rs1 >> 2) & 1 != 0,
        trans_weight_1203: (rs1 >> 3) & 1 != 0,
        trans_weight_0132: (rs1 >> 4) & 1 != 0,
        trans_input_3120: (rs1 >> 5) & 1 != 0,
        dw: (rs1 >> 6) & 1 != 0,
        no_pool: rs2 & 1 != 0,
        downsample: (rs2 >> 1) & 1 != 0,
        input_dilated: (rs2 >> 2) & 1 != 0,
        max_pixels_per_row: if (rs1 >> 8) & 0xFF == 0 {
            1
        } else {
            (rs1 >> 8) & 0xFF
        },
        activation: (rs2 >> 3) & 3,
        a_spad_id: (rs1 >> 18) & 3,
        b_spad_id: (rs1 >> 16) & 3,
        acc_scale: s.acc_shift,
    }
}

/// The decoded fields are in their registers' ranges.
pub open spec fn conv_bounded(p: ConvParams) -> bool {
    &&& p.batch_size <= 0xFFFF && p.in_col_dim <= 0xFFFF && p.in_row_dim <= 0xFFFF
    &&& p.in_channels <= 0xFFFF && p.out_channels <= 0xFFFF && p.in_stride <= 0xFFFF
    &&& p.out_stride <= 0xFFFF && p.weight_stride <= 0xFFFF && p.out_col_dim <= 0xFFFF
    &&& p.pool_out_col_dim <= 0xFFFF && p.out_row_dim <= 0xFFFF && p.pool_out_row_dim <= 0xFFFF
    &&& p.stride <= 0xFFFF && p.kernel_dim <= 0xFFFF && p.kernel_dilation <= 0xFFFF
    &&& p.pool_size <= 0xFFFF && p.pool_stride <= 0xFFFF && p.batches <= 0xFFFF
    &&& p.porows <= 0xFFFF && p.pocols <= 0xFFFF && p.pochs <= 0xFFFF
    &&& p.krows <= 0xFFFF && p.kcols <= 0xFFFF && p.kchs <= 0xFFFF
    &&& p.lpad <= 0xFFFF && p.rpad <= 0xFFFF && p.upad <= 0xFFFF && p.dpad <= 0xFFFF
    &&& p.plpad <= 0xFFFF && p.pupad <= 0xFFFF && p.orows <= 0xFFFF && p.ocols <= 0xFFFF
    &&& 1 <= p.max_pixels_per_row <= 0xFF
    &&& p.activation <= 3 && p.a_spad_id <= 3 && p.b_spad_id <= 3
}

/// `x` in the undilated input's coordinates: halved, rounding up, for a
/// dilated input.
pub open spec fn undil(p: ConvParams, x: int) -> int {
    if p.input_dilated {
        (x + 1) / 2
    } else {
        x
    }
}

/// `x` downsampled: halved for a downsampling convolution.
pub open spec fn ds(p: ConvParams, x: int) -> int {
    if p.downsample {
        x / 2
    } else {
        x
    }
}

/// `x` upsampled: doubled for a downsampling convolution.
pub open spec fn us(p: ConvParams, x: int) -> int {
    if p.downsample {
        x * 2
    } else {
        x
    }
}

/// Rows the dilated kernel spans.
pub open spec fn dilated_krows(p: ConvParams) -> int {
    p.krows + (p.kernel_dilation - 1) * (p.krows - 1)
}

/// Columns the dilated kernel spans.
pub open spec fn dilated_kcols(p: ConvParams) -> int {
    p.kcols + (p.kernel_dilation - 1) * (p.kcols - 1)
}

/// Input rows, padding included, before undilation.
pub open spec fn irows_full(p: ConvParams) -> int {
    p.orows * p.stride + dilated_krows(p) - 1
}

/// Input columns, padding included, before undilation.
pub open spec fn icols_full(p: ConvParams) -> int {
    p.ocols * p.stride + dilated_kcols(p) - 1
}

/// Input rows without padding.
pub open spec fn irows_unpadded(p: ConvParams) -> int {
    if p.input_dilated {
        (irows_full(p) - p.upad - p.dpad + 1) / 2
    } else {
        irows_full(p) - p.upad - p.dpad
    }
}

/// Input columns without padding.
pub open spec fn icols_unpadded(p: ConvParams) -> int {
    if p.input_dilated {
        (icols_full(p) - p.lpad - p.rpad + 1) / 2
    } else {
        icols_full(p) - p.lpad - p.rpad
    }
}

/// Input rows as the scratchpad holds them.
pub open spec fn irows(p: ConvParams) -> int {
    if p.input_dilated {
        irows_unpadded(p) + undil(p, p.upad as int) + undil(p, p.dpad as int)
    } else {
        irows_full(p)
    }
}

/// Input columns as the scratchpad holds them.
pub open spec fn icols(p: ConvParams) -> int {
    if p.input_dilated {
        icols_unpadded(p) + undil(p, p.lpad as int) + undil(p, p.rpad as int)
    } else {
        icols_full(p)
    }
}

/// The geometry is that of a convolution: a kernel and a dilation of at
/// least one, an input extent within 16 bits, an unpadded input of
/// non-negative size wherever it is read (an input is loaded, or the input
/// is dilated and the extents come from it), and a positive step wherever a
/// loop steps by a channel or batch count.
pub open spec fn conv_ok(p: ConvParams) -> bool {
    &&& conv_bounded(p)
    &&& p.krows >= 1 && p.kcols >= 1 && p.kernel_dilation >= 1
    &&& irows_full(p) <= 0xFFFF && icols_full(p) <= 0xFFFF
    &&& (p.input != 0 || p.input_dilated) ==> irows_full(p) >= p.upad + p.dpad
    &&& (p.input != 0 || p.input_dilated) ==> icols_full(p) >= p.lpad + p.rpad
    &&& (p.bias != 0 && p.batches > 0 && p.orows > 0 && p.ocols > 0) ==> p.pochs > 0
    &&& (p.input != 0 && p.trans_input_3120) ==> p.batches > 0
    &&& (p.input != 0 && !p.trans_input_3120 && p.batches > 0) ==> p.kchs > 0
    &&& (p.weights != 0 && !p.trans_weight_0132) ==> p.pochs > 0
    &&& (p.weights != 0 && p.trans_weight_0132 && p.pochs > 0) ==> p.kchs > 0
}

/// `n` rounded up to whole tiles, in tiles.
pub open spec fn tiles_of(n: u64) -> u64 {
    (n / 16 + if n % 16 != 0 {
        1u64
    } else {
        0u64
    }) as u64
}

/// Scratchpad rows the weights take.
pub open spec fn conv_b_rows(p: ConvParams) -> u64 {
    if p.trans_weight_0132 {
        m64(m64(m64(tiles_of(p.kchs), p.kcols), p.krows), p.pochs)
    } else {
        m64(m64(m64(tiles_of(p.pochs), p.kcols), p.krows), p.kchs)
    }
}

/// Where the input starts in the scratchpad.
pub open spec fn conv_a_start(p: ConvParams) -> u32 {
    if p.a_spad_id == 2 {
        8192u32
    } else {
        0u32
    }
}

/// Where the weights start in the scratchpad.
pub open spec fn conv_b_start(p: ConvParams) -> u32 {
    (if p.b_spad_id == 2 {
        16384u64
    } else {
        8192u64
    }).wrapping_sub(conv_b_rows(p)) as u32
}

/// `start + offset` as a 32-bit scratchpad address.
pub open spec fn sp_plus(start: u32, offset: u64) -> u32 {
    start.wrapping_add(offset as u32)
}

/// The offset of output pixel (`b`, `orow`, `ocol`) of channel block
/// `och / DIM` in the accumulator.
pub open spec fn out_offset(p: ConvParams, och: u64, b: u64, orow: u64, ocol: u64) -> u64 {
    a64(
        a64(
            a64(m64(m64(m64(och / 16, p.batches), p.orows), p.ocols), m64(m64(b, p.orows), p.ocols)),
            m64(orow, p.ocols),
        ),
        ocol,
    )
}


/// Below 2^64, the wrapping product and sum are the exact ones.
proof fn lemma_exact_u64(x: u64, y: u64)
    ensures
        x * y <= u64::MAX ==> m64(x, y) == x * y,
        x + y <= u64::MAX ==> a64(x, y) == x + y,
{
    if x * y <= u64::MAX {
        vstd::arithmetic::div_mod::lemma_small_mod((x * y) as nat, 0x1_0000_0000_0000_0000nat);
    }
}

/// A number written in the mixed radix (`rows`, `cols`) has one set of
/// digits.
proof fn lemma_mixed_radix(b1: int, r1: int, c1: int, b2: int, r2: int, c2: int, rows: int, cols: int)
    requires
        0 <= b1 && 0 <= b2,
        0 <= r1 < rows && 0 <= r2 < rows,
        0 <= c1 < cols && 0 <= c2 < cols,
        b1 * (rows * cols) + r1 * cols + c1 == b2 * (rows * cols) + r2 * cols + c2,
    ensures
        b1 == b2 && r1 == r2 && c1 == c2,
{
    assert(r1 * cols + c1 < rows * cols && r2 * cols + c2 < rows * cols) by (nonlinear_arith)
        requires
            0 <= r1 < rows && 0 <= r2 < rows,
            0 <= c1 < cols && 0 <= c2 < cols,
    ;
    assert(0 <= r1 * cols && 0 <= r2 * cols) by (nonlinear_arith)
        requires
            0 <= r1 && 0 <= r2 && 0 <= cols,
    ;
    let x = b1 * (rows * cols) + r1 * cols + c1;
    vstd::arithmetic::div_mod::lemma_fundamental_div_mod_converse(x, rows * cols, b1, r1 * cols + c1);
    vstd::arithmetic::div_mod::lemma_fundamental_div_mod_converse(x, rows * cols, b2, r2 * cols + c2);
    let y = r1 * cols + c1;
    vstd::arithmetic::div_mod::lemma_fundamental_div_mod_converse(y, cols, r1, c1);
    vstd::arithmetic::div_mod::lemma_fundamental_div_mod_converse(y, cols, r2, c2);
}

/// The output pixels of one channel block lie in the accumulator block
/// after block, batch after batch, row after row, column after column:
/// pixel (`b`, `orow`, `ocol`) of the block of channel `och` sits at
/// `(och / DIM) * batches * orows * ocols + b * orows * ocols + orow * ocols
/// + ocol`.
pub proof fn lemma_out_offset_layout(p: ConvParams, och: u64, b: u64, orow: u64, ocol: u64)
    requires
        conv_bounded(p),
        och <= 0xFFFF,
        b < p.batches,
        orow < p.orows,
        ocol < p.ocols,
    ensures
        out_offset(p, och, b, orow, ocol) == (och / 16) * p.batches * p.orows * p.ocols + b * p.orows
            * p.ocols + orow * p.ocols + ocol,
{
    let q = och / 16;
    let nb = p.batches;
    let nr = p.orows;
    let nc = p.ocols;
    assert(q * nb <= 0x1_0000_0000 && q * nb * nr <= 0x1_0000_0000_0000 && q * nb * nr * nc
        <= 0x2000_0000_0000_0000int && b * nr <= 0x1_0000_0000 && b * nr * nc <= 0x1_0000_0000_0000
        && orow * nc <= 0x1_0000_0000) by (nonlinear_arith)
        requires
            q <= 0xFFF && nb <= 0xFFFF && nr <= 0xFFFF && nc <= 0xFFFF && b <= 0xFFFF && orow <= 0xFFFF,
    ;
    lemma_exact_u64(q, nb);
    lemma_exact_u64(m64(q, nb), nr);
    lemma_exact_u64(m64(m64(q, nb), nr), nc);
    lemma_exact_u64(b, nr);
    lemma_exact_u64(m64(b, nr), nc);
    lemma_exact_u64(orow, nc);
    let t = m64(m64(m64(q, nb), nr), nc);
    let u = m64(m64(b, nr), nc);
    lemma_exact_u64(t, u);
    lemma_exact_u64(a64(t, u), m64(orow, nc));
    lemma_exact_u64(a64(a64(t, u), m64(orow, nc)), ocol);
}

/// Within a channel block, distinct output pixels have distinct
/// accumulator rows: no pixel's result overwrites another's.
pub proof fn lemma_out_offset_distinct(
    p: ConvParams,
    och: u64,
    b1: u64,
    orow1: u64,
    ocol1: u64,
    b2: u64,
    orow2: u64,
    ocol2: u64,
)
    requires
        conv_bounded(p),
        och <= 0xFFFF,
        b1 < p.batches && b2 < p.batches,
        orow1 < p.orows && orow2 < p.orows,
        ocol1 < p.ocols && ocol2 < p.ocols,
        (b1, orow1, ocol1) != (b2, orow2, ocol2),
    ensures
        out_offset(p, och, b1, orow1, ocol1) != out_offset(p, och, b2, orow2, ocol2),
{
    lemma_out_offset_layout(p, och, b1, orow1, ocol1);
    lemma_out_offset_layout(p, och, b2, orow2, ocol2);
    let nr = p.orows as int;
    let nc = p.ocols as int;
    assert(b1 * nr * nc == b1 * (nr * nc) && b2 * nr * nc == b2 * (nr * nc)) by (nonlinear_arith);
    if out_offset(p, och, b1, orow1, ocol1) == out_offset(p, och, b2, orow2, ocol2) {
        lemma_mixed_radix(b1 as int, orow1 as int, ocol1 as int, b2 as int, orow2 as int, ocol2 as int, nr, nc);
    }
}

/// Output pixel (`b`, `orow`, `ocol`) of the block of channel `och` is
/// computed, at every kernel position and input channel block, into the
/// accumulator row that its move-out reads, and its bias is moved into that
/// same row (the bias writes where the computes accumulate: the row's
/// address less the accumulate bit, 2^30).
pub proof fn lemma_pixel_row_shared(
    p: ConvParams,
    och: int,
    krow: int,
    kcol: int,
    kch: int,
    b: int,
    orow: int,
    ocol: int,
    first: bool,
)
    ensures
        c_step(p, och, krow, kcol, kch, b, orow, ocol, first)[0] is Preload,
        o_mvout(p, b, orow, ocol, och) is Mvout,
        bias_mvin(p, b, orow, ocol, och) is Mvin,
        c_step(p, och, krow, kcol, kch, b, orow, ocol, first)[0]->Preload_c_addr & 0xFFFF_FFFF == o_mvout(
            p,
            b,
            orow,
            ocol,
            och,
        )->Mvout_sp_addr & 0xFFFF_FFFF,
        ((bias_mvin(p, b, orow, ocol, och)->Mvin_sp_addr & 0xFFFF_FFFF) as u32).wrapping_add(0x4000_0000)
            == (o_mvout(p, b, orow, ocol, och)->Mvout_sp_addr & 0xFFFF_FFFF) as u32,
{
    let off = out_offset(p, och as u64, b as u64, orow as u64, ocol as u64);
    let c = c_step(p, och, krow, kcol, kch, b, orow, ocol, first)[0];
    let i = if p.trans_input_3120 {
        min_int(p.batches - b, 16)
    } else {
        undil(p, min_int(p.ocols - ocol, if p.input_dilated { 32 } else { 16 }))
    };
    let j = min_int(p.pochs - och, 16);
    lemma_operand_address(i as u64, j as u64, sp_plus(0xC000_0000u32, off));
    lemma_operand_address(
        min_int(p.ocols - ocol, 16) as u64,
        min_int(p.pochs - och, 16) as u64,
        sp_plus(0xC000_0000u32, off),
    );
    lemma_operand_address(
        min_int(p.ocols - ocol, 16) as u64,
        min_int(p.pochs - och, bias_chunk(p)) as u64,
        sp_plus(0x8000_0000u32, off),
    );
}

/// A DRAM address of the shape `base + ((x * y * z + u * z + v) * w + t)`
/// over 16-bit numbers, taken in 64-bit wrapping arithmetic, is the exact
/// one when that does not overflow.
proof fn lemma_grid_address(base: u64, x: u64, y: u64, z: u64, u: u64, v: u64, w: u64, t: u64)
    requires
        x <= 0xFFFF && y <= 0xFFFF && z <= 0xFFFF && u <= 0xFFFF && v <= 0xFFFF && w <= 0xFFFF && t
            <= 0xFFFF,
        base + ((x * y * z + u * z + v) * w + t) <= u64::MAX,
    ensures
        a64(base, a64(m64(a64(a64(m64(m64(x, y), z), m64(u, z)), v), w), t)) == base + ((x * y * z + u
            * z + v) * w + t),
{
    assert(x * y <= 0x1_0000_0000 && x * y * z <= 0x1_0000_0000_0000 && u * z <= 0x1_0000_0000) by (nonlinear_arith)
        requires
            x <= 0xFFFF && y <= 0xFFFF && z <= 0xFFFF && u <= 0xFFFF,
    ;
    lemma_exact_u64(x, y);
    lemma_exact_u64(m64(x, y), z);
    lemma_exact_u64(u, z);
    lemma_exact_u64(m64(m64(x, y), z), m64(u, z));
    let s1 = a64(m64(m64(x, y), z), m64(u, z));
    lemma_exact_u64(s1, v);
    let s2 = a64(s1, v);
    assert(s2 == x * y * z + u * z + v);
    assert(0 <= s2 * w) by (nonlinear_arith)
        requires
            0 <= s2 && 0 <= w,
    ;
    lemma_exact_u64(s2, w);
    lemma_exact_u64(m64(s2, w), t);
    lemma_exact_u64(base, a64(m64(s2, w), t));
}

/// Output pixel (`b`, `orow`, `ocol`), channel `och`, is moved out to
/// `output + ((b * out_row_dim * out_col_dim + orow * out_col_dim + ocol) *
/// out_stride + och)`, one byte per element; with the output stored as
/// rows, columns, batches, channels, to `output + ((orow * out_col_dim *
/// batch_size + ocol * batch_size + b) * out_channels + och)`.
pub proof fn lemma_o_mvout_dram(p: ConvParams, b: int, orow: int, ocol: int, och: int)
    requires
        conv_bounded(p),
        0 <= b < p.batches,
        0 <= orow < p.orows,
        0 <= ocol < p.ocols,
        0 <= och < p.pochs,
        !p.trans_output_1203 ==> p.output + ((b * p.out_row_dim * p.out_col_dim + orow * p.out_col_dim + ocol)
            * p.out_stride + och) <= u64::MAX,
        p.trans_output_1203 ==> p.output + ((orow * p.out_col_dim * p.batch_size + ocol * p.batch_size + b)
            * p.out_channels + och) <= u64::MAX,
    ensures
        o_mvout(p, b, orow, ocol, och) is Mvout,
        !p.trans_output_1203 ==> o_mvout(p, b, orow, ocol, och)->Mvout_dram_addr == p.output + ((b
            * p.out_row_dim * p.out_col_dim + orow * p.out_col_dim + ocol) * p.out_stride + och),
        p.trans_output_1203 ==> o_mvout(p, b, orow, ocol, och)->Mvout_dram_addr == p.output + ((orow
            * p.out_col_dim * p.batch_size + ocol * p.batch_size + b) * p.out_channels + och),
{
    if p.trans_output_1203 {
        lemma_grid_address(p.output, orow as u64, p.out_col_dim, p.batch_size, ocol as u64, b as u64, p.out_channels, och as u64);
    } else {
        lemma_grid_address(p.output, b as u64, p.out_row_dim, p.out_col_dim, orow as u64, ocol as u64, p.out_stride, och as u64);
    }
}

/// The bias of channels from `och` is read from `bias + och * 4` (four
/// bytes per accumulator element), or from address zero when there is no
/// bias.
pub proof fn lemma_bias_mvin_dram(p: ConvParams, b: int, orow: int, ocol: int, och: int)
    requires
        0 <= och <= 0xFFFF,
        p.bias + och * 4 <= u64::MAX,
    ensures
        bias_mvin(p, b, orow, ocol, och) is Mvin,
        p.no_bias ==> bias_mvin(p, b, orow, ocol, och)->Mvin_dram_addr == 0,
        !p.no_bias ==> bias_mvin(p, b, orow, ocol, och)->Mvin_dram_addr == p.bias + och * 4,
{
    lemma_exact_u64(och as u64, 4);
    lemma_exact_u64(p.bias, m64(och as u64, 4));
}

/// Weight (`och`, `krow`, `kcol`, `kch`) is read, one byte per element,
/// from `weights + (krow * kernel_dim + kcol)` for a depthwise convolution;
/// stored as input channel, rows, columns, output channels, from `weights +
/// ((kch * kernel_dim * kernel_dim + krow * kernel_dim + kcol) *
/// out_channels + och)`; stored as rows, columns, output channels, input
/// channels, from `weights + ((krow * kernel_dim * out_channels + kcol *
/// out_channels + och) * in_channels + kch)`; and otherwise from `weights +
/// ((krow * kernel_dim * in_channels + kcol * in_channels + kch) *
/// weight_stride + och)`.
pub proof fn lemma_w_dram(p: ConvParams, och: u64, krow: u64, kcol: u64, kch: u64)
    requires
        conv_bounded(p),
        och <= 0xFFFF && krow <= 0xFFFF && kcol <= 0xFFFF && kch <= 0xFFFF,
        p.dw ==> p.weights + (krow * p.kernel_dim + kcol) <= u64::MAX,
        !p.dw && p.trans_weight_1203 ==> p.weights + ((kch * p.kernel_dim * p.kernel_dim + krow
            * p.kernel_dim + kcol) * p.out_channels + och) <= u64::MAX,
        !p.dw && !p.trans_weight_1203 && p.trans_weight_0132 ==> p.weights + ((krow * p.kernel_dim
            * p.out_channels + kcol * p.out_channels + och) * p.in_channels + kch) <= u64::MAX,
        !p.dw && !p.trans_weight_1203 && !p.trans_weight_0132 ==> p.weights + ((krow * p.kernel_dim
            * p.in_channels + kcol * p.in_channels + kch) * p.weight_stride + och) <= u64::MAX,
    ensures
        p.dw ==> w_dram(p, och, krow, kcol, kch) == p.weights + (krow * p.kernel_dim + kcol),
        !p.dw && p.trans_weight_1203 ==> w_dram(p, och, krow, kcol, kch) == p.weights + ((kch
            * p.kernel_dim * p.kernel_dim + krow * p.kernel_dim + kcol) * p.out_channels + och),
        !p.dw && !p.trans_weight_1203 && p.trans_weight_0132 ==> w_dram(p, och, krow, kcol, kch)
            == p.weights + ((krow * p.kernel_dim * p.out_channels + kcol * p.out_channels + och)
            * p.in_channels + kch),
        !p.dw && !p.trans_weight_1203 && !p.trans_weight_0132 ==> w_dram(p, och, krow, kcol, kch)
            == p.weights + ((krow * p.kernel_dim * p.in_channels + kcol * p.in_channels + kch)
            * p.weight_stride + och),
{
    let kd = p.kernel_dim;
    if p.dw {
        assert(krow * kd <= 0x1_0000_0000) by (nonlinear_arith)
            requires
                krow <= 0xFFFF && kd <= 0xFFFF,
        ;
        lemma_exact_u64(krow, kd);
        lemma_exact_u64(m64(krow, kd), kcol);
        lemma_exact_u64(p.weights, a64(m64(krow, kd), kcol));
    } else if p.trans_weight_1203 {
        lemma_grid_address(p.weights, kch, kd, kd, krow, kcol, p.out_channels, och);
    } else if p.trans_weight_0132 {
        lemma_grid_address(p.weights, krow, kd, p.out_channels, kcol, och, p.in_channels, kch);
    } else {
        lemma_grid_address(p.weights, krow, kd, p.in_channels, kcol, kch, p.weight_stride, och);
    }
}

/// Input pixel (`irow`, `icol`) of batch `b`, channel `ich`, is read, one
/// byte per element, from `input + ((b * in_row_dim * in_col_dim + irow *
/// in_col_dim + icol) * in_stride + ich)`; with the input stored as
/// channels, rows, columns, batches, from `input + ((ich * in_row_dim *
/// in_col_dim + irow * in_col_dim + icol) * batch_size + b)`; a pixel in the
/// padding is read from address zero.
pub proof fn lemma_in_mvin_dram(p: ConvParams, b: int, irow: int, icol: int, ich: int)
    requires
        conv_bounded(p),
        0 <= b < p.batches,
        0 <= ich < p.kchs,
        irow <= 0xFFFF && icol <= 0xFFFF,
        !p.trans_input_3120 ==> p.input + ((b * p.in_row_dim * p.in_col_dim + irow * p.in_col_dim + icol)
            * p.in_stride + ich) <= u64::MAX,
        p.trans_input_3120 ==> p.input + ((ich * p.in_row_dim * p.in_col_dim + irow * p.in_col_dim + icol)
            * p.batch_size + b) <= u64::MAX,
    ensures
        in_mvin(p, b, irow, icol, ich) is Mvin,
        (irow < 0 || irow >= irows_unpadded(p) || icol < 0 || icol >= icols_unpadded(p)) ==> in_mvin(
            p,
            b,
            irow,
            icol,
            ich,
        )->Mvin_dram_addr == 0,
        !(irow < 0 || irow >= irows_unpadded(p) || icol < 0 || icol >= icols_unpadded(p))
            && !p.trans_input_3120 ==> in_mvin(p, b, irow, icol, ich)->Mvin_dram_addr == p.input + ((b
            * p.in_row_dim * p.in_col_dim + irow * p.in_col_dim + icol) * p.in_stride + ich),
        !(irow < 0 || irow >= irows_unpadded(p) || icol < 0 || icol >= icols_unpadded(p))
            && p.trans_input_3120 ==> in_mvin(p, b, irow, icol, ich)->Mvin_dram_addr == p.input + ((ich
            * p.in_row_dim * p.in_col_dim + irow * p.in_col_dim + icol) * p.batch_size + b),
{
    if !(irow < 0 || irow >= irows_unpadded(p) || icol < 0 || icol >= icols_unpadded(p)) {
        if p.trans_input_3120 {
            lemma_grid_address(p.input, ich as u64, p.in_row_dim, p.in_col_dim, irow as u64, icol as u64, p.batch_size, b as u64);
        } else {
            lemma_grid_address(p.input, b as u64, p.in_row_dim, p.in_col_dim, irow as u64, icol as u64, p.in_stride, ich as u64);
        }
    }
}

/// A block offset `q * na * nb * nc + x * nb * nc + y * nc + z` over small
/// numbers, in 64-bit wrapping arithmetic, is the exact one.
proof fn lemma_block_offset(q: u64, na: u64, nb: u64, nc: u64, x: u64, y: u64, z: u64)
    requires
        q <= 0xFFF,
        na <= 0xFFFF && nb <= 0xFFFF && nc <= 0xFFFF && x <= 0xFFFF && y <= 0xFFFF && z <= 0xFFFF,
    ensures
        a64(a64(a64(m64(m64(m64(q, na), nb), nc), m64(m64(x, nb), nc)), m64(y, nc)), z) == q * na * nb * nc
            + x * nb * nc + y * nc + z,
{
    assert(q * na <= 0x1_0000_0000 && q * na * nb <= 0x1_0000_0000_0000 && q * na * nb * nc
        <= 0x2000_0000_0000_0000int && x * nb <= 0x1_0000_0000 && x * nb * nc <= 0x1_0000_0000_0000
        && y * nc <= 0x1_0000_0000) by (nonlinear_arith)
        requires
            q <= 0xFFF && na <= 0xFFFF && nb <= 0xFFFF && nc <= 0xFFFF && x <= 0xFFFF && y <= 0xFFFF,
    ;
    lemma_exact_u64(q, na);
    lemma_exact_u64(m64(q, na), nb);
    lemma_exact_u64(m64(m64(q, na), nb), nc);
    lemma_exact_u64(x, nb);
    lemma_exact_u64(m64(x, nb), nc);
    lemma_exact_u64(y, nc);
    let t = m64(m64(m64(q, na), nb), nc);
    let u = m64(m64(x, nb), nc);
    lemma_exact_u64(t, u);
    lemma_exact_u64(a64(t, u), m64(y, nc));
    lemma_exact_u64(a64(a64(t, u), m64(y, nc)), z);
}

/// The weights lie in the scratchpad block after block of sixteen output
/// channels, then kernel row, kernel column, input channel: weight (`och`,
/// `krow`, `kcol`, `kch`) sits at `(och / DIM) * krows * kcols * kchs + krow
/// * kcols * kchs + kcol * kchs + kch`; stored by input channels
/// (`trans_weight_0132`), at `(kch / DIM) * krows * kcols * ochs + krow *
/// kcols * ochs + kcol * ochs + och`.
pub proof fn lemma_w_offset_layout(p: ConvParams, och: u64, krow: u64, kcol: u64, kch: u64)
    requires
        conv_bounded(p),
        och <= 0xFFFF && krow <= 0xFFFF && kcol <= 0xFFFF && kch <= 0xFFFF,
    ensures
        p.trans_weight_0132 ==> w_offset(p, och, krow, kcol, kch) == (kch / 16) * p.krows * p.kcols * p.pochs
            + krow * p.kcols * p.pochs + kcol * p.pochs + och,
        !p.trans_weight_0132 ==> w_offset(p, och, krow, kcol, kch) == (och / 16) * p.krows * p.kcols
            * p.kchs + krow * p.kcols * p.kchs + kcol * p.kchs + kch,
{
    if p.trans_weight_0132 {
        lemma_block_offset(kch / 16, p.krows, p.kcols, p.pochs, krow, kcol, och);
    } else {
        lemma_block_offset(och / 16, p.krows, p.kcols, p.kchs, krow, kcol, kch);
    }
}

/// Within a block of sixteen output channels, distinct weights (kernel
/// row, kernel column, input channel) have distinct scratchpad rows.
pub proof fn lemma_w_offset_distinct(
    p: ConvParams,
    och: u64,
    krow1: u64,
    kcol1: u64,
    kch1: u64,
    krow2: u64,
    kcol2: u64,
    kch2: u64,
)
    requires
        conv_bounded(p),
        !p.trans_weight_0132,
        och <= 0xFFFF,
        krow1 < p.krows && krow2 < p.krows,
        kcol1 < p.kcols && kcol2 < p.kcols,
        kch1 < p.kchs && kch2 < p.kchs,
        (krow1, kcol1, kch1) != (krow2, kcol2, kch2),
    ensures
        w_offset(p, och, krow1, kcol1, kch1) != w_offset(p, och, krow2, kcol2, kch2),
{
    lemma_w_offset_layout(p, och, krow1, kcol1, kch1);
    lemma_w_offset_layout(p, och, krow2, kcol2, kch2);
    let nb = p.kcols as int;
    let nc = p.kchs as int;
    assert(krow1 * nb * nc == krow1 * (nb * nc) && krow2 * nb * nc == krow2 * (nb * nc)) by (nonlinear_arith);
    if w_offset(p, och, krow1, kcol1, kch1) == w_offset(p, och, krow2, kcol2, kch2) {
        lemma_mixed_radix(krow1 as int, kcol1 as int, kch1 as int, krow2 as int, kcol2 as int, kch2 as int, nb, nc);
    }
}

/// How far `x` is below `end`, as a loop measure.
pub open spec fn left(end: int, x: int) -> int {
    if end > x {
        end - x
    } else {
        0
    }
}

/// The identity scale in the upper half of a load configuration.
pub open spec fn identity_scale_field() -> u64 {
    (MVIN_SCALE_IDENTITY_BITS as u64) << 32
}

// ---- bias ----

/// Output channels one bias move-in covers.
pub open spec fn bias_chunk(p: ConvParams) -> int {
    min_int(p.pochs as int, 16)
}

/// The load configuration for the bias.
pub open spec fn bias_config(p: ConvParams) -> GemminiCmd {
    GemminiCmd::Config {
        rs1: identity_scale_field() | (m64(m64(p.batches, p.orows), p.ocols) << 16) | (1u64 << 8)
            | (2u64 << 3) | 1u64,
        rs2: 0,
    }
}

/// The bias move-in for output pixels from (`b`, `orow`, `ocol`) and
/// channels from `och`.
pub open spec fn bias_mvin(p: ConvParams, b: int, orow: int, ocol: int, och: int) -> GemminiCmd {
    GemminiCmd::Mvin {
        dram_addr: if p.no_bias {
            0
        } else {
            a64(p.bias, m64(och as u64, 4))
        },
        sp_addr: operand(
            min_int(p.ocols - ocol, 16) as u64,
            min_int(p.pochs - och, bias_chunk(p)) as u64,
            sp_plus(0x8000_0000u32, out_offset(p, och as u64, b as u64, orow as u64, ocol as u64)),
        ),
        state_id: 2,
    }
}

/// Bias move-ins over the channels from `och` on.
pub open spec fn bias_ochs(p: ConvParams, b: int, orow: int, ocol: int, och: int) -> Seq<GemminiCmd>
    decreases left(p.pochs as int, och),
{
    if och < p.pochs && bias_chunk(p) >= 1 {
        seq![bias_mvin(p, b, orow, ocol, och)] + bias_ochs(p, b, orow, ocol, och + bias_chunk(p))
    } else {
        Seq::empty()
    }
}

/// Bias move-ins over the output columns from `ocol` on.
pub open spec fn bias_ocols(p: ConvParams, b: int, orow: int, ocol: int) -> Seq<GemminiCmd>
    decreases left(p.ocols as int, ocol),
{
    if ocol < p.ocols {
        bias_ochs(p, b, orow, ocol, 0) + bias_ocols(p, b, orow, ocol + 16)
    } else {
        Seq::empty()
    }
}

/// Bias move-ins over the output rows from `orow` on.
pub open spec fn bias_orows(p: ConvParams, b: int, orow: int) -> Seq<GemminiCmd>
    decreases left(p.orows as int, orow),
{
    if orow < p.orows {
        bias_ocols(p, b, orow, 0) + bias_orows(p, b, orow + 1)
    } else {
        Seq::empty()
    }
}

/// Bias move-ins over the batches from `b` on.
pub open spec fn bias_batches(p: ConvParams, b: int) -> Seq<GemminiCmd>
    decreases left(p.batches as int, b),
{
    if b < p.batches {
        bias_orows(p, b, 0) + bias_batches(p, b + 1)
    } else {
        Seq::empty()
    }
}

/// The bias phase: nothing without a bias address.
pub open spec fn conv_bias_cmds(p: ConvParams) -> Seq<GemminiCmd> {
    if p.bias != 0 {
        seq![bias_config(p)] + bias_batches(p, 0)
    } else {
        Seq::empty()
    }
}

// ---- input ----

/// Channels (or, transposed, batches) one input move-in covers.
pub open spec fn in_max_chs(p: ConvParams) -> int {
    if p.trans_input_3120 {
        min_int(p.batches as int, 64)
    } else {
        min_int(p.kchs as int, 64)
    }
}

/// The scratchpad stride between channel blocks of the input.
pub open spec fn in_spad_stride(p: ConvParams) -> u64 {
    if p.trans_input_3120 {
        m64(m64(p.kchs, ds(p, irows(p)) as u64), ds(p, icols(p)) as u64)
    } else {
        m64(m64(p.batches, ds(p, irows(p)) as u64), ds(p, icols(p)) as u64)
    }
}

/// The load configuration for the input.
pub open spec fn in_config(p: ConvParams) -> GemminiCmd {
    GemminiCmd::Config {
        rs1: identity_scale_field() | (in_spad_stride(p) << 16) | (p.max_pixels_per_row << 8) | 1u64,
        rs2: us(
            p,
            (if p.trans_input_3120 {
                p.batch_size
            } else {
                p.in_stride
            }) as int,
        ) as u64,
    }
}

/// The step over batches of the input move-ins.
pub open spec fn in_b_it(p: ConvParams) -> int {
    if p.trans_input_3120 {
        in_max_chs(p)
    } else {
        1
    }
}

/// The step over channels of the input move-ins.
pub open spec fn in_ich_it(p: ConvParams) -> int {
    if p.trans_input_3120 {
        1
    } else {
        in_max_chs(p)
    }
}

/// Input columns one move-in at column `icol` covers: up to the edge of
/// the unpadded input, or of the padding on either side.
pub open spec fn in_width(p: ConvParams, icol: int) -> int {
    let icu = icols_unpadded(p);
    if 0 <= icol < icu {
        min_int(icu - icol, us(p, 16))
    } else if icol < 0 {
        min_int(-icol, 16)
    } else {
        min_int(icu + undil(p, p.rpad as int) - icol, 16)
    }
}

/// The input move-in at (`b`, `irow`, `icol`) and channel `ich`.
pub open spec fn in_mvin(p: ConvParams, b: int, irow: int, icol: int, ich: int) -> GemminiCmd {
    let k = if p.trans_input_3120 {
        min_int(p.batches - b, in_max_chs(p))
    } else {
        min_int(p.kchs - ich, in_max_chs(p))
    };
    let ir = ds(p, irows(p)) as u64;
    let ic = ds(p, icols(p)) as u64;
    let irp = ds(p, irow + undil(p, p.upad as int)) as u64;
    let icp = ds(p, icol + undil(p, p.lpad as int)) as u64;
    let offset = if p.trans_input_3120 {
        a64(a64(a64(m64((b / 16) as u64, in_spad_stride(p)), m64(m64(ich as u64, ir), ic)), m64(irp, ic)), icp)
    } else {
        a64(a64(a64(m64((ich / 16) as u64, in_spad_stride(p)), m64(m64(b as u64, ir), ic)), m64(irp, ic)), icp)
    };
    let is_zeros = irow < 0 || irow >= irows_unpadded(p) || icol < 0 || icol >= icols_unpadded(p);
    let dram = if is_zeros {
        0
    } else if p.trans_input_3120 {
        a64(
            p.input,
            a64(
                m64(
                    a64(a64(m64(m64(ich as u64, p.in_row_dim), p.in_col_dim), m64(irow as u64, p.in_col_dim)), icol as u64),
                    p.batch_size,
                ),
                b as u64,
            ),
        )
    } else {
        a64(
            p.input,
            a64(
                m64(
                    a64(a64(m64(m64(b as u64, p.in_row_dim), p.in_col_dim), m64(irow as u64, p.in_col_dim)), icol as u64),
                    p.in_stride,
                ),
                ich as u64,
            ),
        )
    };
    GemminiCmd::Mvin {
        dram_addr: dram,
        sp_addr: operand(ds(p, in_width(p, icol)) as u64, k as u64, sp_plus(conv_a_start(p), offset)),
        state_id: 0,
    }
}

/// Input move-ins over the channels from `ich` on.
pub open spec fn in_ichs(p: ConvParams, b: int, irow: int, icol: int, ich: int) -> Seq<GemminiCmd>
    decreases left(p.kchs as int, ich),
{
    if ich < p.kchs && in_ich_it(p) >= 1 {
        seq![in_mvin(p, b, irow, icol, ich)] + in_ichs(p, b, irow, icol, ich + in_ich_it(p))
    } else {
        Seq::empty()
    }
}

/// Input move-ins over the columns from `icol` on, padding included.
pub open spec fn in_icols(p: ConvParams, b: int, irow: int, icol: int) -> Seq<GemminiCmd>
    decreases left(icols_unpadded(p) + undil(p, p.rpad as int), icol),
{
    if icol < icols_unpadded(p) + undil(p, p.rpad as int) && in_width(p, icol) >= 1 {
        in_ichs(p, b, irow, icol, 0) + in_icols(p, b, irow, icol + in_width(p, icol))
    } else {
        Seq::empty()
    }
}

/// Input move-ins over the rows from `irow` on, padding included.
pub open spec fn in_irows(p: ConvParams, b: int, irow: int) -> Seq<GemminiCmd>
    decreases left(irows_unpadded(p) + undil(p, p.dpad as int), irow),
{
    if irow < irows_unpadded(p) + undil(p, p.dpad as int) {
        in_icols(p, b, irow, -undil(p, p.lpad as int)) + in_irows(p, b, irow + us(p, 1))
    } else {
        Seq::empty()
    }
}

/// Input move-ins over the batches from `b` on.
pub open spec fn in_batches(p: ConvParams, b: int) -> Seq<GemminiCmd>
    decreases left(p.batches as int, b),
{
    if b < p.batches && in_b_it(p) >= 1 {
        in_irows(p, b, -undil(p, p.upad as int)) + in_batches(p, b + in_b_it(p))
    } else {
        Seq::empty()
    }
}

/// The input phase: nothing without an input address.
pub open spec fn conv_input_cmds(p: ConvParams) -> Seq<GemminiCmd> {
    if p.input != 0 {
        seq![in_config(p)] + in_batches(p, 0)
    } else {
        Seq::empty()
    }
}

// ---- weights ----

/// Channels one weight move-in covers.
pub open spec fn w_max_chs(p: ConvParams) -> int {
    if p.trans_weight_0132 {
        min_int(p.kchs as int, 64)
    } else {
        min_int(p.pochs as int, 64)
    }
}

/// The DRAM stride between weight rows.
pub open spec fn w_dram_stride(p: ConvParams) -> u64 {
    if p.dw {
        1
    } else if p.trans_weight_1203 {
        m64(m64(p.kernel_dim, p.kernel_dim), p.out_channels)
    } else if p.trans_weight_0132 {
        p.in_channels
    } else {
        p.weight_stride
    }
}

/// The scratchpad stride between channel blocks of the weights.
pub open spec fn w_block_stride(p: ConvParams) -> u64 {
    if p.trans_weight_0132 {
        m64(m64(p.krows, p.kcols), p.pochs)
    } else {
        m64(m64(p.krows, p.kcols), p.kchs)
    }
}

/// The load configuration for the weights.
pub open spec fn w_config(p: ConvParams) -> GemminiCmd {
    GemminiCmd::Config {
        rs1: identity_scale_field() | (w_block_stride(p) << 16) | (1u64 << 8) | (1u64 << 3) | 1u64,
        rs2: w_dram_stride(p),
    }
}

/// The step over output channels of the weight move-ins.
pub open spec fn w_och_it(p: ConvParams) -> int {
    if p.trans_weight_0132 {
        16
    } else {
        w_max_chs(p)
    }
}

/// The step over input channels of the weight move-ins.
pub open spec fn w_kch_it(p: ConvParams) -> int {
    if p.trans_weight_0132 {
        w_max_chs(p)
    } else {
        16
    }
}

/// The scratchpad offset of weight (`och`, `krow`, `kcol`, `kch`).
pub open spec fn w_offset(p: ConvParams, och: u64, krow: u64, kcol: u64, kch: u64) -> u64 {
    if p.trans_weight_0132 {
        a64(
            a64(a64(m64(m64(m64(kch / 16, p.krows), p.kcols), p.pochs), m64(m64(krow, p.kcols), p.pochs)), m64(kcol, p.pochs)),
            och,
        )
    } else {
        a64(
            a64(a64(m64(m64(m64(och / 16, p.krows), p.kcols), p.kchs), m64(m64(krow, p.kcols), p.kchs)), m64(kcol, p.kchs)),
            kch,
        )
    }
}

/// The DRAM address of weight (`och`, `krow`, `kcol`, `kch`).
pub open spec fn w_dram(p: ConvParams, och: u64, krow: u64, kcol: u64, kch: u64) -> u64 {
    let kd = p.kernel_dim;
    if p.dw {
        a64(p.weights, a64(m64(krow, kd), kcol))
    } else if p.trans_weight_1203 {
        a64(p.weights, a64(m64(a64(a64(m64(m64(kch, kd), kd), m64(krow, kd)), kcol), p.out_channels), och))
    } else if p.trans_weight_0132 {
        a64(p.weights, a64(m64(a64(a64(m64(m64(krow, kd), p.out_channels), m64(kcol, p.out_channels)), och), p.in_channels), kch))
    } else {
        a64(p.weights, a64(m64(a64(a64(m64(m64(krow, kd), p.in_channels), m64(kcol, p.in_channels)), kch), p.weight_stride), och))
    }
}

/// The weight move-in at (`och`, `krow`, `kcol`, `kch`).
pub open spec fn w_mvin(p: ConvParams, och: int, krow: int, kcol: int, kch: int) -> GemminiCmd {
    let rows = if p.trans_weight_0132 {
        min_int(p.pochs - och, 16)
    } else {
        min_int(p.kchs - kch, 16)
    };
    let cols = if p.trans_weight_0132 {
        min_int(p.kchs - kch, w_max_chs(p))
    } else {
        min_int(p.pochs - och, w_max_chs(p))
    };
    GemminiCmd::Mvin {
        dram_addr: w_dram(p, och as u64, krow as u64, kcol as u64, kch as u64),
        sp_addr: operand(
            rows as u64,
            cols as u64,
            sp_plus(conv_b_start(p), w_offset(p, och as u64, krow as u64, kcol as u64, kch as u64)),
        ),
        state_id: 1,
    }
}

/// Weight move-ins over the input channels from `kch` on.
pub open spec fn w_kchs(p: ConvParams, och: int, krow: int, kcol: int, kch: int) -> Seq<GemminiCmd>
    decreases left(p.kchs as int, kch),
{
    if kch < p.kchs && w_kch_it(p) >= 1 {
        seq![w_mvin(p, och, krow, kcol, kch)] + w_kchs(p, och, krow, kcol, kch + w_kch_it(p))
    } else {
        Seq::empty()
    }
}

/// Weight move-ins over the kernel columns from `kcol` on.
pub open spec fn w_kcols(p: ConvParams, och: int, krow: int, kcol: int) -> Seq<GemminiCmd>
    decreases left(p.kcols as int, kcol),
{
    if kcol < p.kcols {
        w_kchs(p, och, krow, kcol, 0) + w_kcols(p, och, krow, kcol + 1)
    } else {
        Seq::empty()
    }
}

/// Weight move-ins over the kernel rows from `krow` on.
pub open spec fn w_krows(p: ConvParams, och: int, krow: int) -> Seq<GemminiCmd>
    decreases left(p.krows as int, krow),
{
    if krow < p.krows {
        w_kcols(p, och, krow, 0) + w_krows(p, och, krow + 1)
    } else {
        Seq::empty()
    }
}

/// Weight move-ins over the output channels from `och` on.
pub open spec fn w_ochs(p: ConvParams, och: int) -> Seq<GemminiCmd>
    decreases left(p.pochs as int, och),
{
    if och < p.pochs && w_och_it(p) >= 1 {
        w_krows(p, och, 0) + w_ochs(p, och + w_och_it(p))
    } else {
        Seq::empty()
    }
}

/// The weight phase: nothing without a weight address.
pub open spec fn conv_weight_cmds(p: ConvParams) -> Seq<GemminiCmd> {
    if p.weights != 0 {
        seq![w_config(p)] + w_ochs(p, 0)
    } else {
        Seq::empty()
    }
}


// ---- compute ----

/// The step over batches of the computes.
pub open spec fn c_b_it(p: ConvParams) -> int {
    if p.trans_input_3120 {
        16
    } else {
        1
    }
}

/// The step over output columns of the computes.
pub open spec fn c_ocol_it(p: ConvParams) -> int {
    if p.trans_input_3120 {
        1
    } else if p.input_dilated {
        32
    } else {
        16
    }
}

/// The execute configuration that a transposed input needs.
pub open spec fn c_config(p: ConvParams) -> GemminiCmd {
    GemminiCmd::Config {
        rs1: (((irows(p) * icols(p)) as u16 as u64) << 16) | (1u64 << 7),
        rs2: ((p.orows * p.ocols) as u16 as u64) << 48,
    }
}

/// A dilated input skips output row `orow` for kernel row `krow` when
/// their input row falls between input pixels.
pub open spec fn skips_row(p: ConvParams, krow: int, orow: int) -> bool {
    p.input_dilated && (krow * p.kernel_dilation + orow - p.upad) % 2 != 0
}

/// A dilated input skips output column `ocol` for kernel column `kcol`
/// when their input column falls between input pixels.
pub open spec fn skips_col(p: ConvParams, kcol: int, ocol: int) -> bool {
    p.input_dilated && (kcol * p.kernel_dilation + ocol - p.lpad) % 2 != 0
}

/// The preload and the compute for kernel position (`krow`, `kcol`),
/// channel blocks `och` and `kch`, and output pixels from (`b`, `orow`,
/// `ocol`); `first` preloads the weights.
pub open spec fn c_step(
    p: ConvParams,
    och: int,
    krow: int,
    kcol: int,
    kch: int,
    b: int,
    orow: int,
    ocol: int,
    first: bool,
) -> Seq<GemminiCmd> {
    let irow = undil(p, orow * p.stride + krow * p.kernel_dilation);
    let icol = undil(p, ocol * p.stride + kcol * p.kernel_dilation);
    let c_sp = sp_plus(0xC000_0000u32, out_offset(p, och as u64, b as u64, orow as u64, ocol as u64));
    let pixels = min_int(p.kcols - kcol, p.max_pixels_per_row as int);
    let i = if p.trans_input_3120 {
        min_int(p.batches - b, 16)
    } else {
        undil(
            p,
            min_int(
                p.ocols - ocol,
                if p.input_dilated {
                    32
                } else {
                    16
                },
            ),
        )
    };
    let j = min_int(p.pochs - och, 16);
    let k = pixels * min_int(p.kchs - kch, 16);
    let ir = ds(p, irows(p)) as u64;
    let ic = ds(p, icols(p)) as u64;
    let a_offset = if p.trans_input_3120 {
        a64(
            a64(a64(m64(m64(m64((b / 16) as u64, p.kchs), ir), ic), m64(m64(kch as u64, ir), ic)), m64(ds(p, irow) as u64, ic)),
            ds(p, icol) as u64,
        )
    } else {
        a64(
            a64(a64(m64(m64(m64((kch / 16) as u64, p.batches), ir), ic), m64(m64(b as u64, ir), ic)), m64(ds(p, irow) as u64, ic)),
            ds(p, icol) as u64,
        )
    };
    let krow_w = if p.wrot180 {
        p.krows - krow - 1
    } else {
        krow
    };
    let kcol_w = if p.wrot180 {
        p.kcols - kcol - 1
    } else {
        kcol
    };
    let b_sp = sp_plus(conv_b_start(p), w_offset(p, och as u64, krow_w as u64, kcol_w as u64, kch as u64));
    let pre_sp = if first {
        b_sp
    } else {
        0xFFFF_FFFFu32
    };
    seq![
        GemminiCmd::Preload { bd_addr: operand(k as u64, j as u64, pre_sp), c_addr: operand(i as u64, j as u64, c_sp) },
        GemminiCmd::Compute {
            a_addr: operand(i as u64, k as u64, sp_plus(conv_a_start(p), a_offset)),
            bd_addr: operand(i as u64, j as u64, 0xFFFF_FFFFu32),
            preload: first,
        },
    ]
}

/// The computes over the output columns from `ocol` on.
pub open spec fn c_ocols(
    p: ConvParams,
    och: int,
    krow: int,
    kcol: int,
    kch: int,
    b: int,
    orow: int,
    ocol: int,
    first: bool,
) -> Seq<GemminiCmd>
    decreases left(p.ocols as int, ocol),
{
    if ocol < p.ocols {
        if skips_col(p, kcol, ocol) {
            c_ocols(p, och, krow, kcol, kch, b, orow, ocol + 1, first)
        } else {
            c_step(p, och, krow, kcol, kch, b, orow, ocol, first) + c_ocols(
                p,
                och,
                krow,
                kcol,
                kch,
                b,
                orow,
                ocol + c_ocol_it(p),
                false,
            )
        }
    } else {
        Seq::empty()
    }
}

/// The computes of output row `orow`.
pub open spec fn c_row(p: ConvParams, och: int, krow: int, kcol: int, kch: int, b: int, orow: int, first: bool) -> Seq<GemminiCmd> {
    if skips_row(p, krow, orow) {
        Seq::empty()
    } else {
        c_ocols(p, och, krow, kcol, kch, b, orow, 0, first)
    }
}

/// The computes over the output rows from `orow` on; the weights are
/// preloaded with the first of the group.
pub open spec fn c_orows(p: ConvParams, och: int, krow: int, kcol: int, kch: int, b: int, orow: int, first: bool) -> Seq<GemminiCmd>
    decreases left(p.orows as int, orow),
{
    if orow < p.orows {
        let r = c_row(p, och, krow, kcol, kch, b, orow, first);
        r + c_orows(p, och, krow, kcol, kch, b, orow + 1, first && r.len() == 0)
    } else {
        Seq::empty()
    }
}

/// The computes over the batches from `b` on.
pub open spec fn c_batches(p: ConvParams, och: int, krow: int, kcol: int, kch: int, b: int, first: bool) -> Seq<GemminiCmd>
    decreases left(p.batches as int, b),
{
    if b < p.batches && c_b_it(p) >= 1 {
        let r = c_orows(p, och, krow, kcol, kch, b, 0, first);
        r + c_batches(p, och, krow, kcol, kch, b + c_b_it(p), first && r.len() == 0)
    } else {
        Seq::empty()
    }
}

/// The computes over the input-channel blocks from `kch` on.
pub open spec fn c_kchs(p: ConvParams, och: int, krow: int, kcol: int, kch: int) -> Seq<GemminiCmd>
    decreases left(p.kchs as int, kch),
{
    if kch < p.kchs {
        c_batches(p, och, krow, kcol, kch, 0, true) + c_kchs(p, och, krow, kcol, kch + 16)
    } else {
        Seq::empty()
    }
}

/// The computes over the kernel columns from `kcol` on.
pub open spec fn c_kcols(p: ConvParams, och: int, krow: int, kcol: int) -> Seq<GemminiCmd>
    decreases left(p.kcols as int, kcol),
{
    if kcol < p.kcols && p.max_pixels_per_row >= 1 {
        c_kchs(p, och, krow, kcol, 0) + c_kcols(p, och, krow, kcol + p.max_pixels_per_row)
    } else {
        Seq::empty()
    }
}

/// The computes over the kernel rows from `krow` on.
pub open spec fn c_krows(p: ConvParams, och: int, krow: int) -> Seq<GemminiCmd>
    decreases left(p.krows as int, krow),
{
    if krow < p.krows {
        c_kcols(p, och, krow, 0) + c_krows(p, och, krow + 1)
    } else {
        Seq::empty()
    }
}

/// The computes over the output-channel blocks from `och` on.
pub open spec fn c_ochs(p: ConvParams, och: int) -> Seq<GemminiCmd>
    decreases left(p.pochs as int, och),
{
    if och < p.pochs {
        c_krows(p, och, 0) + c_ochs(p, och + 16)
    } else {
        Seq::empty()
    }
}

/// The compute phase.
pub open spec fn conv_compute_cmds(p: ConvParams) -> Seq<GemminiCmd> {
    (if p.trans_input_3120 {
        seq![c_config(p)]
    } else {
        Seq::empty()
    }) + c_ochs(p, 0)
}

// ---- move-out ----

/// The move-out of output pixels from (`b`, `orow`, `ocol`) and channels
/// from `och`.
pub open spec fn o_mvout(p: ConvParams, b: int, orow: int, ocol: int, och: int) -> GemminiCmd {
    let dram = if p.trans_output_1203 {
        a64(
            p.output,
            a64(
                m64(
                    a64(a64(m64(m64(orow as u64, p.out_col_dim), p.batch_size), m64(ocol as u64, p.batch_size)), b as u64),
                    p.out_channels,
                ),
                och as u64,
            ),
        )
    } else {
        a64(
            p.output,
            a64(
                m64(
                    a64(a64(m64(m64(b as u64, p.out_row_dim), p.out_col_dim), m64(orow as u64, p.out_col_dim)), ocol as u64),
                    p.out_stride,
                ),
                och as u64,
            ),
        )
    };
    GemminiCmd::Mvout {
        dram_addr: dram,
        sp_addr: operand(
            min_int(p.ocols - ocol, 16) as u64,
            min_int(p.pochs - och, 16) as u64,
            sp_plus(0xC000_0000u32, out_offset(p, och as u64, b as u64, orow as u64, ocol as u64)),
        ),
    }
}

/// Move-outs over the channel blocks from `och` on.
pub open spec fn o_ochs(p: ConvParams, b: int, orow: int, ocol: int, och: int) -> Seq<GemminiCmd>
    decreases left(p.pochs as int, och),
{
    if och < p.pochs {
        seq![o_mvout(p, b, orow, ocol, och)] + o_ochs(p, b, orow, ocol, och + 16)
    } else {
        Seq::empty()
    }
}

/// Move-outs over the output columns from `ocol` on.
pub open spec fn o_ocols(p: ConvParams, b: int, orow: int, ocol: int) -> Seq<GemminiCmd>
    decreases left(p.ocols as int, ocol),
{
    if ocol < p.ocols {
        o_ochs(p, b, orow, ocol, 0) + o_ocols(p, b, orow, ocol + 16)
    } else {
        Seq::empty()
    }
}

/// Move-outs over the output rows from `orow` on.
pub open spec fn o_orows(p: ConvParams, b: int, orow: int) -> Seq<GemminiCmd>
    decreases left(p.orows as int, orow),
{
    if orow < p.orows {
        o_ocols(p, b, orow, 0) + o_orows(p, b, orow + 1)
    } else {
        Seq::empty()
    }
}

/// Move-outs over the batches from `b` on.
pub open spec fn o_batches(p: ConvParams, b: int) -> Seq<GemminiCmd>
    decreases left(p.batches as int, b),
{
    if b < p.batches {
        o_orows(p, b, 0) + o_batches(p, b + 1)
    } else {
        Seq::empty()
    }
}

/// The second operand of the store configurations around pooling.
pub open spec fn pool_rs2(p: ConvParams) -> u64 {
    ((p.acc_scale as u64) << 32) | p.out_stride
}

/// The store configuration that pools.
pub open spec fn pool_config(p: ConvParams) -> GemminiCmd {
    GemminiCmd::Config {
        rs1: (p.ocols << 56) | (p.orows << 48) | (p.pocols << 40) | (p.porows << 32) | (p.pool_out_col_dim << 24)
            | (p.plpad << 10) | (p.pupad << 8) | (p.pool_size << 6) | (p.pool_stride << 4) | (p.activation << 2)
            | 2u64,
        rs2: pool_rs2(p),
    }
}

/// The store configuration that stops pooling.
pub open spec fn unpool_config(p: ConvParams) -> GemminiCmd {
    GemminiCmd::Config { rs1: (p.activation << 2) | 2u64, rs2: pool_rs2(p) }
}

/// The pooled move-out of batch `b` and channels from `poch`.
pub open spec fn po_mvout(p: ConvParams, b: int, poch: int) -> GemminiCmd {
    let channels = if poch + 16 >= p.pochs {
        p.pochs - poch
    } else {
        16
    };
    let c_sp = sp_plus(
        0xC000_0000u32,
        a64(m64(m64(m64((poch / 16) as u64, p.batches), p.orows), p.ocols), m64(m64(b as u64, p.orows), p.ocols)),
    );
    GemminiCmd::Mvout {
        dram_addr: a64(
            p.output,
            a64(m64(m64(m64(b as u64, p.pool_out_row_dim), p.pool_out_col_dim), p.out_stride), poch as u64),
        ),
        sp_addr: operand(0, channels as u64, c_sp),
    }
}

/// Pooled move-outs over the channel blocks from `poch` on.
pub open spec fn po_pochs(p: ConvParams, b: int, poch: int) -> Seq<GemminiCmd>
    decreases left(p.pochs as int, poch),
{
    if poch < p.pochs {
        seq![po_mvout(p, b, poch)] + po_pochs(p, b, poch + 16)
    } else {
        Seq::empty()
    }
}

/// Pooled move-outs over the batches from `b` on.
pub open spec fn po_batches(p: ConvParams, b: int) -> Seq<GemminiCmd>
    decreases left(p.batches as int, b),
{
    if b < p.batches {
        po_pochs(p, b, 0) + po_batches(p, b + 1)
    } else {
        Seq::empty()
    }
}

/// The move-out phase: nothing without an output address; pooled between
/// two store configurations unless pooling is off.
pub open spec fn conv_mvout_cmds(p: ConvParams) -> Seq<GemminiCmd> {
    if p.output != 0 && p.no_pool {
        o_batches(p, 0)
    } else if p.output != 0 {
        seq![pool_config(p)] + po_batches(p, 0) + seq![unpool_config(p)]
    } else {
        Seq::empty()
    }
}

/// The commands a `loop_conv_ws` issues, phase after phase.
pub open spec fn loop_conv_ws_cmds(p: ConvParams) -> Seq<GemminiCmd> {
    conv_bias_cmds(p) + conv_input_cmds(p) + conv_weight_cmds(p) + conv_compute_cmds(p) + conv_mvout_cmds(p)
}


// ---- executable parts ----

/// Products of two 16-bit values fit in 32 bits.
proof fn lemma_mul_u16(a: int, b: int)
    requires
        0 <= a <= 0xFFFF,
        0 <= b <= 0xFFFF,
    ensures
        0 <= a * b <= 0xFFFE_0001,
{
    assert(0 <= a * b <= 0xFFFE_0001) by (nonlinear_arith)
        requires
            0 <= a <= 0xFFFF,
            0 <= b <= 0xFFFF,
    ;
}

/// Decodes the parameters of `loop_conv_ws`.
fn decode_conv(s: &GemminiState, rs1: u64, rs2: u64) -> (p: ConvParams)
    ensures
        p == conv_params(*s, rs1, rs2),
        conv_bounded(p),
{
    proof {
        lemma_field_ranges();
    }
    let mppr = (rs1 >> 8) & 0xFF;
    ConvParams {
        batch_size: s.loop_conv_ws_batch_size as u64,
        in_col_dim: s.loop_conv_ws_in_col_dim as u64,
        in_row_dim: s.loop_conv_ws_in_row_dim as u64,
        in_channels: s.loop_conv_ws_in_channels as u64,
        out_channels: s.loop_conv_ws_out_channels as u64,
        in_stride: s.loop_conv_ws_in_stride as u64,
        out_stride: s.loop_conv_ws_out_stride as u64,
        weight_stride: s.loop_conv_ws_weight_stride as u64,
        out_col_dim: s.loop_conv_ws_out_col_dim as u64,
        pool_out_col_dim: s.loop_conv_ws_pool_out_col_dim as u64,
        out_row_dim: s.loop_conv_ws_out_row_dim as u64,
        pool_out_row_dim: s.loop_conv_ws_pool_out_row_dim as u64,
        stride: s.loop_conv_ws_stride as u64,
        kernel_dim: s.loop_conv_ws_kernel_dim as u64,
        kernel_dilation: s.loop_conv_ws_kernel_dilation as u64,
        pool_size: s.loop_conv_ws_pool_size as u64,
        pool_stride: s.loop_conv_ws_pool_stride as u64,
        batches: s.loop_conv_ws_batches as u64,
        porows: s.loop_conv_ws_porows as u64,
        pocols: s.loop_conv_ws_pocols as u64,
        pochs: s.loop_conv_ws_pochs as u64,
        krows: s.loop_conv_ws_krows as u64,
        kcols: s.loop_conv_ws_kcols as u64,
        kchs: s.loop_conv_ws_kchs as u64,
        lpad: s.loop_conv_ws_lpad as u64,
        rpad: s.loop_conv_ws_rpad as u64,
        upad: s.loop_conv_ws_upad as u64,
        dpad: s.loop_conv_ws_dpad as u64,
        plpad: s.loop_conv_ws_plpad as u64,
        pupad: s.loop_conv_ws_pupad as u64,
        orows: s.loop_conv_ws_orows as u64,
        ocols: s.loop_conv_ws_ocols as u64,
        weights: s.loop_conv_ws_weights,
        output: s.loop_conv_ws_output,
        bias: s.loop_conv_ws_bias,
        input: s.loop_conv_ws_input,
        no_bias: rs1 & 1 != 0,
        wrot180: (rs1 >> 1) & 1 != 0,
        trans_output_1203: (rs1 >> 2) & 1 != 0,
        trans_weight_1203: (rs1 >> 3) & 1 != 0,
        trans_weight_0132: (rs1 >> 4) & 1 != 0,
        trans_input_3120: (rs1 >> 5) & 1 != 0,
        dw: (rs1 >> 6) & 1 != 0,
        no_pool: rs2 & 1 != 0,
        downsample: (rs2 >> 1) & 1 != 0,
        input_dilated: (rs2 >> 2) & 1 != 0,
        max_pixels_per_row: if mppr == 0 {
            1
        } else {
            mppr
        },
        activation: (rs2 >> 3) & 3,
        a_spad_id: (rs1 >> 18) & 3,
        b_spad_id: (rs1 >> 16) & 3,
        acc_scale: s.acc_shift,
    }
}

/// Input rows and columns, padding included, before undilation, as far as
/// they are defined (see `irows_full`).
fn full_extents(p: &ConvParams) -> (r: (u64, u64))
    requires
        conv_bounded(*p),
        p.krows >= 1 && p.kcols >= 1 && p.kernel_dilation >= 1,
    ensures
        r.0 == irows_full(*p),
        r.1 == icols_full(*p),
{
    proof {
        lemma_mul_u16(p.kernel_dilation - 1, p.krows - 1);
        lemma_mul_u16(p.kernel_dilation - 1, p.kcols - 1);
        lemma_mul_u16(p.orows as int, p.stride as int);
        lemma_mul_u16(p.ocols as int, p.stride as int);
    }
    let dk_r = p.krows + (p.kernel_dilation - 1) * (p.krows - 1);
    let dk_c = p.kcols + (p.kernel_dilation - 1) * (p.kcols - 1);
    (p.orows * p.stride + dk_r - 1, p.ocols * p.stride + dk_c - 1)
}

/// Whether the geometry is that of a convolution (see `conv_ok`).
pub fn conv_geometry_ok(p: &ConvParams) -> (ok: bool)
    requires
        conv_bounded(*p),
    ensures
        ok == conv_ok(*p),
{
    if p.krows == 0 || p.kcols == 0 || p.kernel_dilation == 0 {
        return false;
    }
    let (ifr, ifc) = full_extents(p);
    ifr <= 0xFFFF && ifc <= 0xFFFF && (!(p.input != 0 || p.input_dilated) || (ifr >= p.upad + p.dpad
        && ifc >= p.lpad + p.rpad)) && (!(p.bias != 0
        && p.batches > 0 && p.orows > 0 && p.ocols > 0) || p.pochs > 0) && (!(p.input != 0
        && p.trans_input_3120) || p.batches > 0) && (!(p.input != 0 && !p.trans_input_3120 && p.batches
        > 0) || p.kchs > 0) && (!(p.weights != 0 && !p.trans_weight_0132) || p.pochs > 0) && (!(p.weights
        != 0 && p.trans_weight_0132 && p.pochs > 0) || p.kchs > 0)
}

/// The derived input geometry.
#[derive(Clone, Copy)]
struct ConvGeom {
    iru: i64,
    icu: i64,
    irows: u64,
    icols: u64,
    u_upad: i64,
    u_dpad: i64,
    u_lpad: i64,
    u_rpad: i64,
}

/// `g` holds the geometry of `p`.
spec fn geom_of(p: ConvParams, g: ConvGeom) -> bool {
    &&& g.iru == irows_unpadded(p)
    &&& g.icu == icols_unpadded(p)
    &&& g.irows == irows(p)
    &&& g.icols == icols(p)
    &&& g.u_upad == undil(p, p.upad as int)
    &&& g.u_dpad == undil(p, p.dpad as int)
    &&& g.u_lpad == undil(p, p.lpad as int)
    &&& g.u_rpad == undil(p, p.rpad as int)
    &&& -0x2_0000 <= g.iru <= 0xFFFF && -0x2_0000 <= g.icu <= 0xFFFF
    &&& (p.input != 0 || p.input_dilated) ==> 0 <= g.iru && 0 <= g.icu
    &&& g.irows <= 0x3_FFFF && g.icols <= 0x3_FFFF
    &&& 0 <= g.u_upad <= 0xFFFF && 0 <= g.u_dpad <= 0xFFFF
    &&& 0 <= g.u_lpad <= 0xFFFF && 0 <= g.u_rpad <= 0xFFFF
}

/// `undil` of a 16-bit value.
fn undil_exec(p: &ConvParams, x: u64) -> (r: i64)
    requires
        x <= 0xFFFF,
    ensures
        r == undil(*p, x as int),
        0 <= r <= 0xFFFF,
{
    if p.input_dilated {
        ((x + 1) / 2) as i64
    } else {
        x as i64
    }
}

/// Computes the input geometry.
fn geometry(p: &ConvParams) -> (g: ConvGeom)
    requires
        conv_ok(*p),
    ensures
        geom_of(*p, g),
{
    let (ifr, ifc) = full_extents(p);
    let iru: i64 = if p.input_dilated {
        ((ifr - p.upad - p.dpad + 1) / 2) as i64
    } else {
        ifr as i64 - p.upad as i64 - p.dpad as i64
    };
    let icu: i64 = if p.input_dilated {
        ((ifc - p.lpad - p.rpad + 1) / 2) as i64
    } else {
        ifc as i64 - p.lpad as i64 - p.rpad as i64
    };
    let u_upad = undil_exec(p, p.upad);
    let u_dpad = undil_exec(p, p.dpad);
    let u_lpad = undil_exec(p, p.lpad);
    let u_rpad = undil_exec(p, p.rpad);
    let ir: u64 = if p.input_dilated {
        iru as u64 + u_upad as u64 + u_dpad as u64
    } else {
        ifr
    };
    let ic: u64 = if p.input_dilated {
        icu as u64 + u_lpad as u64 + u_rpad as u64
    } else {
        ifc
    };
    ConvGeom {
        iru,
        icu,
        irows: ir,
        icols: ic,
        u_upad,
        u_dpad,
        u_lpad,
        u_rpad,
    }
}

/// `ds` of a value.
fn ds_exec(p: &ConvParams, x: u64) -> (r: u64)
    ensures
        r == ds(*p, x as int),
{
    if p.downsample {
        x / 2
    } else {
        x
    }
}

/// The smaller of `a` and `b`.
fn min_u64(a: u64, b: u64) -> (r: u64)
    ensures
        r == min_int(a as int, b as int),
{
    if a < b {
        a
    } else {
        b
    }
}

/// Computes `sp_plus`.
fn sp_plus_exec(start: u32, offset: u64) -> (r: u32)
    ensures
        r == sp_plus(start, offset),
{
    start.wrapping_add(offset as u32)
}

/// Computes `out_offset`.
fn out_offset_exec(p: &ConvParams, och: u64, b: u64, orow: u64, ocol: u64) -> (r: u64)
    ensures
        r == out_offset(*p, och, b, orow, ocol),
{
    (och / 16).wrapping_mul(p.batches).wrapping_mul(p.orows).wrapping_mul(p.ocols).wrapping_add(
        b.wrapping_mul(p.orows).wrapping_mul(p.ocols),
    ).wrapping_add(orow.wrapping_mul(p.ocols)).wrapping_add(ocol)
}

/// Computes `w_offset`.
fn w_offset_exec(p: &ConvParams, och: u64, krow: u64, kcol: u64, kch: u64) -> (r: u64)
    ensures
        r == w_offset(*p, och, krow, kcol, kch),
{
    if p.trans_weight_0132 {
        (kch / 16).wrapping_mul(p.krows).wrapping_mul(p.kcols).wrapping_mul(p.pochs).wrapping_add(
            krow.wrapping_mul(p.kcols).wrapping_mul(p.pochs),
        ).wrapping_add(kcol.wrapping_mul(p.pochs)).wrapping_add(och)
    } else {
        (och / 16).wrapping_mul(p.krows).wrapping_mul(p.kcols).wrapping_mul(p.kchs).wrapping_add(
            krow.wrapping_mul(p.kcols).wrapping_mul(p.kchs),
        ).wrapping_add(kcol.wrapping_mul(p.kchs)).wrapping_add(kch)
    }
}

/// Computes `conv_b_start`.
fn b_start_exec(p: &ConvParams) -> (r: u32)
    ensures
        r == conv_b_start(*p),
{
    let rows = if p.trans_weight_0132 {
        let t = p.kchs / 16 + if p.kchs % 16 != 0 {
            1u64
        } else {
            0u64
        };
        t.wrapping_mul(p.kcols).wrapping_mul(p.krows).wrapping_mul(p.pochs)
    } else {
        let t = p.pochs / 16 + if p.pochs % 16 != 0 {
            1u64
        } else {
            0u64
        };
        t.wrapping_mul(p.kcols).wrapping_mul(p.krows).wrapping_mul(p.kchs)
    };
    let top: u64 = if p.b_spad_id == 2 {
        16384
    } else {
        8192
    };
    top.wrapping_sub(rows) as u32
}

/// Computes `conv_a_start`.
fn a_start_exec(p: &ConvParams) -> (r: u32)
    ensures
        r == conv_a_start(*p),
{
    if p.a_spad_id == 2 {
        8192
    } else {
        0
    }
}


/// Computes `identity_scale_field`.
fn identity_scale_exec() -> (r: u64)
    ensures
        r == identity_scale_field(),
{
    (MVIN_SCALE_IDENTITY_BITS as u64) << 32
}

/// Appends the bias phase.
fn push_bias_phase(cmds: &mut Vec<GemminiCmd>, p: &ConvParams)
    requires
        conv_ok(*p),
    ensures
        final(cmds)@ == old(cmds)@ + conv_bias_cmds(*p),
{
    if p.bias == 0 {
        assert(old(cmds)@ + conv_bias_cmds(*p) =~= old(cmds)@);
        return;
    }
    let ghost target = cmds@ + conv_bias_cmds(*p);
    cmds.push(
        GemminiCmd::Config {
            rs1: identity_scale_exec() | (p.batches.wrapping_mul(p.orows).wrapping_mul(p.ocols) << 16) | (1u64
                << 8) | (2u64 << 3) | 1u64,
            rs2: 0,
        },
    );
    assert(cmds@ + bias_batches(*p, 0) =~= target);
    let mut b: u64 = 0;
    while b < p.batches
        invariant
            conv_ok(*p),
            p.bias != 0,
            b <= p.batches,
            cmds@ + bias_batches(*p, b as int) == target,
        decreases p.batches - b,
    {
        let ghost before = cmds@;
        let mut orow: u64 = 0;
        while orow < p.orows
            invariant
                conv_ok(*p),
                p.bias != 0,
                b < p.batches,
                orow <= p.orows,
                cmds@ + bias_orows(*p, b as int, orow as int) == before + bias_orows(*p, b as int, 0),
            decreases p.orows - orow,
        {
            let ghost before_row = cmds@;
            let mut ocol: u64 = 0;
            while ocol < p.ocols
                invariant
                    conv_ok(*p),
                    p.bias != 0,
                    b < p.batches,
                    orow < p.orows,
                    ocol <= p.ocols + 16,
                    cmds@ + bias_ocols(*p, b as int, orow as int, ocol as int) == before_row + bias_ocols(
                        *p,
                        b as int,
                        orow as int,
                        0,
                    ),
                decreases left(p.ocols as int, ocol as int),
            {
                let ghost before_col = cmds@;
                let chunk = min_u64(p.pochs, 16);
                let mut och: u64 = 0;
                while och < p.pochs
                    invariant
                        conv_ok(*p),
                        p.bias != 0,
                        b < p.batches,
                        orow < p.orows,
                        ocol < p.ocols,
                        chunk == bias_chunk(*p),
                        chunk >= 1,
                        och <= p.pochs + 16,
                        cmds@ + bias_ochs(*p, b as int, orow as int, ocol as int, och as int) == before_col
                            + bias_ochs(*p, b as int, orow as int, ocol as int, 0),
                    decreases left(p.pochs as int, och as int),
                {
                    let ghost before_och = cmds@;
                    let dram: u64 = if p.no_bias {
                        0
                    } else {
                        p.bias.wrapping_add(och.wrapping_mul(4))
                    };
                    let sp = sp_plus_exec(0x8000_0000, out_offset_exec(p, och, b, orow, ocol));
                    cmds.push(
                        GemminiCmd::Mvin {
                            dram_addr: dram,
                            sp_addr: make_operand(min_u64(p.ocols - ocol, 16), min_u64(p.pochs - och, chunk), sp),
                            state_id: 2,
                        },
                    );
                    assert(cmds@ == before_och.push(bias_mvin(*p, b as int, orow as int, ocol as int, och as int)));
                    assert(bias_ochs(*p, b as int, orow as int, ocol as int, och as int) == seq![
                        bias_mvin(*p, b as int, orow as int, ocol as int, och as int),
                    ] + bias_ochs(*p, b as int, orow as int, ocol as int, och + chunk));
                    assert(cmds@ + bias_ochs(*p, b as int, orow as int, ocol as int, och + chunk) =~= before_och
                        + bias_ochs(*p, b as int, orow as int, ocol as int, och as int));
                    och = och + chunk;
                }
                assert(bias_ocols(*p, b as int, orow as int, ocol as int) == bias_ochs(
                    *p,
                    b as int,
                    orow as int,
                    ocol as int,
                    0,
                ) + bias_ocols(*p, b as int, orow as int, ocol + 16));
                assert(cmds@ + bias_ocols(*p, b as int, orow as int, ocol + 16) =~= before_col + bias_ocols(
                    *p,
                    b as int,
                    orow as int,
                    ocol as int,
                ));
                ocol = ocol + 16;
            }
            assert(bias_orows(*p, b as int, orow as int) == bias_ocols(*p, b as int, orow as int, 0) + bias_orows(
                *p,
                b as int,
                orow + 1,
            ));
            assert(cmds@ + bias_orows(*p, b as int, orow + 1) =~= before_row + bias_orows(
                *p,
                b as int,
                orow as int,
            ));
            orow = orow + 1;
        }
        assert(bias_batches(*p, b as int) == bias_orows(*p, b as int, 0) + bias_batches(*p, b + 1));
        assert(cmds@ + bias_batches(*p, b + 1) =~= before + bias_batches(*p, b as int));
        b = b + 1;
    }
}


/// Computes `in_width`.
fn in_width_exec(p: &ConvParams, g: &ConvGeom, icol: i64) -> (w: i64)
    requires
        geom_of(*p, *g),
        p.input != 0,
        -g.u_lpad <= icol < g.icu + g.u_rpad,
    ensures
        w == in_width(*p, icol as int),
        1 <= w <= 32,
{
    if icol >= 0 && icol < g.icu {
        let d = g.icu - icol;
        let lim: i64 = if p.downsample {
            32
        } else {
            16
        };
        if d < lim {
            d
        } else {
            lim
        }
    } else if icol < 0 {
        if -icol < 16 {
            -icol
        } else {
            16
        }
    } else {
        let d = g.icu + g.u_rpad - icol;
        if d < 16 {
            d
        } else {
            16
        }
    }
}

/// The input move-in at (`b`, `irow`, `icol`) and channel `ich`.
fn in_mvin_exec(p: &ConvParams, g: &ConvGeom, b: u64, irow: i64, icol: i64, ich: u64) -> (c: GemminiCmd)
    requires
        conv_ok(*p),
        geom_of(*p, *g),
        p.input != 0,
        b < p.batches,
        ich < p.kchs,
        -g.u_upad <= irow < g.iru + g.u_dpad,
        -g.u_lpad <= icol < g.icu + g.u_rpad,
    ensures
        c == in_mvin(*p, b as int, irow as int, icol as int, ich as int),
{
    let max_chs: u64 = if p.trans_input_3120 {
        min_u64(p.batches, 64)
    } else {
        min_u64(p.kchs, 64)
    };
    let k: u64 = if p.trans_input_3120 {
        min_u64(p.batches - b, max_chs)
    } else {
        min_u64(p.kchs - ich, max_chs)
    };
    let ir = ds_exec(p, g.irows);
    let ic = ds_exec(p, g.icols);
    let spad_stride: u64 = if p.trans_input_3120 {
        p.kchs.wrapping_mul(ir).wrapping_mul(ic)
    } else {
        p.batches.wrapping_mul(ir).wrapping_mul(ic)
    };
    let irp = ds_exec(p, (irow + g.u_upad) as u64);
    let icp = ds_exec(p, (icol + g.u_lpad) as u64);
    let offset: u64 = if p.trans_input_3120 {
        (b / 16).wrapping_mul(spad_stride).wrapping_add(ich.wrapping_mul(ir).wrapping_mul(ic)).wrapping_add(
            irp.wrapping_mul(ic),
        ).wrapping_add(icp)
    } else {
        (ich / 16).wrapping_mul(spad_stride).wrapping_add(b.wrapping_mul(ir).wrapping_mul(ic)).wrapping_add(
            irp.wrapping_mul(ic),
        ).wrapping_add(icp)
    };
    let is_zeros = irow < 0 || irow >= g.iru || icol < 0 || icol >= g.icu;
    let dram: u64 = if is_zeros {
        0
    } else if p.trans_input_3120 {
        p.input.wrapping_add(
            ich.wrapping_mul(p.in_row_dim).wrapping_mul(p.in_col_dim).wrapping_add(
                (irow as u64).wrapping_mul(p.in_col_dim),
            ).wrapping_add(icol as u64).wrapping_mul(p.batch_size).wrapping_add(b),
        )
    } else {
        p.input.wrapping_add(
            b.wrapping_mul(p.in_row_dim).wrapping_mul(p.in_col_dim).wrapping_add(
                (irow as u64).wrapping_mul(p.in_col_dim),
            ).wrapping_add(icol as u64).wrapping_mul(p.in_stride).wrapping_add(ich),
        )
    };
    let width = in_width_exec(p, g, icol);
    GemminiCmd::Mvin {
        dram_addr: dram,
        sp_addr: make_operand(ds_exec(p, width as u64), k, sp_plus_exec(a_start_exec(p), offset)),
        state_id: 0,
    }
}

/// Appends the input phase.
fn push_input_phase(cmds: &mut Vec<GemminiCmd>, p: &ConvParams, g: &ConvGeom)
    requires
        conv_ok(*p),
        geom_of(*p, *g),
    ensures
        final(cmds)@ == old(cmds)@ + conv_input_cmds(*p),
{
    if p.input == 0 {
        assert(old(cmds)@ + conv_input_cmds(*p) =~= old(cmds)@);
        return;
    }
    let ghost target = cmds@ + conv_input_cmds(*p);
    let max_chs: u64 = if p.trans_input_3120 {
        min_u64(p.batches, 64)
    } else {
        min_u64(p.kchs, 64)
    };
    let ir = ds_exec(p, g.irows);
    let ic = ds_exec(p, g.icols);
    let spad_stride: u64 = if p.trans_input_3120 {
        p.kchs.wrapping_mul(ir).wrapping_mul(ic)
    } else {
        p.batches.wrapping_mul(ir).wrapping_mul(ic)
    };
    let dram_stride: u64 = if p.trans_input_3120 {
        p.batch_size
    } else {
        p.in_stride
    };
    cmds.push(
        GemminiCmd::Config {
            rs1: identity_scale_exec() | (spad_stride << 16) | (p.max_pixels_per_row << 8) | 1u64,
            rs2: if p.downsample {
                dram_stride * 2
            } else {
                dram_stride
            },
        },
    );
    assert(cmds@ + in_batches(*p, 0) =~= target);
    let b_it: u64 = if p.trans_input_3120 {
        max_chs
    } else {
        1
    };
    let ich_it: u64 = if p.trans_input_3120 {
        1
    } else {
        max_chs
    };
    let irow_step: i64 = if p.downsample {
        2
    } else {
        1
    };
    let mut b: u64 = 0;
    while b < p.batches
        invariant
            conv_ok(*p),
            geom_of(*p, *g),
            p.input != 0,
            b_it == in_b_it(*p),
            ich_it == in_ich_it(*p),
            irow_step == us(*p, 1),
            b <= p.batches + 64,
            cmds@ + in_batches(*p, b as int) == target,
        decreases left(p.batches as int, b as int),
    {
        let ghost before = cmds@;
        let mut irow: i64 = -g.u_upad;
        while irow < g.iru + g.u_dpad
            invariant
                conv_ok(*p),
                geom_of(*p, *g),
                p.input != 0,
                b < p.batches,
                b_it == in_b_it(*p),
                b_it >= 1,
                ich_it == in_ich_it(*p),
                irow_step == us(*p, 1),
                -g.u_upad <= irow <= g.iru + g.u_dpad + 2,
                cmds@ + in_irows(*p, b as int, irow as int) == before + in_irows(
                    *p,
                    b as int,
                    -undil(*p, p.upad as int),
                ),
            decreases left(g.iru + g.u_dpad, irow as int),
        {
            let ghost before_row = cmds@;
            let mut icol: i64 = -g.u_lpad;
            while icol < g.icu + g.u_rpad
                invariant
                    conv_ok(*p),
                    geom_of(*p, *g),
                    p.input != 0,
                    b < p.batches,
                    ich_it == in_ich_it(*p),
                    -g.u_upad <= irow < g.iru + g.u_dpad,
                    -g.u_lpad <= icol <= g.icu + g.u_rpad + 32,
                    cmds@ + in_icols(*p, b as int, irow as int, icol as int) == before_row + in_icols(
                        *p,
                        b as int,
                        irow as int,
                        -undil(*p, p.lpad as int),
                    ),
                decreases left(g.icu + g.u_rpad, icol as int),
            {
                let ghost before_col = cmds@;
                let width = in_width_exec(p, g, icol);
                let mut ich: u64 = 0;
                while ich < p.kchs
                    invariant
                        conv_ok(*p),
                        geom_of(*p, *g),
                        p.input != 0,
                        b < p.batches,
                        ich_it == in_ich_it(*p),
                        -g.u_upad <= irow < g.iru + g.u_dpad,
                        -g.u_lpad <= icol < g.icu + g.u_rpad,
                        ich <= p.kchs + 64,
                        cmds@ + in_ichs(*p, b as int, irow as int, icol as int, ich as int) == before_col
                            + in_ichs(*p, b as int, irow as int, icol as int, 0),
                    decreases left(p.kchs as int, ich as int),
                {
                    let ghost before_ich = cmds@;
                    let cmd = in_mvin_exec(p, g, b, irow, icol, ich);
                    cmds.push(cmd);
                    assert(in_ichs(*p, b as int, irow as int, icol as int, ich as int) == seq![
                        in_mvin(*p, b as int, irow as int, icol as int, ich as int),
                    ] + in_ichs(*p, b as int, irow as int, icol as int, ich + ich_it));
                    assert(cmds@ + in_ichs(*p, b as int, irow as int, icol as int, ich + ich_it) =~= before_ich
                        + in_ichs(*p, b as int, irow as int, icol as int, ich as int));
                    ich = ich + ich_it;
                }
                assert(in_icols(*p, b as int, irow as int, icol as int) == in_ichs(
                    *p,
                    b as int,
                    irow as int,
                    icol as int,
                    0,
                ) + in_icols(*p, b as int, irow as int, icol + width));
                assert(cmds@ + in_icols(*p, b as int, irow as int, icol + width) =~= before_col + in_icols(
                    *p,
                    b as int,
                    irow as int,
                    icol as int,
                ));
                icol = icol + width;
            }
            assert(in_irows(*p, b as int, irow as int) == in_icols(
                *p,
                b as int,
                irow as int,
                -undil(*p, p.lpad as int),
            ) + in_irows(*p, b as int, irow + irow_step));
            assert(cmds@ + in_irows(*p, b as int, irow + irow_step) =~= before_row + in_irows(
                *p,
                b as int,
                irow as int,
            ));
            irow = irow + irow_step;
        }
        assert(in_batches(*p, b as int) == in_irows(*p, b as int, -undil(*p, p.upad as int)) + in_batches(
            *p,
            b + b_it,
        ));
        assert(cmds@ + in_batches(*p, b + b_it) =~= before + in_batches(*p, b as int));
        b = b + b_it;
    }
}

/// The weight move-in at (`och`, `krow`, `kcol`, `kch`).
fn w_mvin_exec(p: &ConvParams, och: u64, krow: u64, kcol: u64, kch: u64) -> (c: GemminiCmd)
    requires
        conv_ok(*p),
        och < p.pochs,
        kch < p.kchs,
    ensures
        c == w_mvin(*p, och as int, krow as int, kcol as int, kch as int),
{
    let max_chs: u64 = if p.trans_weight_0132 {
        min_u64(p.kchs, 64)
    } else {
        min_u64(p.pochs, 64)
    };
    let rows: u64 = if p.trans_weight_0132 {
        min_u64(p.pochs - och, 16)
    } else {
        min_u64(p.kchs - kch, 16)
    };
    let cols: u64 = if p.trans_weight_0132 {
        min_u64(p.kchs - kch, max_chs)
    } else {
        min_u64(p.pochs - och, max_chs)
    };
    let kd = p.kernel_dim;
    let dram: u64 = if p.dw {
        p.weights.wrapping_add(krow.wrapping_mul(kd).wrapping_add(kcol))
    } else if p.trans_weight_1203 {
        p.weights.wrapping_add(
            kch.wrapping_mul(kd).wrapping_mul(kd).wrapping_add(krow.wrapping_mul(kd)).wrapping_add(kcol).wrapping_mul(
                p.out_channels,
            ).wrapping_add(och),
        )
    } else if p.trans_weight_0132 {
        p.weights.wrapping_add(
            krow.wrapping_mul(kd).wrapping_mul(p.out_channels).wrapping_add(kcol.wrapping_mul(p.out_channels)).wrapping_add(
                och,
            ).wrapping_mul(p.in_channels).wrapping_add(kch),
        )
    } else {
        p.weights.wrapping_add(
            krow.wrapping_mul(kd).wrapping_mul(p.in_channels).wrapping_add(kcol.wrapping_mul(p.in_channels)).wrapping_add(
                kch,
            ).wrapping_mul(p.weight_stride).wrapping_add(och),
        )
    };
    GemminiCmd::Mvin {
        dram_addr: dram,
        sp_addr: make_operand(rows, cols, sp_plus_exec(b_start_exec(p), w_offset_exec(p, och, krow, kcol, kch))),
        state_id: 1,
    }
}

/// Appends the weight phase.
fn push_weight_phase(cmds: &mut Vec<GemminiCmd>, p: &ConvParams)
    requires
        conv_ok(*p),
    ensures
        final(cmds)@ == old(cmds)@ + conv_weight_cmds(*p),
{
    if p.weights == 0 {
        assert(old(cmds)@ + conv_weight_cmds(*p) =~= old(cmds)@);
        return;
    }
    let ghost target = cmds@ + conv_weight_cmds(*p);
    let max_chs: u64 = if p.trans_weight_0132 {
        min_u64(p.kchs, 64)
    } else {
        min_u64(p.pochs, 64)
    };
    let dram_stride: u64 = if p.dw {
        1
    } else if p.trans_weight_1203 {
        p.kernel_dim.wrapping_mul(p.kernel_dim).wrapping_mul(p.out_channels)
    } else if p.trans_weight_0132 {
        p.in_channels
    } else {
        p.weight_stride
    };
    let block_stride: u64 = if p.trans_weight_0132 {
        p.krows.wrapping_mul(p.kcols).wrapping_mul(p.pochs)
    } else {
        p.krows.wrapping_mul(p.kcols).wrapping_mul(p.kchs)
    };
    cmds.push(
        GemminiCmd::Config {
            rs1: identity_scale_exec() | (block_stride << 16) | (1u64 << 8) | (1u64 << 3) | 1u64,
            rs2: dram_stride,
        },
    );
    assert(cmds@ + w_ochs(*p, 0) =~= target);
    let och_it: u64 = if p.trans_weight_0132 {
        16
    } else {
        max_chs
    };
    let kch_it: u64 = if p.trans_weight_0132 {
        max_chs
    } else {
        16
    };
    let mut och: u64 = 0;
    while och < p.pochs
        invariant
            conv_ok(*p),
            p.weights != 0,
            och_it == w_och_it(*p),
            kch_it == w_kch_it(*p),
            och <= p.pochs + 64,
            cmds@ + w_ochs(*p, och as int) == target,
        decreases left(p.pochs as int, och as int),
    {
        let ghost before = cmds@;
        let mut krow: u64 = 0;
        while krow < p.krows
            invariant
                conv_ok(*p),
                och < p.pochs,
                och_it == w_och_it(*p),
                och_it >= 1,
                kch_it == w_kch_it(*p),
                krow <= p.krows,
                cmds@ + w_krows(*p, och as int, krow as int) == before + w_krows(*p, och as int, 0),
            decreases p.krows - krow,
        {
            let ghost before_row = cmds@;
            let mut kcol: u64 = 0;
            while kcol < p.kcols
                invariant
                    conv_ok(*p),
                    och < p.pochs,
                    krow < p.krows,
                    kch_it == w_kch_it(*p),
                    kcol <= p.kcols,
                    cmds@ + w_kcols(*p, och as int, krow as int, kcol as int) == before_row + w_kcols(
                        *p,
                        och as int,
                        krow as int,
                        0,
                    ),
                decreases p.kcols - kcol,
            {
                let ghost before_col = cmds@;
                let mut kch: u64 = 0;
                while kch < p.kchs
                    invariant
                        conv_ok(*p),
                        och < p.pochs,
                        krow < p.krows,
                        kcol < p.kcols,
                        kch_it == w_kch_it(*p),
                        kch <= p.kchs + 64,
                        cmds@ + w_kchs(*p, och as int, krow as int, kcol as int, kch as int) == before_col
                            + w_kchs(*p, och as int, krow as int, kcol as int, 0),
                    decreases left(p.kchs as int, kch as int),
                {
                    let ghost before_kch = cmds@;
                    let cmd = w_mvin_exec(p, och, krow, kcol, kch);
                    cmds.push(cmd);
                    assert(w_kchs(*p, och as int, krow as int, kcol as int, kch as int) == seq![
                        w_mvin(*p, och as int, krow as int, kcol as int, kch as int),
                    ] + w_kchs(*p, och as int, krow as int, kcol as int, kch + kch_it));
                    assert(cmds@ + w_kchs(*p, och as int, krow as int, kcol as int, kch + kch_it) =~= before_kch
                        + w_kchs(*p, och as int, krow as int, kcol as int, kch as int));
                    kch = kch + kch_it;
                }
                assert(w_kcols(*p, och as int, krow as int, kcol as int) == w_kchs(
                    *p,
                    och as int,
                    krow as int,
                    kcol as int,
                    0,
                ) + w_kcols(*p, och as int, krow as int, kcol + 1));
                assert(cmds@ + w_kcols(*p, och as int, krow as int, kcol + 1) =~= before_col + w_kcols(
                    *p,
                    och as int,
                    krow as int,
                    kcol as int,
                ));
                kcol = kcol + 1;
            }
            assert(w_krows(*p, och as int, krow as int) == w_kcols(*p, och as int, krow as int, 0) + w_krows(
                *p,
                och as int,
                krow + 1,
            ));
            assert(cmds@ + w_krows(*p, och as int, krow + 1) =~= before_row + w_krows(*p, och as int, krow as int));
            krow = krow + 1;
        }
        assert(w_ochs(*p, och as int) == w_krows(*p, och as int, 0) + w_ochs(*p, och + och_it));
        assert(cmds@ + w_ochs(*p, och + och_it) =~= before + w_ochs(*p, och as int));
        och = och + och_it;
    }
}


/// `undil` of a 64-bit value below the top.
fn undil_u64(p: &ConvParams, x: u64) -> (r: u64)
    requires
        x < u64::MAX,
    ensures
        r == undil(*p, x as int),
{
    if p.input_dilated {
        (x + 1) / 2
    } else {
        x
    }
}

/// Appends the preload and the compute of `c_step`.
#[verifier::rlimit(40)]
#[verifier::spinoff_prover]
fn push_c_step(
    cmds: &mut Vec<GemminiCmd>,
    p: &ConvParams,
    g: &ConvGeom,
    och: u64,
    krow: u64,
    kcol: u64,
    kch: u64,
    b: u64,
    orow: u64,
    ocol: u64,
    first: bool,
)
    requires
        conv_ok(*p),
        geom_of(*p, *g),
        och < p.pochs,
        krow < p.krows,
        kcol < p.kcols,
        kch < p.kchs,
        b < p.batches,
        orow < p.orows,
        ocol < p.ocols,
    ensures
        final(cmds)@ == old(cmds)@ + c_step(
            *p,
            och as int,
            krow as int,
            kcol as int,
            kch as int,
            b as int,
            orow as int,
            ocol as int,
            first,
        ),
{
    proof {
        lemma_mul_u16(orow as int, p.stride as int);
        lemma_mul_u16(krow as int, p.kernel_dilation as int);
        lemma_mul_u16(ocol as int, p.stride as int);
        lemma_mul_u16(kcol as int, p.kernel_dilation as int);
    }
    let irow = undil_u64(p, orow * p.stride + krow * p.kernel_dilation);
    let icol = undil_u64(p, ocol * p.stride + kcol * p.kernel_dilation);
    let c_sp = sp_plus_exec(0xC000_0000, out_offset_exec(p, och, b, orow, ocol));
    let pixels = min_u64(p.kcols - kcol, p.max_pixels_per_row);
    let i: u64 = if p.trans_input_3120 {
        min_u64(p.batches - b, 16)
    } else {
        let lim: u64 = if p.input_dilated {
            32
        } else {
            16
        };
        undil_u64(p, min_u64(p.ocols - ocol, lim))
    };
    let j = min_u64(p.pochs - och, 16);
    let depth = min_u64(p.kchs - kch, 16);
    assert(pixels * depth <= 0xFF * 16) by (nonlinear_arith)
        requires
            pixels <= 0xFF,
            depth <= 16,
    ;
    let k = pixels * depth;
    let ir = ds_exec(p, g.irows);
    let ic = ds_exec(p, g.icols);
    let a_offset: u64 = if p.trans_input_3120 {
        (b / 16).wrapping_mul(p.kchs).wrapping_mul(ir).wrapping_mul(ic).wrapping_add(
            kch.wrapping_mul(ir).wrapping_mul(ic),
        ).wrapping_add(ds_exec(p, irow).wrapping_mul(ic)).wrapping_add(ds_exec(p, icol))
    } else {
        (kch / 16).wrapping_mul(p.batches).wrapping_mul(ir).wrapping_mul(ic).wrapping_add(
            b.wrapping_mul(ir).wrapping_mul(ic),
        ).wrapping_add(ds_exec(p, irow).wrapping_mul(ic)).wrapping_add(ds_exec(p, icol))
    };
    let krow_w = if p.wrot180 {
        p.krows - krow - 1
    } else {
        krow
    };
    let kcol_w = if p.wrot180 {
        p.kcols - kcol - 1
    } else {
        kcol
    };
    let b_sp = sp_plus_exec(b_start_exec(p), w_offset_exec(p, och, krow_w, kcol_w, kch));
    let pre_sp: u32 = if first {
        b_sp
    } else {
        0xFFFF_FFFF
    };
    let ghost start = cmds@;
    cmds.push(GemminiCmd::Preload { bd_addr: make_operand(k, j, pre_sp), c_addr: make_operand(i, j, c_sp) });
    cmds.push(
        GemminiCmd::Compute {
            a_addr: make_operand(i, k, sp_plus_exec(a_start_exec(p), a_offset)),
            bd_addr: make_operand(i, j, 0xFFFF_FFFF),
            preload: first,
        },
    );
    assert(cmds@ =~= start + c_step(
        *p,
        och as int,
        krow as int,
        kcol as int,
        kch as int,
        b as int,
        orow as int,
        ocol as int,
        first,
    ));
}

/// Whether `skips_row` holds.
fn skips_row_exec(p: &ConvParams, krow: u64, orow: u64) -> (r: bool)
    requires
        conv_bounded(*p),
        krow <= 0xFFFF,
        orow <= 0xFFFF,
    ensures
        r == skips_row(*p, krow as int, orow as int),
{
    proof {
        lemma_mul_u16(krow as int, p.kernel_dilation as int);
    }
    p.input_dilated && (krow * p.kernel_dilation + orow) % 2 != p.upad % 2
}

/// Whether `skips_col` holds.
fn skips_col_exec(p: &ConvParams, kcol: u64, ocol: u64) -> (r: bool)
    requires
        conv_bounded(*p),
        kcol <= 0xFFFF,
        ocol <= 0xFFFF,
    ensures
        r == skips_col(*p, kcol as int, ocol as int),
{
    proof {
        lemma_mul_u16(kcol as int, p.kernel_dilation as int);
    }
    p.input_dilated && (kcol * p.kernel_dilation + ocol) % 2 != p.lpad % 2
}

/// Appends the computes of one weight group: kernel position (`krow`,
/// `kcol`) and channel blocks `och`, `kch`, over every batch and output
/// pixel, the weights preloaded with the first.
fn push_c_group(cmds: &mut Vec<GemminiCmd>, p: &ConvParams, g: &ConvGeom, och: u64, krow: u64, kcol: u64, kch: u64)
    requires
        conv_ok(*p),
        geom_of(*p, *g),
        och < p.pochs,
        krow < p.krows,
        kcol < p.kcols,
        kch < p.kchs,
    ensures
        final(cmds)@ == old(cmds)@ + c_batches(*p, och as int, krow as int, kcol as int, kch as int, 0, true),
{
    let ghost target = cmds@ + c_batches(*p, och as int, krow as int, kcol as int, kch as int, 0, true);
    let ghost start = cmds@;
    let b_it: u64 = if p.trans_input_3120 {
        16
    } else {
        1
    };
    let ocol_it: u64 = if p.trans_input_3120 {
        1
    } else if p.input_dilated {
        32
    } else {
        16
    };
    let mut new_weights = true;
    let mut b: u64 = 0;
    while b < p.batches
        invariant
            conv_ok(*p),
            geom_of(*p, *g),
            och < p.pochs,
            krow < p.krows,
            kcol < p.kcols,
            kch < p.kchs,
            b_it == c_b_it(*p),
            ocol_it == c_ocol_it(*p),
            b <= p.batches + 16,
            new_weights == (cmds@.len() == start.len()),
            cmds@.len() >= start.len(),
            cmds@ + c_batches(*p, och as int, krow as int, kcol as int, kch as int, b as int, new_weights) == target,
        decreases left(p.batches as int, b as int),
    {
        let ghost before_b = cmds@;
        let ghost nw_b = new_weights;
        let mut orow: u64 = 0;
        while orow < p.orows
            invariant
                conv_ok(*p),
                geom_of(*p, *g),
                och < p.pochs,
                krow < p.krows,
                kcol < p.kcols,
                kch < p.kchs,
                b < p.batches,
                ocol_it == c_ocol_it(*p),
                orow <= p.orows,
                new_weights == (nw_b && cmds@.len() == before_b.len()),
                cmds@.len() >= before_b.len(),
                cmds@ + c_orows(*p, och as int, krow as int, kcol as int, kch as int, b as int, orow as int, new_weights)
                    == before_b + c_orows(*p, och as int, krow as int, kcol as int, kch as int, b as int, 0, nw_b),
            decreases p.orows - orow,
        {
            let ghost before_o = cmds@;
            let ghost nw_o = new_weights;
            if !skips_row_exec(p, krow, orow) {
                let mut ocol: u64 = 0;
                while ocol < p.ocols
                    invariant
                        conv_ok(*p),
                        geom_of(*p, *g),
                        och < p.pochs,
                        krow < p.krows,
                        kcol < p.kcols,
                        kch < p.kchs,
                        b < p.batches,
                        orow < p.orows,
                        ocol_it == c_ocol_it(*p),
                        ocol <= p.ocols + 32,
                        new_weights == (nw_o && cmds@.len() == before_o.len()),
                        cmds@.len() >= before_o.len(),
                        cmds@ + c_ocols(
                            *p,
                            och as int,
                            krow as int,
                            kcol as int,
                            kch as int,
                            b as int,
                            orow as int,
                            ocol as int,
                            new_weights,
                        ) == before_o + c_ocols(
                            *p,
                            och as int,
                            krow as int,
                            kcol as int,
                            kch as int,
                            b as int,
                            orow as int,
                            0,
                            nw_o,
                        ),
                    decreases left(p.ocols as int, ocol as int),
                {
                    let ghost before_c = cmds@;
                    if skips_col_exec(p, kcol, ocol) {
                        ocol = ocol + 1;
                    } else {
                        push_c_step(cmds, p, g, och, krow, kcol, kch, b, orow, ocol, new_weights);
                        assert(cmds@ + c_ocols(
                            *p,
                            och as int,
                            krow as int,
                            kcol as int,
                            kch as int,
                            b as int,
                            orow as int,
                            ocol + ocol_it,
                            false,
                        ) =~= before_c + c_ocols(
                            *p,
                            och as int,
                            krow as int,
                            kcol as int,
                            kch as int,
                            b as int,
                            orow as int,
                            ocol as int,
                            new_weights,
                        ));
                        ocol = ocol + ocol_it;
                        new_weights = false;
                    }
                }
            }
            let ghost row = c_row(*p, och as int, krow as int, kcol as int, kch as int, b as int, orow as int, nw_o);
            assert(cmds@ =~= before_o + row);
            assert(c_orows(*p, och as int, krow as int, kcol as int, kch as int, b as int, orow as int, nw_o) == row
                + c_orows(*p, och as int, krow as int, kcol as int, kch as int, b as int, orow + 1, new_weights));
            assert(cmds@ + c_orows(*p, och as int, krow as int, kcol as int, kch as int, b as int, orow + 1, new_weights)
                =~= before_o + c_orows(*p, och as int, krow as int, kcol as int, kch as int, b as int, orow as int, nw_o));
            orow = orow + 1;
        }
        let ghost r = c_orows(*p, och as int, krow as int, kcol as int, kch as int, b as int, 0, nw_b);
        assert(cmds@ =~= before_b + r);
        assert(c_batches(*p, och as int, krow as int, kcol as int, kch as int, b as int, nw_b) == r + c_batches(
            *p,
            och as int,
            krow as int,
            kcol as int,
            kch as int,
            b + b_it,
            new_weights,
        ));
        assert(cmds@ + c_batches(*p, och as int, krow as int, kcol as int, kch as int, b + b_it, new_weights)
            =~= before_b + c_batches(*p, och as int, krow as int, kcol as int, kch as int, b as int, nw_b));
        b = b + b_it;
    }
}


/// Appends the compute phase.
fn push_compute_phase(cmds: &mut Vec<GemminiCmd>, p: &ConvParams, g: &ConvGeom)
    requires
        conv_ok(*p),
        geom_of(*p, *g),
    ensures
        final(cmds)@ == old(cmds)@ + conv_compute_cmds(*p),
{
    let ghost target = cmds@ + conv_compute_cmds(*p);
    if p.trans_input_3120 {
        assert(g.irows * g.icols <= 0x3_FFFF * 0x3_FFFF) by (nonlinear_arith)
            requires
                g.irows <= 0x3_FFFF,
                g.icols <= 0x3_FFFF,
        ;
        let a_stride = (g.irows * g.icols) as u16;
        proof {
            lemma_mul_u16(p.orows as int, p.ocols as int);
        }
        let c_stride = (p.orows * p.ocols) as u16;
        cmds.push(GemminiCmd::Config { rs1: ((a_stride as u64) << 16) | (1u64 << 7), rs2: (c_stride as u64) << 48 });
    }
    assert(cmds@ + c_ochs(*p, 0) =~= target);
    let mut och: u64 = 0;
    while och < p.pochs
        invariant
            conv_ok(*p),
            geom_of(*p, *g),
            och <= p.pochs + 16,
            cmds@ + c_ochs(*p, och as int) == target,
        decreases left(p.pochs as int, och as int),
    {
        let ghost before = cmds@;
        let mut krow: u64 = 0;
        while krow < p.krows
            invariant
                conv_ok(*p),
                geom_of(*p, *g),
                och < p.pochs,
                krow <= p.krows,
                cmds@ + c_krows(*p, och as int, krow as int) == before + c_krows(*p, och as int, 0),
            decreases p.krows - krow,
        {
            let ghost before_row = cmds@;
            let mut kcol: u64 = 0;
            while kcol < p.kcols
                invariant
                    conv_ok(*p),
                    geom_of(*p, *g),
                    och < p.pochs,
                    krow < p.krows,
                    kcol <= p.kcols + 0xFF,
                    cmds@ + c_kcols(*p, och as int, krow as int, kcol as int) == before_row + c_kcols(
                        *p,
                        och as int,
                        krow as int,
                        0,
                    ),
                decreases left(p.kcols as int, kcol as int),
            {
                let ghost before_col = cmds@;
                let mut kch: u64 = 0;
                while kch < p.kchs
                    invariant
                        conv_ok(*p),
                        geom_of(*p, *g),
                        och < p.pochs,
                        krow < p.krows,
                        kcol < p.kcols,
                        kch <= p.kchs + 16,
                        cmds@ + c_kchs(*p, och as int, krow as int, kcol as int, kch as int) == before_col
                            + c_kchs(*p, och as int, krow as int, kcol as int, 0),
                    decreases left(p.kchs as int, kch as int),
                {
                    let ghost before_kch = cmds@;
                    push_c_group(cmds, p, g, och, krow, kcol, kch);
                    assert(c_kchs(*p, och as int, krow as int, kcol as int, kch as int) == c_batches(
                        *p,
                        och as int,
                        krow as int,
                        kcol as int,
                        kch as int,
                        0,
                        true,
                    ) + c_kchs(*p, och as int, krow as int, kcol as int, kch + 16));
                    assert(cmds@ + c_kchs(*p, och as int, krow as int, kcol as int, kch + 16) =~= before_kch
                        + c_kchs(*p, och as int, krow as int, kcol as int, kch as int));
                    kch = kch + 16;
                }
                assert(c_kcols(*p, och as int, krow as int, kcol as int) == c_kchs(
                    *p,
                    och as int,
                    krow as int,
                    kcol as int,
                    0,
                ) + c_kcols(*p, och as int, krow as int, kcol + p.max_pixels_per_row));
                assert(cmds@ + c_kcols(*p, och as int, krow as int, kcol + p.max_pixels_per_row) =~= before_col
                    + c_kcols(*p, och as int, krow as int, kcol as int));
                kcol = kcol + p.max_pixels_per_row;
            }
            assert(c_krows(*p, och as int, krow as int) == c_kcols(*p, och as int, krow as int, 0) + c_krows(
                *p,
                och as int,
                krow + 1,
            ));
            assert(cmds@ + c_krows(*p, och as int, krow + 1) =~= before_row + c_krows(*p, och as int, krow as int));
            krow = krow + 1;
        }
        assert(c_ochs(*p, och as int) == c_krows(*p, och as int, 0) + c_ochs(*p, och + 16));
        assert(cmds@ + c_ochs(*p, och + 16) =~= before + c_ochs(*p, och as int));
        och = och + 16;
    }
}

/// The unpooled move-out at (`b`, `orow`, `ocol`) and channels `och`.
fn o_mvout_exec(p: &ConvParams, b: u64, orow: u64, ocol: u64, och: u64) -> (c: GemminiCmd)
    requires
        ocol < p.ocols,
        och < p.pochs,
    ensures
        c == o_mvout(*p, b as int, orow as int, ocol as int, och as int),
{
    let dram: u64 = if p.trans_output_1203 {
        p.output.wrapping_add(
            orow.wrapping_mul(p.out_col_dim).wrapping_mul(p.batch_size).wrapping_add(ocol.wrapping_mul(p.batch_size)).wrapping_add(
                b,
            ).wrapping_mul(p.out_channels).wrapping_add(och),
        )
    } else {
        p.output.wrapping_add(
            b.wrapping_mul(p.out_row_dim).wrapping_mul(p.out_col_dim).wrapping_add(orow.wrapping_mul(p.out_col_dim)).wrapping_add(
                ocol,
            ).wrapping_mul(p.out_stride).wrapping_add(och),
        )
    };
    GemminiCmd::Mvout {
        dram_addr: dram,
        sp_addr: make_operand(
            min_u64(p.ocols - ocol, 16),
            min_u64(p.pochs - och, 16),
            sp_plus_exec(0xC000_0000, out_offset_exec(p, och, b, orow, ocol)),
        ),
    }
}

/// The pooled move-out of batch `b` and channels `poch`.
fn po_mvout_exec(p: &ConvParams, b: u64, poch: u64) -> (c: GemminiCmd)
    requires
        conv_bounded(*p),
        poch < p.pochs,
    ensures
        c == po_mvout(*p, b as int, poch as int),
{
    let channels: u64 = if poch + 16 >= p.pochs {
        p.pochs - poch
    } else {
        16
    };
    let c_sp = sp_plus_exec(
        0xC000_0000,
        (poch / 16).wrapping_mul(p.batches).wrapping_mul(p.orows).wrapping_mul(p.ocols).wrapping_add(
            b.wrapping_mul(p.orows).wrapping_mul(p.ocols),
        ),
    );
    GemminiCmd::Mvout {
        dram_addr: p.output.wrapping_add(
            b.wrapping_mul(p.pool_out_row_dim).wrapping_mul(p.pool_out_col_dim).wrapping_mul(p.out_stride).wrapping_add(
                poch,
            ),
        ),
        sp_addr: make_operand(0, channels, c_sp),
    }
}

/// Appends the move-out phase.
fn push_mvout_phase(cmds: &mut Vec<GemminiCmd>, p: &ConvParams)
    requires
        conv_ok(*p),
    ensures
        final(cmds)@ == old(cmds)@ + conv_mvout_cmds(*p),
{
    let ghost target = cmds@ + conv_mvout_cmds(*p);
    if p.output == 0 {
        assert(cmds@ =~= target);
        return;
    }
    if p.no_pool {
        assert(cmds@ + o_batches(*p, 0) =~= target);
        let mut b: u64 = 0;
        while b < p.batches
            invariant
                conv_ok(*p),
                b <= p.batches,
                cmds@ + o_batches(*p, b as int) == target,
            decreases p.batches - b,
        {
            let ghost before = cmds@;
            let mut orow: u64 = 0;
            while orow < p.orows
                invariant
                    conv_ok(*p),
                    b < p.batches,
                    orow <= p.orows,
                    cmds@ + o_orows(*p, b as int, orow as int) == before + o_orows(*p, b as int, 0),
                decreases p.orows - orow,
            {
                let ghost before_row = cmds@;
                let mut ocol: u64 = 0;
                while ocol < p.ocols
                    invariant
                        conv_ok(*p),
                        b < p.batches,
                        orow < p.orows,
                        ocol <= p.ocols + 16,
                        cmds@ + o_ocols(*p, b as int, orow as int, ocol as int) == before_row + o_ocols(
                            *p,
                            b as int,
                            orow as int,
                            0,
                        ),
                    decreases left(p.ocols as int, ocol as int),
                {
                    let ghost before_col = cmds@;
                    let mut och: u64 = 0;
                    while och < p.pochs
                        invariant
                            conv_ok(*p),
                            b < p.batches,
                            orow < p.orows,
                            ocol < p.ocols,
                            och <= p.pochs + 16,
                            cmds@ + o_ochs(*p, b as int, orow as int, ocol as int, och as int) == before_col
                                + o_ochs(*p, b as int, orow as int, ocol as int, 0),
                        decreases left(p.pochs as int, och as int),
                    {
                        let ghost before_och = cmds@;
                        let cmd = o_mvout_exec(p, b, orow, ocol, och);
                        cmds.push(cmd);
                        assert(o_ochs(*p, b as int, orow as int, ocol as int, och as int) == seq![
                            o_mvout(*p, b as int, orow as int, ocol as int, och as int),
                        ] + o_ochs(*p, b as int, orow as int, ocol as int, och + 16));
                        assert(cmds@ + o_ochs(*p, b as int, orow as int, ocol as int, och + 16) =~= before_och
                            + o_ochs(*p, b as int, orow as int, ocol as int, och as int));
                        och = och + 16;
                    }
                    assert(o_ocols(*p, b as int, orow as int, ocol as int) == o_ochs(
                        *p,
                        b as int,
                        orow as int,
                        ocol as int,
                        0,
                    ) + o_ocols(*p, b as int, orow as int, ocol + 16));
                    assert(cmds@ + o_ocols(*p, b as int, orow as int, ocol + 16) =~= before_col + o_ocols(
                        *p,
                        b as int,
                        orow as int,
                        ocol as int,
                    ));
                    ocol = ocol + 16;
                }
                assert(o_orows(*p, b as int, orow as int) == o_ocols(*p, b as int, orow as int, 0) + o_orows(
                    *p,
                    b as int,
                    orow + 1,
                ));
                assert(cmds@ + o_orows(*p, b as int, orow + 1) =~= before_row + o_orows(*p, b as int, orow as int));
                orow = orow + 1;
            }
            assert(o_batches(*p, b as int) == o_orows(*p, b as int, 0) + o_batches(*p, b + 1));
            assert(cmds@ + o_batches(*p, b + 1) =~= before + o_batches(*p, b as int));
            b = b + 1;
        }
    } else {
        let rs2: u64 = ((p.acc_scale as u64) << 32) | p.out_stride;
        cmds.push(
            GemminiCmd::Config {
                rs1: (p.ocols << 56) | (p.orows << 48) | (p.pocols << 40) | (p.porows << 32) | (p.pool_out_col_dim
                    << 24) | (p.plpad << 10) | (p.pupad << 8) | (p.pool_size << 6) | (p.pool_stride << 4) | (
                p.activation << 2) | 2u64,
                rs2,
            },
        );
        let ghost tail = seq![unpool_config(*p)];
        assert(cmds@ + po_batches(*p, 0) + tail =~= target);
        let mut b: u64 = 0;
        while b < p.batches
            invariant
                conv_ok(*p),
                !p.no_pool,
                p.output != 0,
                tail == seq![unpool_config(*p)],
                b <= p.batches,
                cmds@ + po_batches(*p, b as int) + tail == target,
            decreases p.batches - b,
        {
            let ghost before = cmds@;
            let mut poch: u64 = 0;
            while poch < p.pochs
                invariant
                    conv_ok(*p),
                    b < p.batches,
                    poch <= p.pochs + 16,
                    cmds@ + po_pochs(*p, b as int, poch as int) == before + po_pochs(*p, b as int, 0),
                decreases left(p.pochs as int, poch as int),
            {
                let ghost before_p = cmds@;
                let cmd = po_mvout_exec(p, b, poch);
                cmds.push(cmd);
                assert(po_pochs(*p, b as int, poch as int) == seq![po_mvout(*p, b as int, poch as int)] + po_pochs(
                    *p,
                    b as int,
                    poch + 16,
                ));
                assert(cmds@ + po_pochs(*p, b as int, poch + 16) =~= before_p + po_pochs(*p, b as int, poch as int));
                poch = poch + 16;
            }
            assert(po_batches(*p, b as int) == po_pochs(*p, b as int, 0) + po_batches(*p, b + 1));
            assert(cmds@ + po_batches(*p, b + 1) + tail =~= before + po_batches(*p, b as int) + tail);
            b = b + 1;
        }
        cmds.push(GemminiCmd::Config { rs1: (p.activation << 2) | 2u64, rs2 });
        assert(cmds@ =~= target);
    }
}

impl Gemmini {
    /// The commands of a `loop_conv_ws` with flags `rs1` and `rs2` over the
    /// geometry and addresses configured before (see `loop_conv_ws_cmds`);
    /// the accelerator runs them in order.
    pub fn loop_conv_ws(&self, rs1: u64, rs2: u64) -> (cmds: Vec<GemminiCmd>)
        requires
            conv_ok(conv_params(self.state, rs1, rs2)),
        ensures
            cmds@ == loop_conv_ws_cmds(conv_params(self.state, rs1, rs2)),
    {
        let p = decode_conv(&self.state, rs1, rs2);
        let g = geometry(&p);
        let mut cmds: Vec<GemminiCmd> = Vec::new();
        push_bias_phase(&mut cmds, &p);
        push_input_phase(&mut cmds, &p, &g);
        push_weight_phase(&mut cmds, &p);
        push_compute_phase(&mut cmds, &p, &g);
        push_mvout_phase(&mut cmds, &p);
        assert(cmds@ =~= loop_conv_ws_cmds(p));
        cmds
    }

    /// Whether a `loop_conv_ws` with flags `rs1` and `rs2` has the geometry
    /// of a convolution (see `conv_ok`).
    pub fn loop_conv_ws_ok(&self, rs1: u64, rs2: u64) -> (ok: bool)
        ensures
            ok == conv_ok(conv_params(self.state, rs1, rs2)),
    {
        let p = decode_conv(&self.state, rs1, rs2);
        conv_geometry_ok(&p)
    }
}

} // verus!
