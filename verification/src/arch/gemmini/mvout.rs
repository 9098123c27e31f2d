//! Gemmini's move-out: where each value of a block goes in DRAM, the
//! normalisation steps each row runs first, and the max pooling of
//! convolution outputs. Scaling accumulator values to bytes is the
//! caller's part: the caller hands over the bytes that depend on it.
use vstd::prelude::*;
use crate::arch::gemmini::datapath::non_terminating;
use crate::arch::gemmini::gemmini::{
    lemma_field_ranges,
    Gemmini,
    GemminiState,
    NormCmd,
    ACCUM_ROWS,
    DIM,
};
use crate::arch::gemmini::memory::{mv_cols, mv_rows};

verus! {

/// One write to DRAM: the low `bytes` bytes of `value`, little end first,
/// at `addr`.
#[derive(Clone, Copy, Debug, PartialEq, Eq, Structural)]
pub struct DramWrite {
    pub addr: u64,
    pub value: u32,
    pub bytes: u32,
}

/// One normalisation step of a move-out row: the first `len` elements of
/// accumulator row `row`, step `cmd`.
#[derive(Clone, Copy, Debug, PartialEq, Eq, Structural)]
pub struct NormBlock {
    pub row: u64,
    pub len: u64,
    pub cmd: NormCmd,
}

/// The move-out reads the accumulator (bit 31).
pub open spec fn mo_from_acc(sp: u64) -> bool {
    (sp >> 31) & 1 != 0
}

/// The move-out writes whole 32-bit accumulator values (bit 29).
pub open spec fn mo_full(sp: u64) -> bool {
    (sp >> 29) & 1 != 0
}

/// The first row of a move-out.
pub open spec fn mo_base(sp: u64) -> int {
    (sp & 0x3FF_FFFF) as int
}

/// The normalisation step a three-bit field selects.
pub open spec fn norm_cmd_of(bits: u64) -> NormCmd {
    if bits == 0 {
        NormCmd::RESET
    } else if bits == 1 {
        NormCmd::SUM
    } else if bits == 2 {
        NormCmd::MEAN
    } else if bits == 3 {
        NormCmd::VARIANCE
    } else if bits == 4 {
        NormCmd::INV_STDDEV
    } else if bits == 5 {
        NormCmd::MAX
    } else if bits == 6 {
        NormCmd::SUM_EXP
    } else {
        NormCmd::INV_SUM_EXP
    }
}

/// The normalisation step of a move-out (bits 26 to 28).
pub open spec fn mo_norm(sp: u64) -> NormCmd {
    norm_cmd_of((sp >> 26) & 7)
}

/// The number of `DIM`-column blocks of `cols` columns.
pub open spec fn col_blocks(cols: int) -> int {
    (cols + DIM - 1) / (DIM as int)
}

/// The row of column `j` of row `i` of a move-out: blocks of `DIM` columns
/// are `DIM` rows apart.
pub open spec fn mo_row(sp: u64, i: int, j: int) -> int {
    mo_base(sp) + (j / (DIM as int)) * DIM + i
}

/// Every row a move-out without pooling reads is an accumulator row: the
/// normalisation reads one per block whatever the source.
pub open spec fn mvout_rows_fit(sp: u64) -> bool {
    mv_rows(sp) > 0 && mv_cols(sp) > 0 ==> mo_base(sp) + (col_blocks(mv_cols(sp)) - 1) * DIM + mv_rows(
        sp,
    ) - 1 < ACCUM_ROWS
}

/// The normalisation steps of row `i`: one per block, the last with the
/// move-out's step, the others with its accumulating form.
pub open spec fn norm_blocks(sp: u64, i: int) -> Seq<NormBlock> {
    let cols = mv_cols(sp);
    Seq::new(
        col_blocks(cols) as nat,
        |b: int|
            NormBlock {
                row: (mo_base(sp) + b * DIM + i) as u64,
                len: (if cols - b * DIM > DIM {
                    DIM as int
                } else {
                    cols - b * DIM
                }) as u64,
                cmd: if b * DIM + DIM >= cols {
                    mo_norm(sp)
                } else {
                    non_terminating(mo_norm(sp))
                },
            },
    )
}

/// The DRAM address of row `i` of a move-out.
pub open spec fn mo_row_addr(s: GemminiState, dram_addr: u64, i: u64) -> u64 {
    dram_addr.wrapping_add(i.wrapping_mul(s.store_stride))
}

/// The write of column `j` of row `i`: a whole accumulator value, an
/// activated byte (`activated`, from the caller) of the accumulator, or a
/// scratchpad byte.
pub open spec fn row_write(
    s: GemminiState,
    dram_addr: u64,
    sp: u64,
    i: u64,
    j: int,
    activated: Seq<i8>,
) -> DramWrite {
    let row = mo_row(sp, i as int, j);
    let col = j % (DIM as int);
    let base = mo_row_addr(s, dram_addr, i);
    if mo_from_acc(sp) && mo_full(sp) {
        DramWrite { addr: base.wrapping_add((j * 4) as u64), value: s.accumulator@[row]@[col] as u32, bytes: 4 }
    } else if mo_from_acc(sp) {
        DramWrite { addr: base.wrapping_add(j as u64), value: activated[j] as u8 as u32, bytes: 1 }
    } else {
        DramWrite { addr: base.wrapping_add(j as u64), value: s.spad@[row]@[col] as u8 as u32, bytes: 1 }
    }
}

/// Decodes a three-bit normalisation field.
fn decode_norm_cmd(bits: u64) -> (c: NormCmd)
    ensures
        c == norm_cmd_of(bits),
{
    if bits == 0 {
        NormCmd::RESET
    } else if bits == 1 {
        NormCmd::SUM
    } else if bits == 2 {
        NormCmd::MEAN
    } else if bits == 3 {
        NormCmd::VARIANCE
    } else if bits == 4 {
        NormCmd::INV_STDDEV
    } else if bits == 5 {
        NormCmd::MAX
    } else if bits == 6 {
        NormCmd::SUM_EXP
    } else {
        NormCmd::INV_SUM_EXP
    }
}

/// Element `w` of the pooling window of output pixel (`porow`, `pocol`),
/// channel `poch`: window row `w / size`, column `w % size`; zero in the
/// padding, else the source byte of that pixel (`source`, whose row
/// `orow * ocols + ocol` holds output pixel (`orow`, `ocol`)).
pub open spec fn pool_elem(
    s: GemminiState,
    source: Seq<Vec<i8>>,
    porow: int,
    pocol: int,
    poch: int,
    w: int,
) -> i8 {
    let size = s.pool_size as int;
    let orow = porow * s.pool_stride + w / size - s.pool_upad;
    let ocol = pocol * s.pool_stride + w % size - s.pool_lpad;
    if orow < 0 || ocol < 0 || orow >= s.pool_orows || ocol >= s.pool_ocols {
        0
    } else {
        source[orow * s.pool_ocols + ocol]@[poch]
    }
}

/// The largest of the first `n` window elements, and of the smallest byte.
pub open spec fn pool_max(
    s: GemminiState,
    source: Seq<Vec<i8>>,
    porow: int,
    pocol: int,
    poch: int,
    n: nat,
) -> i8
    decreases n,
{
    if n == 0 {
        i8::MIN
    } else {
        let m = pool_max(s, source, porow, pocol, poch, (n - 1) as nat);
        let e = pool_elem(s, source, porow, pocol, poch, n - 1);
        if e > m {
            e
        } else {
            m
        }
    }
}

/// The pooled value is the maximum of the window: no window element
/// exceeds it, and it is one of them, or the smallest byte.
pub proof fn lemma_pool_max_is_max(
    s: GemminiState,
    source: Seq<Vec<i8>>,
    porow: int,
    pocol: int,
    poch: int,
    n: nat,
)
    ensures
        forall|w: int| 0 <= w < n ==> #[trigger] pool_elem(s, source, porow, pocol, poch, w) <= pool_max(
            s,
            source,
            porow,
            pocol,
            poch,
            n,
        ),
        pool_max(s, source, porow, pocol, poch, n) == i8::MIN || exists|w: int|
            0 <= w < n && #[trigger] pool_elem(s, source, porow, pocol, poch, w) == pool_max(
                s,
                source,
                porow,
                pocol,
                poch,
                n,
            ),
    decreases n,
{
    if n > 0 {
        lemma_pool_max_is_max(s, source, porow, pocol, poch, (n - 1) as nat);
        let m = pool_max(s, source, porow, pocol, poch, (n - 1) as nat);
        let e = pool_elem(s, source, porow, pocol, poch, n - 1);
        if m != i8::MIN && !(e > m) {
            let w = choose|w: int| 0 <= w < n - 1 && #[trigger] pool_elem(s, source, porow, pocol, poch, w) == m;
            assert(pool_elem(s, source, porow, pocol, poch, w) == pool_max(s, source, porow, pocol, poch, n));
        }
    }
}

/// The write of channel `poch` of output pixel (`porow`, `pocol`): the
/// maximum over its window, at `dram_addr + (porow * out_dim + pocol) *
/// store_stride + poch`, modulo 2^64.
pub open spec fn pool_write(
    s: GemminiState,
    dram_addr: u64,
    source: Seq<Vec<i8>>,
    porow: int,
    pocol: int,
    poch: int,
) -> DramWrite {
    DramWrite {
        addr: dram_addr.wrapping_add(
            ((porow * s.pool_out_dim + pocol) as u64).wrapping_mul(s.store_stride),
        ).wrapping_add(poch as u64),
        value: pool_max(s, source, porow, pocol, poch, (s.pool_size * s.pool_size) as nat) as u8 as u32,
        bytes: 1,
    }
}

/// The writes of the channels `poch < channels` of one output pixel.
pub open spec fn pool_pixel(
    s: GemminiState,
    dram_addr: u64,
    source: Seq<Vec<i8>>,
    porow: int,
    pocol: int,
    channels: int,
) -> Seq<DramWrite> {
    Seq::new(channels as nat, |c: int| pool_write(s, dram_addr, source, porow, pocol, c))
}

/// The writes of the output pixels (`porow`, `pocol`) for `pocol < n`.
pub open spec fn pool_row(
    s: GemminiState,
    dram_addr: u64,
    source: Seq<Vec<i8>>,
    porow: int,
    channels: int,
    n: int,
) -> Seq<DramWrite>
    decreases n,
{
    if n <= 0 {
        Seq::empty()
    } else {
        pool_row(s, dram_addr, source, porow, channels, n - 1) + pool_pixel(
            s,
            dram_addr,
            source,
            porow,
            n - 1,
            channels,
        )
    }
}

/// The writes of the output rows `porow < n`.
pub open spec fn pool_rows(
    s: GemminiState,
    dram_addr: u64,
    source: Seq<Vec<i8>>,
    channels: int,
    n: int,
) -> Seq<DramWrite>
    decreases n,
{
    if n <= 0 {
        Seq::empty()
    } else {
        pool_rows(s, dram_addr, source, channels, n - 1) + pool_row(
            s,
            dram_addr,
            source,
            n - 1,
            channels,
            s.pool_pocols as int,
        )
    }
}

/// The source holds a row of `channels` bytes for each output pixel.
pub open spec fn pool_source_ok(s: GemminiState, source: Seq<Vec<i8>>, channels: int) -> bool {
    &&& source.len() == s.pool_orows * s.pool_ocols
    &&& forall|r: int| 0 <= r < source.len() ==> (#[trigger] source[r])@.len() == channels
}

/// The largest element of the pooling window of channel `poch` of output
/// pixel (`porow`, `pocol`).
fn pool_value(s: &GemminiState, source: &Vec<Vec<i8>>, porow: u64, pocol: u64, poch: usize, channels: usize) -> (v: i8)
    requires
        porow < 256,
        pocol < 256,
        poch < channels,
        pool_source_ok(*s, source@, channels as int),
    ensures
        v == pool_max(
            *s,
            source@,
            porow as int,
            pocol as int,
            poch as int,
            (s.pool_size * s.pool_size) as nat,
        ),
{
    let size = s.pool_size as u64;
    assert(size * size <= 255 * 255) by (nonlinear_arith)
        requires
            size <= 255,
    ;
    let n = size * size;
    let mut value: i8 = i8::MIN;
    let mut w: u64 = 0;
    while w < n
        invariant
            porow < 256,
            pocol < 256,
            poch < channels,
            pool_source_ok(*s, source@, channels as int),
            size == s.pool_size,
            n <= 255 * 255,
            n == size * size,
            w <= n,
            value == pool_max(*s, source@, porow as int, pocol as int, poch as int, w as nat),
        decreases n - w,
    {
        assert(size > 0) by (nonlinear_arith)
            requires
                w < size * size,
        ;
        assert(porow * s.pool_stride <= 255 * 255 && pocol * s.pool_stride <= 255 * 255) by (nonlinear_arith)
            requires
                porow < 256,
                pocol < 256,
                s.pool_stride <= 255,
        ;
        assert(w / size <= w && w % size < size);
        let orow: i64 = (porow * s.pool_stride as u64 + w / size) as i64 - s.pool_upad as i64;
        let ocol: i64 = (pocol * s.pool_stride as u64 + w % size) as i64 - s.pool_lpad as i64;
        let e: i8 = if orow < 0 || ocol < 0 || orow >= s.pool_orows as i64 || ocol >= s.pool_ocols as i64 {
            0
        } else {
            assert(orow * s.pool_ocols <= 255 * 255) by (nonlinear_arith)
                requires
                    0 <= orow < s.pool_orows,
                    s.pool_orows <= 255,
                    s.pool_ocols <= 255,
            ;
            assert(0 <= orow * s.pool_ocols) by (nonlinear_arith)
                requires
                    0 <= orow,
                    0 <= s.pool_ocols,
            ;
            let r = orow * (s.pool_ocols as i64) + ocol;
            assert(r < s.pool_orows * s.pool_ocols) by (nonlinear_arith)
                requires
                    r == orow * s.pool_ocols + ocol,
                    0 <= orow < s.pool_orows,
                    0 <= ocol < s.pool_ocols,
            ;
            assert(0 <= r) by (nonlinear_arith)
                requires
                    r == orow * s.pool_ocols + ocol,
                    0 <= orow,
                    0 <= ocol,
                    0 <= s.pool_ocols,
            ;
            assert(source@[r as int]@.len() == channels);
            source[r as usize][poch]
        };
        if e > value {
            value = e;
        }
        w = w + 1;
    }
    value
}

impl Gemmini {
    /// Whether every row that a move-out without pooling from `sp_addr`
    /// reads exists.
    pub fn mvout_in_range(sp_addr: u64) -> (ok: bool)
        ensures
            ok == mvout_rows_fit(sp_addr),
    {
        proof {
            lemma_field_ranges();
        }
        let rows = (sp_addr >> 48) & 0xFFFF;
        let cols = (sp_addr >> 32) & 0xFFFF;
        if rows == 0 || cols == 0 {
            return true;
        }
        let base = sp_addr & 0x3FF_FFFF;
        let blocks = (cols + 15) / 16;
        base + (blocks - 1) * 16 + rows - 1 < ACCUM_ROWS as u64
    }

    /// The normalisation steps that row `i` of a move-out from `sp_addr`
    /// runs before it is written (see `norm_blocks`).
    pub fn mvout_norm_blocks(sp_addr: u64, i: u64) -> (b: Vec<NormBlock>)
        requires
            i <= 0xFFFF,
        ensures
            b@ == norm_blocks(sp_addr, i as int),
    {
        proof {
            lemma_field_ranges();
        }
        let cols = (sp_addr >> 32) & 0xFFFF;
        let base = sp_addr & 0x3FF_FFFF;
        let cmd = decode_norm_cmd((sp_addr >> 26) & 7);
        let inner = Gemmini::non_terminating_norm_cmd(cmd);
        let ghost spec_blocks = norm_blocks(sp_addr, i as int);
        let mut blocks: Vec<NormBlock> = Vec::new();
        let mut j: u64 = 0;
        while j < cols
            invariant
                cols == mv_cols(sp_addr),
                cols <= 0xFFFF,
                base == mo_base(sp_addr),
                base <= 0x3FF_FFFF,
                i <= 0xFFFF,
                cmd == mo_norm(sp_addr),
                inner == non_terminating(cmd),
                spec_blocks == norm_blocks(sp_addr, i as int),
                j == blocks@.len() * DIM,
                blocks@.len() <= col_blocks(cols as int),
                j < cols ==> blocks@.len() < col_blocks(cols as int),
                j >= cols ==> blocks@.len() == col_blocks(cols as int),
                blocks@ == spec_blocks.take(blocks@.len() as int),
                j <= cols + 16,
            decreases cols + 16 - j,
        {
            let len = if cols - j > 16 {
                16
            } else {
                cols - j
            };
            let c = if j + 16 >= cols {
                cmd
            } else {
                inner
            };
            let ghost b = blocks@.len() as int;
            blocks.push(NormBlock { row: base + j + i, len, cmd: c });
            assert(blocks@ =~= spec_blocks.take(b + 1));
            j = j + 16;
        }
        assert(blocks@ =~= spec_blocks);
        blocks
    }

    /// The writes of row `i` of a move-out without pooling from `sp_addr`
    /// to `dram_addr` (see `row_write`); `activated` holds the activated
    /// bytes of the row's accumulator values, used for a byte move-out of
    /// the accumulator.
    pub fn mvout_row_writes(&self, dram_addr: u64, sp_addr: u64, i: u64, activated: &Vec<i8>) -> (w: Vec<
        DramWrite,
    >)
        requires
            self.wf(),
            mvout_rows_fit(sp_addr),
            i < mv_rows(sp_addr),
            activated@.len() == mv_cols(sp_addr),
        ensures
            w@ == Seq::new(
                mv_cols(sp_addr) as nat,
                |j: int| row_write(self.state, dram_addr, sp_addr, i, j, activated@),
            ),
    {
        proof {
            lemma_field_ranges();
        }
        let cols = (sp_addr >> 32) & 0xFFFF;
        let base = sp_addr & 0x3FF_FFFF;
        let from_acc = (sp_addr >> 31) & 1 != 0;
        let full = (sp_addr >> 29) & 1 != 0;
        let row_addr = dram_addr.wrapping_add(i.wrapping_mul(self.state.store_stride));
        let ghost spec_w = Seq::new(
            cols as nat,
            |j: int| row_write(self.state, dram_addr, sp_addr, i, j, activated@),
        );
        let mut w: Vec<DramWrite> = Vec::new();
        let mut j: u64 = 0;
        while j < cols
            invariant
                self.wf(),
                mvout_rows_fit(sp_addr),
                i < mv_rows(sp_addr),
                cols == mv_cols(sp_addr),
                cols <= 0xFFFF,
                base == mo_base(sp_addr),
                from_acc == mo_from_acc(sp_addr),
                full == mo_full(sp_addr),
                row_addr == mo_row_addr(self.state, dram_addr, i),
                activated@.len() == cols,
                spec_w == Seq::new(
                    cols as nat,
                    |j: int| row_write(self.state, dram_addr, sp_addr, i, j, activated@),
                ),
                j <= cols,
                w@.len() == j,
                w@ == spec_w.take(j as int),
            decreases cols - j,
        {
            let row = (base + (j / 16) * 16 + i) as usize;
            let col = (j % 16) as usize;
            assert(row < ACCUM_ROWS) by {
                assert(j / 16 <= col_blocks(cols as int) - 1);
            }
            let item = if from_acc && full {
                DramWrite {
                    addr: row_addr.wrapping_add(j * 4),
                    value: self.state.accumulator[row][col] as u32,
                    bytes: 4,
                }
            } else if from_acc {
                DramWrite { addr: row_addr.wrapping_add(j), value: activated[j as usize] as u8 as u32, bytes: 1 }
            } else {
                DramWrite { addr: row_addr.wrapping_add(j), value: self.state.spad[row][col] as u8 as u32, bytes: 1 }
            };
            w.push(item);
            assert(w@ =~= spec_w.take(j + 1));
            j = j + 1;
        }
        assert(w@ =~= spec_w);
        w
    }

    /// The writes of a move-out with max pooling to `dram_addr`: for each
    /// output pixel in row order, and each of its `channels` channels, the
    /// largest byte of its pooling window (see `pool_write`). `source` holds
    /// the bytes of the output pixels: the scratchpad's, or the accumulator's
    /// once scaled and activated.
    pub fn mvout_pool_writes(&self, dram_addr: u64, channels: usize, source: &Vec<Vec<i8>>) -> (w: Vec<
        DramWrite,
    >)
        requires
            pool_source_ok(self.state, source@, channels as int),
        ensures
            w@ == pool_rows(self.state, dram_addr, source@, channels as int, self.state.pool_porows as int),
    {
        let s = &self.state;
        let mut w: Vec<DramWrite> = Vec::new();
        let mut porow: u64 = 0;
        while porow < s.pool_porows as u64
            invariant
                s == &self.state,
                pool_source_ok(*s, source@, channels as int),
                porow <= s.pool_porows,
                w@ == pool_rows(*s, dram_addr, source@, channels as int, porow as int),
            decreases s.pool_porows - porow,
        {
            let ghost before_row = w@;
            let mut pocol: u64 = 0;
            while pocol < s.pool_pocols as u64
                invariant
                    s == &self.state,
                    pool_source_ok(*s, source@, channels as int),
                    porow < s.pool_porows,
                    pocol <= s.pool_pocols,
                    before_row == pool_rows(*s, dram_addr, source@, channels as int, porow as int),
                    w@ == before_row + pool_row(*s, dram_addr, source@, porow as int, channels as int, pocol as int),
                decreases s.pool_pocols - pocol,
            {
                let ghost before_pixel = w@;
                let ghost pixel = pool_pixel(*s, dram_addr, source@, porow as int, pocol as int, channels as int);
                assert(porow * s.pool_out_dim <= 255 * 255) by (nonlinear_arith)
                    requires
                        porow < 256,
                        s.pool_out_dim <= 255,
                ;
                let pix_addr = dram_addr.wrapping_add(
                    (porow * s.pool_out_dim as u64 + pocol).wrapping_mul(s.store_stride),
                );
                let mut poch: usize = 0;
                while poch < channels
                    invariant
                        s == &self.state,
                        pool_source_ok(*s, source@, channels as int),
                        porow < s.pool_porows,
                        pocol < s.pool_pocols,
                        poch <= channels,
                        pix_addr == dram_addr.wrapping_add(
                            ((porow * s.pool_out_dim + pocol) as u64).wrapping_mul(s.store_stride),
                        ),
                        pixel == pool_pixel(*s, dram_addr, source@, porow as int, pocol as int, channels as int),
                        w@ == before_pixel + pixel.take(poch as int),
                    decreases channels - poch,
                {
                    let v = pool_value(s, source, porow, pocol, poch, channels);
                    w.push(DramWrite { addr: pix_addr.wrapping_add(poch as u64), value: v as u8 as u32, bytes: 1 });
                    assert(pixel.take(poch + 1) =~= pixel.take(poch as int).push(pixel[poch as int]));
                    poch = poch + 1;
                }
                assert(pixel.take(channels as int) =~= pixel);
                pocol = pocol + 1;
            }
            porow = porow + 1;
        }
        w
    }

    /// The accumulator or scratchpad cell of column `j` of row `i` of a
    /// move-out from `sp_addr`: row `mo_row`, column `j % DIM`.
    pub fn mvout_cell(sp_addr: u64, i: u64, j: u64) -> (rc: (u64, u64))
        requires
            i <= 0xFFFF,
            j <= 0xFFFF,
        ensures
            rc.0 == mo_row(sp_addr, i as int, j as int),
            rc.1 == j as int % (DIM as int),
    {
        proof {
            lemma_field_ranges();
        }
        ((sp_addr & 0x3FF_FFFF) + (j / 16) * 16 + i, j % 16)
    }
}

} // verus!
