//! Gemmini's move-in placement: where each element of a block read from
//! DRAM lands in the scratchpad or the accumulator, pixel repetition
//! included. Reading DRAM and scaling the elements are the caller's part:
//! the caller hands over the scaled block.
use vstd::prelude::*;
use crate::arch::gemmini::gemmini::{
    lemma_field_ranges,
    matrix_shape,
    Gemmini,
    GemminiState,
    ACCUM_ROWS,
    DIM,
    LOAD_STATES,
    SPAD_ROWS,
};

verus! {

/// The rows of a move-in's scratchpad operand.
pub open spec fn mv_rows(sp: u64) -> int {
    ((sp >> 48) & 0xFFFF) as int
}

/// The columns of a move-in's scratchpad operand.
pub open spec fn mv_cols(sp: u64) -> int {
    ((sp >> 32) & 0xFFFF) as int
}

/// The first row a move-in writes.
pub open spec fn mv_base(sp: u64) -> int {
    (sp & 0x1FFF_FFFF) as int
}

/// The move-in goes to the accumulator (bit 31).
pub open spec fn mv_to_acc(sp: u64) -> bool {
    (sp >> 31) & 1 != 0
}

/// The move-in adds to the accumulator (bit 30).
pub open spec fn mv_accumulates(sp: u64) -> bool {
    (sp >> 30) & 1 != 0
}

/// The row element (`row`, `col`) goes to: blocks of `DIM` columns are the
/// block stride apart.
pub open spec fn mv_row_of(s: GemminiState, sp: u64, id: int, row: int, col: int) -> int {
    mv_base(sp) + row + (col / 16) * s.load_block_strides@[id]
}

/// How many pixels element (`row`, `col`) is written for: up to the pixels
/// per row, and no further back than row 0.
pub open spec fn mv_pixels_of(s: GemminiState, sp: u64, id: int, row: int, col: int) -> int {
    let limit = mv_row_of(s, sp, id, row, col) + 1;
    if (s.pixels_per_rows@[id] as int) < limit {
        s.pixels_per_rows@[id] as int
    } else {
        limit
    }
}

/// Write `pixel` of element (`row`, `col`): target row, target column,
/// source row, source column.
pub open spec fn mv_write(s: GemminiState, sp: u64, id: int, row: int, col: int, pixel: int) -> (int, int, int, int) {
    (mv_row_of(s, sp, id, row, col) - pixel, col % 16 + pixel * mv_cols(sp), row, col)
}

/// The writes of the first `n` pixels of element (`row`, `col`).
pub open spec fn mv_pixel_writes(s: GemminiState, sp: u64, id: int, row: int, col: int, n: int) -> Seq<(int, int, int, int)>
    decreases n,
{
    if n <= 0 {
        Seq::empty()
    } else {
        mv_pixel_writes(s, sp, id, row, col, n - 1).push(mv_write(s, sp, id, row, col, n - 1))
    }
}

/// The writes of the first `n` elements of row `row`.
pub open spec fn mv_col_writes(s: GemminiState, sp: u64, id: int, row: int, n: int) -> Seq<(int, int, int, int)>
    decreases n,
{
    if n <= 0 {
        Seq::empty()
    } else {
        mv_col_writes(s, sp, id, row, n - 1) + mv_pixel_writes(
            s,
            sp,
            id,
            row,
            n - 1,
            mv_pixels_of(s, sp, id, row, n - 1),
        )
    }
}

/// The writes of the first `n` rows.
pub open spec fn mv_row_writes(s: GemminiState, sp: u64, id: int, n: int) -> Seq<(int, int, int, int)>
    decreases n,
{
    if n <= 0 {
        Seq::empty()
    } else {
        mv_row_writes(s, sp, id, n - 1) + mv_col_writes(s, sp, id, n - 1, mv_cols(sp))
    }
}

/// The writes of a move-in, in order.
pub open spec fn mvin_writes(s: GemminiState, sp: u64, id: int) -> Seq<(int, int, int, int)> {
    mv_row_writes(s, sp, id, mv_rows(sp))
}

/// Scratchpad cell (`r`, `c`) after the writes `ws` of block `vals` into `m`.
pub open spec fn spad_after_writes(
    m: Seq<Vec<i8>>,
    ws: Seq<(int, int, int, int)>,
    vals: Seq<Vec<i8>>,
    r: int,
    c: int,
) -> i8
    decreases ws.len(),
{
    if ws.len() == 0 {
        m[r]@[c]
    } else if ws.last().0 == r && ws.last().1 == c {
        vals[ws.last().2]@[ws.last().3]
    } else {
        spad_after_writes(m, ws.drop_last(), vals, r, c)
    }
}

/// Accumulator cell (`r`, `c`) after the writes `ws` of block `vals` into
/// `m`, each adding (wrapping) or storing.
pub open spec fn acc_after_writes(
    m: Seq<Vec<i32>>,
    ws: Seq<(int, int, int, int)>,
    vals: Seq<Vec<i8>>,
    accumulate: bool,
    r: int,
    c: int,
) -> i32
    decreases ws.len(),
{
    if ws.len() == 0 {
        m[r]@[c]
    } else {
        let prev = acc_after_writes(m, ws.drop_last(), vals, accumulate, r, c);
        if ws.last().0 == r && ws.last().1 == c {
            if accumulate {
                prev.wrapping_add(vals[ws.last().2]@[ws.last().3] as i32)
            } else {
                vals[ws.last().2]@[ws.last().3] as i32
            }
        } else {
            prev
        }
    }
}

/// The last row a move-in writes.
pub open spec fn mv_last_row(s: GemminiState, sp: u64, id: int) -> int {
    mv_base(sp) + mv_rows(sp) - 1 + ((mv_cols(sp) - 1) / 16) * s.load_block_strides@[id]
}

/// The most pixels back any element is written.
pub open spec fn mv_max_pixel(s: GemminiState, sp: u64, id: int) -> int {
    let p = s.pixels_per_rows@[id] as int - 1;
    if p < mv_last_row(s, sp, id) {
        p
    } else {
        mv_last_row(s, sp, id)
    }
}

/// Every write of a move-in stays in its memory.
pub open spec fn mvin_fits(s: GemminiState, sp: u64, id: int) -> bool {
    (mv_rows(sp) > 0 && mv_cols(sp) > 0) ==> {
        &&& mv_last_row(s, sp, id) < (if mv_to_acc(sp) {
            ACCUM_ROWS
        } else {
            SPAD_ROWS
        })
        &&& (mv_max_pixel(s, sp, id) == 0 || (mv_max_pixel(s, sp, id) + 1) * mv_cols(sp) <= 16)
    }
}

/// The DRAM address element (`row`, `col`) of a move-in reads: rows are the
/// load stride apart; modulo 2^64.
pub open spec fn mvin_source(s: GemminiState, dram_addr: u64, id: int, row: u64, col: u64) -> u64 {
    dram_addr.wrapping_add(row.wrapping_mul(s.load_strides@[id])).wrapping_add(col)
}

/// A write that misses cell (`r`, `c`) leaves what a read of it gives.
proof fn lemma_spad_write_misses(
    m: Seq<Vec<i8>>,
    ws: Seq<(int, int, int, int)>,
    w: (int, int, int, int),
    vals: Seq<Vec<i8>>,
    r: int,
    c: int,
)
    requires
        !(w.0 == r && w.1 == c),
    ensures
        spad_after_writes(m, ws.push(w), vals, r, c) == spad_after_writes(m, ws, vals, r, c),
{
    assert(ws.push(w).drop_last() =~= ws);
}

/// The writes of row `row`, one pixel each and within one block of
/// columns, miss every cell of another row.
proof fn lemma_row_writes_miss(
    s: GemminiState,
    sp: u64,
    id: int,
    m: Seq<Vec<i8>>,
    prefix: Seq<(int, int, int, int)>,
    vals: Seq<Vec<i8>>,
    row: int,
    n: int,
    r: int,
    c: int,
)
    requires
        s.pixels_per_rows@[id] == 1,
        0 <= row,
        n <= mv_cols(sp) <= 16,
        r != mv_base(sp) + row,
    ensures
        spad_after_writes(m, prefix + mv_col_writes(s, sp, id, row, n), vals, r, c) == spad_after_writes(
            m,
            prefix,
            vals,
            r,
            c,
        ),
    decreases n,
{
    if n <= 0 {
        assert(prefix + mv_col_writes(s, sp, id, row, n) =~= prefix);
    } else {
        let rest = mv_col_writes(s, sp, id, row, n - 1);
        let w = mv_write(s, sp, id, row, n - 1, 0);
        assert((n - 1) / 16 == 0);
        assert(mv_pixels_of(s, sp, id, row, n - 1) == 1);
        assert(mv_pixel_writes(s, sp, id, row, n - 1, 0) =~= Seq::<(int, int, int, int)>::empty());
        assert(mv_pixel_writes(s, sp, id, row, n - 1, 1) =~= seq![w]);
        assert(prefix + mv_col_writes(s, sp, id, row, n) =~= (prefix + rest).push(w));
        lemma_spad_write_misses(m, prefix + rest, w, vals, r, c);
        lemma_row_writes_miss(s, sp, id, m, prefix, vals, row, n - 1, r, c);
    }
}

/// Within row `row`, the write of column `c0` is the last to cell
/// (`base + row`, `c0`).
proof fn lemma_col_writes_hit(
    s: GemminiState,
    sp: u64,
    id: int,
    m: Seq<Vec<i8>>,
    prefix: Seq<(int, int, int, int)>,
    vals: Seq<Vec<i8>>,
    row: int,
    n: int,
    c0: int,
)
    requires
        s.pixels_per_rows@[id] == 1,
        0 <= row,
        0 <= c0 < n <= mv_cols(sp) <= 16,
    ensures
        spad_after_writes(m, prefix + mv_col_writes(s, sp, id, row, n), vals, mv_base(sp) + row, c0)
            == vals[row]@[c0],
    decreases n,
{
    let rest = mv_col_writes(s, sp, id, row, n - 1);
    let w = mv_write(s, sp, id, row, n - 1, 0);
    assert((n - 1) / 16 == 0);
    assert(mv_pixels_of(s, sp, id, row, n - 1) == 1);
    assert(mv_pixel_writes(s, sp, id, row, n - 1, 0) =~= Seq::<(int, int, int, int)>::empty());
    assert(mv_pixel_writes(s, sp, id, row, n - 1, 1) =~= seq![w]);
    assert(prefix + mv_col_writes(s, sp, id, row, n) =~= (prefix + rest).push(w));
    if n - 1 > c0 {
        lemma_spad_write_misses(m, prefix + rest, w, vals, mv_base(sp) + row, c0);
        lemma_col_writes_hit(s, sp, id, m, prefix, vals, row, n - 1, c0);
    } else {
        assert(0 * s.load_block_strides@[id] == 0);
        assert(mv_row_of(s, sp, id, row, c0) == mv_base(sp) + row);
    }
}

/// The rows before `n` hold their elements once written.
proof fn lemma_rows_hit(
    s: GemminiState,
    sp: u64,
    id: int,
    m: Seq<Vec<i8>>,
    vals: Seq<Vec<i8>>,
    n: int,
    r0: int,
    c0: int,
)
    requires
        s.pixels_per_rows@[id] == 1,
        mv_cols(sp) <= 16,
        0 <= r0 < n,
        0 <= c0 < mv_cols(sp),
    ensures
        spad_after_writes(m, mv_row_writes(s, sp, id, n), vals, mv_base(sp) + r0, c0) == vals[r0]@[c0],
    decreases n,
{
    let before = mv_row_writes(s, sp, id, n - 1);
    if n - 1 == r0 {
        lemma_col_writes_hit(s, sp, id, m, before, vals, r0, mv_cols(sp), c0);
    } else {
        lemma_row_writes_miss(s, sp, id, m, before, vals, n - 1, mv_cols(sp), mv_base(sp) + r0, c0);
        lemma_rows_hit(s, sp, id, m, vals, n - 1, r0, c0);
    }
}

/// A move-in that repeats no pixel and stays within one block of columns
/// puts element (`r`, `c`) of the block at row `base + r`, column `c`.
pub proof fn lemma_mvin_places_block(
    s: GemminiState,
    sp: u64,
    id: int,
    m: Seq<Vec<i8>>,
    vals: Seq<Vec<i8>>,
    r: int,
    c: int,
)
    requires
        s.pixels_per_rows@[id] == 1,
        mv_cols(sp) <= DIM,
        0 <= r < mv_rows(sp),
        0 <= c < mv_cols(sp),
    ensures
        spad_after_writes(m, mvin_writes(s, sp, id), vals, mv_base(sp) + r, c) == vals[r]@[c],
{
    lemma_rows_hit(s, sp, id, m, vals, mv_rows(sp), r, c);
}

/// A write of element (`row`, `col`) lands inside its memory.
proof fn lemma_write_in_range(s: GemminiState, sp: u64, id: int, row: int, col: int, pixel: int)
    requires
        s.wf(),
        0 <= id < LOAD_STATES,
        mvin_fits(s, sp, id),
        0 <= row < mv_rows(sp),
        0 <= col < mv_cols(sp),
        0 <= pixel < mv_pixels_of(s, sp, id, row, col),
    ensures
        0 <= mv_write(s, sp, id, row, col, pixel).0 <= mv_last_row(s, sp, id),
        0 <= mv_write(s, sp, id, row, col, pixel).1 < DIM,
{
    let bs = s.load_block_strides@[id] as int;
    let cols = mv_cols(sp);
    assert((col / 16) * bs <= ((cols - 1) / 16) * bs) by (nonlinear_arith)
        requires
            0 <= col <= cols - 1,
            bs >= 0,
    ;
    assert(0 <= col % 16 <= col);
    if pixel >= 1 {
        let mp = mv_max_pixel(s, sp, id);
        assert(pixel <= mp);
        assert(pixel * cols <= mp * cols) by (nonlinear_arith)
            requires
                pixel <= mp,
                cols >= 0,
        ;
        assert((mp + 1) * cols == mp * cols + cols) by (nonlinear_arith);
    } else {
        assert(pixel * cols == 0) by (nonlinear_arith)
            requires
                pixel == 0,
        ;
    }
}

impl GemminiState {
    /// Performs the writes of a move-in of `data` into the scratchpad.
    fn mvin_spad(&mut self, sp: u64, id: usize, data: &Vec<Vec<i8>>)
        requires
            old(self).wf(),
            id < LOAD_STATES,
            !mv_to_acc(sp),
            mvin_fits(*old(self), sp, id as int),
            matrix_shape(data@, mv_rows(sp) as nat, mv_cols(sp) as nat),
        ensures
            final(self).wf(),
            forall|r: int, c: int|
                0 <= r < SPAD_ROWS && 0 <= c < DIM ==> #[trigger] final(self).spad@[r]@[c] == spad_after_writes(
                    old(self).spad@,
                    mvin_writes(*old(self), sp, id as int),
                    data@,
                    r,
                    c,
                ),
            *final(self) == (GemminiState { spad: final(self).spad, ..*old(self) }),
    {
        proof {
            lemma_field_ranges();
        }
        let ghost s0 = *self;
        assert(sp & 0x1FFF_FFFF <= 0x1FFF_FFFF);
        let base = (sp & 0x1FFF_FFFF) as u64;
        let rows = ((sp >> 48) & 0xFFFF) as u64;
        let cols = ((sp >> 32) & 0xFFFF) as u64;
        let bs = self.load_block_strides[id] as u64;
        let ppr = self.pixels_per_rows[id] as u64;
        let mut row: u64 = 0;
        while row < rows
            invariant
                s0.wf(),
                self.wf(),
                id < LOAD_STATES,
                !mv_to_acc(sp),
                mvin_fits(s0, sp, id as int),
                base == mv_base(sp),
                rows == mv_rows(sp),
                cols == mv_cols(sp),
                rows <= 0xFFFF && cols <= 0xFFFF && base <= 0x1FFF_FFFF && bs <= 0xFFFF && ppr <= 0xFF,
                bs == s0.load_block_strides@[id as int],
                ppr == s0.pixels_per_rows@[id as int],
                matrix_shape(data@, rows as nat, cols as nat),
                row <= rows,
                *self == (GemminiState { spad: self.spad, ..s0 }),
                forall|r: int, c: int|
                    0 <= r < SPAD_ROWS && 0 <= c < DIM ==> #[trigger] self.spad@[r]@[c] == spad_after_writes(
                        s0.spad@,
                        mv_row_writes(s0, sp, id as int, row as int),
                        data@,
                        r,
                        c,
                    ),
            decreases rows - row,
        {
            let mut col: u64 = 0;
            while col < cols
                invariant
                    s0.wf(),
                    self.wf(),
                    id < LOAD_STATES,
                    !mv_to_acc(sp),
                    mvin_fits(s0, sp, id as int),
                    base == mv_base(sp),
                    rows == mv_rows(sp),
                    cols == mv_cols(sp),
                    rows <= 0xFFFF && cols <= 0xFFFF && base <= 0x1FFF_FFFF && bs <= 0xFFFF && ppr <= 0xFF,
                    bs == s0.load_block_strides@[id as int],
                    ppr == s0.pixels_per_rows@[id as int],
                    matrix_shape(data@, rows as nat, cols as nat),
                    row < rows,
                    col <= cols,
                    *self == (GemminiState { spad: self.spad, ..s0 }),
                    forall|r: int, c: int|
                        0 <= r < SPAD_ROWS && 0 <= c < DIM ==> #[trigger] self.spad@[r]@[c] == spad_after_writes(
                            s0.spad@,
                            mv_row_writes(s0, sp, id as int, row as int) + mv_col_writes(
                                s0,
                                sp,
                                id as int,
                                row as int,
                                col as int,
                            ),
                            data@,
                            r,
                            c,
                        ),
                decreases cols - col,
            {
                assert((col / 16) * bs <= 0xFFF * 0xFFFF) by (nonlinear_arith)
                    requires
                        col / 16 <= 0xFFF,
                        bs <= 0xFFFF,
                ;
                let spad_row = base + row + (col / 16) * bs;
                let n = if ppr < spad_row + 1 {
                    ppr
                } else {
                    spad_row + 1
                };
                let value = data[row as usize][col as usize];
                let ghost prefix = mv_row_writes(s0, sp, id as int, row as int) + mv_col_writes(
                    s0,
                    sp,
                    id as int,
                    row as int,
                    col as int,
                );
                let mut pixel: u64 = 0;
                while pixel < n
                    invariant
                        s0.wf(),
                        self.wf(),
                        id < LOAD_STATES,
                        mvin_fits(s0, sp, id as int),
                        cols == mv_cols(sp),
                        row < rows == mv_rows(sp),
                        col < cols,
                        spad_row == mv_row_of(s0, sp, id as int, row as int, col as int),
                        n == mv_pixels_of(s0, sp, id as int, row as int, col as int),
                        matrix_shape(data@, rows as nat, cols as nat),
                        value == data@[row as int]@[col as int],
                        pixel <= n,
                        *self == (GemminiState { spad: self.spad, ..s0 }),
                        forall|r: int, c: int|
                            0 <= r < SPAD_ROWS && 0 <= c < DIM ==> #[trigger] self.spad@[r]@[c]
                                == spad_after_writes(
                                s0.spad@,
                                prefix + mv_pixel_writes(s0, sp, id as int, row as int, col as int, pixel as int),
                                data@,
                                r,
                                c,
                            ),
                    decreases n - pixel,
                {
                    proof {
                        lemma_write_in_range(s0, sp, id as int, row as int, col as int, pixel as int);
                    }
                    let ghost w = mv_write(s0, sp, id as int, row as int, col as int, pixel as int);
                    let ghost ws = prefix + mv_pixel_writes(s0, sp, id as int, row as int, col as int, pixel as int);
                    let tr = (spad_row - pixel) as usize;
                    let tc = (col % 16 + pixel * cols) as usize;
                    assert(tr == w.0 && tc == w.1);
                    let mut r: Vec<i8> = Vec::new();
                    std::mem::swap(&mut r, &mut self.spad[tr]);
                    r.set(tc, value);
                    self.spad.set(tr, r);
                    assert(ws.push(w).drop_last() =~= ws);
                    assert(prefix + mv_pixel_writes(s0, sp, id as int, row as int, col as int, pixel + 1)
                        =~= ws.push(w));
                    pixel = pixel + 1;
                }
                assert(mv_row_writes(s0, sp, id as int, row as int) + mv_col_writes(
                    s0,
                    sp,
                    id as int,
                    row as int,
                    col + 1,
                ) =~= prefix + mv_pixel_writes(s0, sp, id as int, row as int, col as int, n as int));
                col = col + 1;
            }
            assert(mv_row_writes(s0, sp, id as int, row + 1) =~= mv_row_writes(s0, sp, id as int, row as int)
                + mv_col_writes(s0, sp, id as int, row as int, cols as int));
            row = row + 1;
        }
    }

    /// Performs the writes of a move-in of `data` into the accumulator.
    fn mvin_acc(&mut self, sp: u64, id: usize, data: &Vec<Vec<i8>>)
        requires
            old(self).wf(),
            id < LOAD_STATES,
            mv_to_acc(sp),
            mvin_fits(*old(self), sp, id as int),
            matrix_shape(data@, mv_rows(sp) as nat, mv_cols(sp) as nat),
        ensures
            final(self).wf(),
            forall|r: int, c: int|
                0 <= r < ACCUM_ROWS && 0 <= c < DIM ==> #[trigger] final(self).accumulator@[r]@[c] == acc_after_writes(
                    old(self).accumulator@,
                    mvin_writes(*old(self), sp, id as int),
                    data@,
                    mv_accumulates(sp),
                    r,
                    c,
                ),
            *final(self) == (GemminiState { accumulator: final(self).accumulator, ..*old(self) }),
    {
        proof {
            lemma_field_ranges();
        }
        let ghost s0 = *self;
        assert(sp & 0x1FFF_FFFF <= 0x1FFF_FFFF);
        let base = (sp & 0x1FFF_FFFF) as u64;
        let rows = ((sp >> 48) & 0xFFFF) as u64;
        let cols = ((sp >> 32) & 0xFFFF) as u64;
        let bs = self.load_block_strides[id] as u64;
        let ppr = self.pixels_per_rows[id] as u64;
        let accumulate = (sp >> 30) & 1 != 0;
        let mut row: u64 = 0;
        while row < rows
            invariant
                s0.wf(),
                self.wf(),
                id < LOAD_STATES,
                mv_to_acc(sp),
                mvin_fits(s0, sp, id as int),
                accumulate == mv_accumulates(sp),
                base == mv_base(sp),
                rows == mv_rows(sp),
                cols == mv_cols(sp),
                rows <= 0xFFFF && cols <= 0xFFFF && base <= 0x1FFF_FFFF && bs <= 0xFFFF && ppr <= 0xFF,
                bs == s0.load_block_strides@[id as int],
                ppr == s0.pixels_per_rows@[id as int],
                matrix_shape(data@, rows as nat, cols as nat),
                row <= rows,
                *self == (GemminiState { accumulator: self.accumulator, ..s0 }),
                forall|r: int, c: int|
                    0 <= r < ACCUM_ROWS && 0 <= c < DIM ==> #[trigger] self.accumulator@[r]@[c] == acc_after_writes(
                        s0.accumulator@,
                        mv_row_writes(s0, sp, id as int, row as int),
                        data@,
                        mv_accumulates(sp),
                        r,
                        c,
                    ),
            decreases rows - row,
        {
            let mut col: u64 = 0;
            while col < cols
                invariant
                    s0.wf(),
                    self.wf(),
                    id < LOAD_STATES,
                    mv_to_acc(sp),
                    mvin_fits(s0, sp, id as int),
                accumulate == mv_accumulates(sp),
                    base == mv_base(sp),
                    rows == mv_rows(sp),
                    cols == mv_cols(sp),
                    rows <= 0xFFFF && cols <= 0xFFFF && base <= 0x1FFF_FFFF && bs <= 0xFFFF && ppr <= 0xFF,
                    bs == s0.load_block_strides@[id as int],
                    ppr == s0.pixels_per_rows@[id as int],
                    matrix_shape(data@, rows as nat, cols as nat),
                    row < rows,
                    col <= cols,
                    *self == (GemminiState { accumulator: self.accumulator, ..s0 }),
                    forall|r: int, c: int|
                        0 <= r < ACCUM_ROWS && 0 <= c < DIM ==> #[trigger] self.accumulator@[r]@[c] == acc_after_writes(
                            s0.accumulator@,
                            mv_row_writes(s0, sp, id as int, row as int) + mv_col_writes(
                                s0,
                                sp,
                                id as int,
                                row as int,
                                col as int,
                            ),
                            data@,
                            mv_accumulates(sp),
                            r,
                            c,
                        ),
                decreases cols - col,
            {
                assert((col / 16) * bs <= 0xFFF * 0xFFFF) by (nonlinear_arith)
                    requires
                        col / 16 <= 0xFFF,
                        bs <= 0xFFFF,
                ;
                let spad_row = base + row + (col / 16) * bs;
                let n = if ppr < spad_row + 1 {
                    ppr
                } else {
                    spad_row + 1
                };
                let value = data[row as usize][col as usize];
                let ghost prefix = mv_row_writes(s0, sp, id as int, row as int) + mv_col_writes(
                    s0,
                    sp,
                    id as int,
                    row as int,
                    col as int,
                );
                let mut pixel: u64 = 0;
                while pixel < n
                    invariant
                        s0.wf(),
                        self.wf(),
                        id < LOAD_STATES,
                        mvin_fits(s0, sp, id as int),
                        mv_to_acc(sp),
                        accumulate == mv_accumulates(sp),
                        cols == mv_cols(sp),
                        row < rows == mv_rows(sp),
                        col < cols,
                        spad_row == mv_row_of(s0, sp, id as int, row as int, col as int),
                        n == mv_pixels_of(s0, sp, id as int, row as int, col as int),
                        matrix_shape(data@, rows as nat, cols as nat),
                        value == data@[row as int]@[col as int],
                        pixel <= n,
                        *self == (GemminiState { accumulator: self.accumulator, ..s0 }),
                        forall|r: int, c: int|
                            0 <= r < ACCUM_ROWS && 0 <= c < DIM ==> #[trigger] self.accumulator@[r]@[c]
                                == acc_after_writes(
                                s0.accumulator@,
                                prefix + mv_pixel_writes(s0, sp, id as int, row as int, col as int, pixel as int),
                                data@,
                                mv_accumulates(sp),
                                r,
                                c,
                            ),
                    decreases n - pixel,
                {
                    proof {
                        lemma_write_in_range(s0, sp, id as int, row as int, col as int, pixel as int);
                    }
                    let ghost w = mv_write(s0, sp, id as int, row as int, col as int, pixel as int);
                    let ghost ws = prefix + mv_pixel_writes(s0, sp, id as int, row as int, col as int, pixel as int);
                    let tr = (spad_row - pixel) as usize;
                    let tc = (col % 16 + pixel * cols) as usize;
                    assert(tr == w.0 && tc == w.1);
                    let nv: i32 = if accumulate {
                        self.accumulator[tr][tc].wrapping_add(value as i32)
                    } else {
                        value as i32
                    };
                    let mut r: Vec<i32> = Vec::new();
                    std::mem::swap(&mut r, &mut self.accumulator[tr]);
                    r.set(tc, nv);
                    self.accumulator.set(tr, r);
                    assert(ws.push(w).drop_last() =~= ws);
                    assert(prefix + mv_pixel_writes(s0, sp, id as int, row as int, col as int, pixel + 1)
                        =~= ws.push(w));
                    pixel = pixel + 1;
                }
                assert(mv_row_writes(s0, sp, id as int, row as int) + mv_col_writes(
                    s0,
                    sp,
                    id as int,
                    row as int,
                    col + 1,
                ) =~= prefix + mv_pixel_writes(s0, sp, id as int, row as int, col as int, n as int));
                col = col + 1;
            }
            assert(mv_row_writes(s0, sp, id as int, row + 1) =~= mv_row_writes(s0, sp, id as int, row as int)
                + mv_col_writes(s0, sp, id as int, row as int, cols as int));
            row = row + 1;
        }
    }
}


impl Gemmini {
    /// Stores a move-in's block `data`, already read from DRAM and scaled,
    /// at the scratchpad operand `sp_addr` with load configuration
    /// `state_id`: into the accumulator (adding or storing) or the
    /// scratchpad, each element once per pixel (see `mvin_writes`).
    pub fn mvin(&mut self, sp_addr: u64, state_id: usize, data: &Vec<Vec<i8>>)
        requires
            old(self).wf(),
            state_id < LOAD_STATES,
            mvin_fits(old(self).state, sp_addr, state_id as int),
            matrix_shape(data@, mv_rows(sp_addr) as nat, mv_cols(sp_addr) as nat),
        ensures
            final(self).wf(),
            mv_to_acc(sp_addr) ==> {
                &&& forall|r: int, c: int|
                    0 <= r < ACCUM_ROWS && 0 <= c < DIM ==> #[trigger] final(self).state.accumulator@[r]@[c]
                        == acc_after_writes(
                        old(self).state.accumulator@,
                        mvin_writes(old(self).state, sp_addr, state_id as int),
                        data@,
                        mv_accumulates(sp_addr),
                        r,
                        c,
                    )
                &&& final(self).state == (GemminiState {
                    accumulator: final(self).state.accumulator,
                    ..old(self).state
                })
            },
            !mv_to_acc(sp_addr) ==> {
                &&& forall|r: int, c: int|
                    0 <= r < SPAD_ROWS && 0 <= c < DIM ==> #[trigger] final(self).state.spad@[r]@[c]
                        == spad_after_writes(
                        old(self).state.spad@,
                        mvin_writes(old(self).state, sp_addr, state_id as int),
                        data@,
                        r,
                        c,
                    )
                &&& final(self).state == (GemminiState { spad: final(self).state.spad, ..old(self).state })
            },
    {
        if (sp_addr >> 31) & 1 != 0 {
            self.state.mvin_acc(sp_addr, state_id, data);
        } else {
            self.state.mvin_spad(sp_addr, state_id, data);
        }
    }

    /// The DRAM address element (`row`, `col`) of a move-in from
    /// `dram_addr` with load configuration `state_id` reads.
    pub fn mvin_source_addr(&self, dram_addr: u64, state_id: usize, row: u64, col: u64) -> (a: u64)
        requires
            self.wf(),
            state_id < LOAD_STATES,
        ensures
            a == mvin_source(self.state, dram_addr, state_id as int, row, col),
    {
        dram_addr.wrapping_add(row.wrapping_mul(self.state.load_strides[state_id])).wrapping_add(col)
    }

    /// Whether a move-in to `sp_addr` with load configuration `state_id`
    /// stays in its memory.
    pub fn mvin_in_range(&self, sp_addr: u64, state_id: usize) -> (ok: bool)
        requires
            self.wf(),
        ensures
            ok == (state_id < LOAD_STATES && mvin_fits(self.state, sp_addr, state_id as int)),
    {
        proof {
            lemma_field_ranges();
        }
        if state_id >= LOAD_STATES {
            return false;
        }
        assert(sp_addr & 0x1FFF_FFFF <= 0x1FFF_FFFF);
        let rows = (sp_addr >> 48) & 0xFFFF;
        let cols = (sp_addr >> 32) & 0xFFFF;
        if rows == 0 || cols == 0 {
            return true;
        }
        let base = sp_addr & 0x1FFF_FFFF;
        let bs = self.state.load_block_strides[state_id] as u64;
        assert(((cols - 1) / 16) * bs <= 0xFFF * 0xFFFF) by (nonlinear_arith)
            requires
                (cols - 1) / 16 <= 0xFFF,
                bs <= 0xFFFF,
        ;
        let last_row = base + rows - 1 + ((cols - 1) / 16) * bs;
        let limit: u64 = if (sp_addr >> 31) & 1 != 0 {
            ACCUM_ROWS as u64
        } else {
            SPAD_ROWS as u64
        };
        let ppr = self.state.pixels_per_rows[state_id] as u64;
        let cols_ok = if ppr == 0 {
            assert(mv_max_pixel(self.state, sp_addr, state_id as int) == -1);
            assert((mv_max_pixel(self.state, sp_addr, state_id as int) + 1) * mv_cols(sp_addr) == 0)
                by (nonlinear_arith)
                requires
                    mv_max_pixel(self.state, sp_addr, state_id as int) == -1,
            ;
            true
        } else {
            let p = ppr - 1;
            let max_pixel = if p < last_row {
                p
            } else {
                last_row
            };
            if max_pixel >= 16 {
                assert((max_pixel + 1) * cols > 16) by (nonlinear_arith)
                    requires
                        max_pixel >= 16,
                        cols >= 1,
                ;
                max_pixel == 0
            } else {
                assert((max_pixel + 1) * cols <= 16 * 0xFFFF) by (nonlinear_arith)
                    requires
                        max_pixel < 16,
                        cols <= 0xFFFF,
                ;
                max_pixel == 0 || (max_pixel + 1) * cols <= 16
            }
        };
        last_row < limit && cols_ok
    }
}

} // verus!
