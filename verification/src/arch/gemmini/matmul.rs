//! Gemmini's `compute`: one `DIM` by `DIM` tile of a matrix product on the
//! systolic array, in either dataflow, and the write of that tile to the
//! accumulator or, shifted and activated, to the scratchpad.
//!
//! Products and sums are those of the array's 32-bit registers: they wrap.
use vstd::prelude::*;
use crate::arch::gemmini::loops::operand;
use crate::arch::gemmini::gemmini::{
    lemma_field_ranges,
    matrix_shape,
    Dataflow,
    Gemmini,
    GemminiState,
    ACCUM_ROWS,
    DIM,
    SPAD_ROWS,
};
use crate::arch::gemmini::datapath::{activated, rounded_shift, saturate_i8};

verus! {

/// The all-ones scratchpad address, which stands for "no operand".
pub open spec fn no_addr(addr: u32) -> bool {
    addr == 0xFFFF_FFFF
}

/// The scratchpad address of an operand register.
pub open spec fn operand_addr(x: u64) -> u32 {
    (x & 0xFFFF_FFFF) as u32
}

/// Reading an operand register gives back the rows, the columns and the
/// address it was built with.
pub proof fn lemma_operand_round_trip(rows: u64, cols: u64, addr: u32)
    requires
        rows <= 0xFFFF,
        cols <= 0xFFFF,
    ensures
        operand_rows(operand(rows, cols, addr)) == rows,
        operand_cols(operand(rows, cols, addr)) == cols,
        operand_addr(operand(rows, cols, addr)) == addr,
{
    let a = addr as u64;
    let x = operand(rows, cols, addr);
    assert(x == (rows << 48u64) | (cols << 32u64) | a);
    assert(((((rows << 48u64) | (cols << 32u64) | a) >> 48u64) & 0xFFFFu64) == rows
        && ((((rows << 48u64) | (cols << 32u64) | a) >> 32u64) & 0xFFFFu64) == cols
        && (((rows << 48u64) | (cols << 32u64) | a) & 0xFFFF_FFFFu64) == a) by (bit_vector)
        requires
            rows <= 0xFFFFu64,
            cols <= 0xFFFFu64,
            a <= 0xFFFF_FFFFu64,
    ;
}

/// The column count of an operand register.
pub open spec fn operand_cols(x: u64) -> int {
    ((x >> 32) & 0xFFFF) as int
}

/// The row count of an operand register.
pub open spec fn operand_rows(x: u64) -> int {
    ((x >> 48) & 0xFFFF) as int
}

/// `x`, but at most `DIM`.
pub open spec fn min_dim(x: int) -> int {
    if x < DIM {
        x
    } else {
        DIM as int
    }
}

/// Element (`i`, `k`) of the A operand: zero outside its rows and columns
/// or without an address, else read at the A stride, transposed if set.
pub open spec fn a_elem(s: GemminiState, a: u64, i: int, k: int) -> i8 {
    let base = operand_addr(a);
    if !no_addr(base) && i < operand_rows(a) && k < operand_cols(a) {
        let r = (if s.a_transpose {
            k
        } else {
            i
        }) * s.a_stride;
        let c = if s.a_transpose {
            i
        } else {
            k
        };
        s.spad@[base + r]@[c]
    } else {
        0
    }
}

/// Element (`k`, `j`) of the B operand of the output-stationary dataflow.
pub open spec fn b_elem(s: GemminiState, bd: u64, k: int, j: int) -> i8 {
    let base = operand_addr(bd);
    if !no_addr(base) && k < operand_rows(bd) && j < operand_cols(bd) {
        if s.b_transpose {
            s.spad@[base + j]@[k]
        } else {
            s.spad@[base + k]@[j]
        }
    } else {
        0
    }
}

/// Without transposes and at a unit A stride, the B operand is read as the
/// A operand is: element (`k`, `j`) is column `j` of the `k`-th row after
/// the operand's address.
pub proof fn lemma_b_reads_like_a(s: GemminiState, x: u64, k: int, j: int)
    requires
        !s.a_transpose,
        !s.b_transpose,
        s.a_stride == 1,
    ensures
        b_elem(s, x, k, j) == a_elem(s, x, k, j),
{
}

/// With B transposed, a square B operand is read as the transpose of the
/// stored matrix: element (`k`, `j`) is the untransposed element (`j`,
/// `k`).
pub proof fn lemma_b_transpose_swaps(s: GemminiState, x: u64, k: int, j: int)
    requires
        s.b_transpose,
        operand_rows(x) == operand_cols(x),
    ensures
        b_elem(s, x, k, j) == b_elem(GemminiState { b_transpose: false, ..s }, x, j, k),
{
}

/// With A transposed, a square A operand at a unit stride is read as the
/// transpose of the stored matrix.
pub proof fn lemma_a_transpose_swaps(s: GemminiState, x: u64, i: int, k: int)
    requires
        s.a_transpose,
        s.a_stride == 1,
        operand_rows(x) == operand_cols(x),
    ensures
        a_elem(s, x, i, k) == a_elem(GemminiState { a_transpose: false, ..s }, x, k, i),
{
}

/// In the weight-stationary dataflow with B transposed, a square preload
/// is taken as the transpose of the stored matrix.
pub proof fn lemma_preload_transpose_swaps(s: GemminiState, i: int, j: int)
    requires
        s.mode == Dataflow::WS,
        s.b_transpose,
        s.preload_rows == s.preload_cols,
    ensures
        preload_elem(s, i, j) == preload_elem(GemminiState { b_transpose: false, ..s }, j, i),
{
}

/// Element (`i`, `j`) of the D (bias) operand of the weight-stationary
/// dataflow.
pub open spec fn d_elem(s: GemminiState, bd: u64, i: int, j: int) -> i32 {
    let base = operand_addr(bd);
    if !no_addr(base) && i < operand_rows(bd) && j < operand_cols(bd) {
        s.spad@[base + i]@[j] as i32
    } else {
        0
    }
}

/// Element (`i`, `j`) that a preload puts into the array: transposed for
/// a weight-stationary transposed B.
pub open spec fn preload_elem(s: GemminiState, i: int, j: int) -> i32 {
    let base = s.preload_sp_addr;
    if !no_addr(base) && i < s.preload_rows && j < s.preload_cols {
        if s.mode == Dataflow::WS && s.b_transpose {
            s.spad@[base + j]@[i] as i32
        } else {
            s.spad@[base + i]@[j] as i32
        }
    } else {
        0
    }
}

/// Untransposed, a preload takes the rows and columns the bias operand of
/// the same address and shape would give.
pub proof fn lemma_preload_reads_like_bias(s: GemminiState, x: u64, i: int, j: int)
    requires
        !s.b_transpose,
        s.preload_sp_addr == operand_addr(x),
        s.preload_rows == operand_rows(x),
        s.preload_cols == operand_cols(x),
    ensures
        preload_elem(s, i, j) == d_elem(s, x, i, j),
{
}

/// The array's register (`i`, `j`) once the optional preload is done.
pub open spec fn stationary(s: GemminiState, preload: bool, i: int, j: int) -> i32 {
    if preload {
        preload_elem(s, i, j)
    } else {
        s.pe_state@[i]@[j]
    }
}

/// `init` plus the `terms`, in order, in wrapping 32-bit arithmetic.
pub open spec fn wrapping_sum(init: i32, terms: Seq<i32>) -> i32
    decreases terms.len(),
{
    if terms.len() == 0 {
        init
    } else {
        wrapping_sum(init, terms.drop_last()).wrapping_add(terms.last())
    }
}

/// The products A(i, k) B(k, j) over k.
pub open spec fn os_terms(s: GemminiState, a: u64, bd: u64, i: int, j: int) -> Seq<i32> {
    Seq::new(DIM as nat, |k: int| ((a_elem(s, a, i, k) as int) * (b_elem(s, bd, k, j) as int)) as i32)
}

/// The products A(i, k) W(k, j) over k, W the stationary weights.
pub open spec fn ws_terms(s: GemminiState, a: u64, preload: bool, i: int, j: int) -> Seq<i32> {
    Seq::new(
        DIM as nat,
        |k: int| (a_elem(s, a, i, k) as i32).wrapping_mul(stationary(s, preload, k, j)),
    )
}

/// Register (`i`, `j`) of the array after `compute`: the stationary output
/// accumulates A B in the output-stationary dataflow; the stationary weights
/// stay in the weight-stationary one.
pub open spec fn pe_after(s: GemminiState, a: u64, bd: u64, preload: bool, i: int, j: int) -> i32 {
    if s.mode == Dataflow::OS {
        wrapping_sum(stationary(s, preload, i, j), os_terms(s, a, bd, i, j))
    } else {
        stationary(s, preload, i, j)
    }
}

/// Element (`i`, `j`) of the tile that `compute` outputs: the array's
/// registers in the output-stationary dataflow, D + A W in the
/// weight-stationary one.
pub open spec fn tile_out(s: GemminiState, a: u64, bd: u64, preload: bool, i: int, j: int) -> i32 {
    if s.mode == Dataflow::OS {
        pe_after(s, a, bd, preload, i, j)
    } else {
        wrapping_sum(d_elem(s, bd, i, j), ws_terms(s, a, preload, i, j))
    }
}

/// The output tile as a function.
pub open spec fn tile_fn(s: GemminiState, a: u64, bd: u64, preload: bool) -> spec_fn(int, int) -> i32 {
    |i: int, j: int| tile_out(s, a, bd, preload, i, j)
}

/// The output goes to the accumulator (bit 31 of its address).
pub open spec fn out_to_acc(s: GemminiState) -> bool {
    (s.output_sp_addr >> 31) & 1 != 0
}

/// The output adds to the accumulator (bit 30 of its address).
pub open spec fn out_accumulates(s: GemminiState) -> bool {
    (s.output_sp_addr >> 30) & 1 != 0
}

/// The row that output row `i` goes to.
pub open spec fn out_row(s: GemminiState, i: int) -> int {
    (s.output_sp_addr & 0x1FFF_FFFF) as int + s.c_stride * i
}

/// The shift applied on the way to the scratchpad.
pub open spec fn out_shift(s: GemminiState) -> i32 {
    if s.mode == Dataflow::OS {
        s.sys_shift as i32
    } else {
        0
    }
}

/// The byte an output word becomes in the scratchpad: shifted, saturated
/// and activated.
pub open spec fn out_byte(s: GemminiState, v: i32) -> i8 {
    activated(saturate_i8(rounded_shift(v, out_shift(s))), s.sys_act)
}

/// Output row `i` is written, and to the accumulator (`to_acc`) or to the
/// scratchpad.
pub open spec fn writes_row(s: GemminiState, to_acc: bool, i: int, r: int, c: int) -> bool {
    &&& !no_addr(s.output_sp_addr)
    &&& out_to_acc(s) == to_acc
    &&& out_row(s, i) == r
    &&& c < s.output_cols
}

/// Accumulator cell (`r`, `c`) after the first `n` output rows of `vals`
/// are written, in order.
pub open spec fn acc_cell(s: GemminiState, vals: spec_fn(int, int) -> i32, r: int, c: int, n: nat) -> i32
    decreases n,
{
    if n == 0 {
        s.accumulator@[r]@[c]
    } else {
        let prev = acc_cell(s, vals, r, c, (n - 1) as nat);
        if writes_row(s, true, n - 1, r, c) {
            if out_accumulates(s) {
                prev.wrapping_add(vals(n - 1, c))
            } else {
                vals(n - 1, c)
            }
        } else {
            prev
        }
    }
}

/// Scratchpad cell (`r`, `c`) after the first `n` output rows of `vals`
/// are written, in order.
pub open spec fn spad_cell(s: GemminiState, vals: spec_fn(int, int) -> i32, r: int, c: int, n: nat) -> i8
    decreases n,
{
    if n == 0 {
        s.spad@[r]@[c]
    } else if writes_row(s, false, n - 1, r, c) {
        out_byte(s, vals(n - 1, c))
    } else {
        spad_cell(s, vals, r, c, (n - 1) as nat)
    }
}

/// The preload's reads stay in the scratchpad.
pub open spec fn preload_fits(s: GemminiState) -> bool {
    (!no_addr(s.preload_sp_addr) && s.preload_rows > 0 && s.preload_cols > 0) ==> s.preload_sp_addr
        + (if s.mode == Dataflow::WS && s.b_transpose {
        min_dim(s.preload_cols as int)
    } else {
        min_dim(s.preload_rows as int)
    }) <= SPAD_ROWS
}

/// The reads of the B or D operand stay in the scratchpad.
pub open spec fn bd_fits(s: GemminiState, bd: u64) -> bool {
    (!no_addr(operand_addr(bd)) && operand_rows(bd) > 0 && operand_cols(bd) > 0) ==> {
        &&& operand_addr(bd) + min_dim(operand_rows(bd)) <= SPAD_ROWS
        &&& (s.mode == Dataflow::OS && s.b_transpose) ==> operand_addr(bd) + min_dim(
            operand_cols(bd),
        ) <= SPAD_ROWS
    }
}

/// The reads of the A operand stay in the scratchpad.
pub open spec fn a_fits(s: GemminiState, a: u64) -> bool {
    (!no_addr(operand_addr(a)) && operand_rows(a) > 0 && operand_cols(a) > 0) ==> operand_addr(a)
        + (min_dim(
        if s.a_transpose {
            operand_cols(a)
        } else {
            operand_rows(a)
        },
    ) - 1) * s.a_stride < SPAD_ROWS
}

/// The output tile fits the array and its rows stay in the memory they go
/// to; a shift on the way to the scratchpad is below 32 either way.
pub open spec fn output_fits(s: GemminiState) -> bool {
    (!no_addr(s.output_sp_addr) && s.output_rows > 0 && s.output_cols > 0) ==> {
        &&& s.output_rows <= DIM
        &&& s.output_cols <= DIM
        &&& out_row(s, s.output_rows - 1) < (if out_to_acc(s) {
            ACCUM_ROWS
        } else {
            SPAD_ROWS
        })
        &&& !out_to_acc(s) ==> -32 < out_shift(s) < 32
    }
}

/// Every read and write of `compute` stays in its memory.
pub open spec fn compute_fits(s: GemminiState, a: u64, bd: u64, preload: bool) -> bool {
    &&& preload ==> preload_fits(s)
    &&& bd_fits(s, bd)
    &&& a_fits(s, a)
    &&& output_fits(s)
}

/// Range of an operand register's fields.
proof fn lemma_operand_fields(x: u64)
    ensures
        operand_rows(x) <= 0xFFFF,
        operand_cols(x) <= 0xFFFF,
{
    lemma_field_ranges();
}

/// Stores `v` at (`r`, `c`) of a matrix of words.
fn set_cell_i32(m: &mut Vec<Vec<i32>>, r: usize, c: usize, v: i32)
    requires
        r < old(m)@.len(),
        c < old(m)@[r as int]@.len(),
    ensures
        final(m)@.len() == old(m)@.len(),
        final(m)@[r as int]@ == old(m)@[r as int]@.update(c as int, v),
        forall|rr: int| 0 <= rr < old(m)@.len() && rr != r ==> final(m)@[rr] == old(m)@[rr],
{
    let mut row: Vec<i32> = Vec::new();
    std::mem::swap(&mut row, &mut m[r]);
    row.set(c, v);
    m.set(r, row);
}

/// Stores `v` at (`r`, `c`) of a matrix of bytes.
fn set_cell_i8(m: &mut Vec<Vec<i8>>, r: usize, c: usize, v: i8)
    requires
        r < old(m)@.len(),
        c < old(m)@[r as int]@.len(),
    ensures
        final(m)@.len() == old(m)@.len(),
        final(m)@[r as int]@ == old(m)@[r as int]@.update(c as int, v),
        forall|rr: int| 0 <= rr < old(m)@.len() && rr != r ==> final(m)@[rr] == old(m)@[rr],
{
    let mut row: Vec<i8> = Vec::new();
    std::mem::swap(&mut row, &mut m[r]);
    row.set(c, v);
    m.set(r, row);
}

/// Reads A(`i`, `k`).
fn a_value(s: &GemminiState, a: u64, i: usize, k: usize) -> (v: i8)
    requires
        s.wf(),
        a_fits(*s, a),
        i < DIM,
        k < DIM,
    ensures
        v == a_elem(*s, a, i as int, k as int),
{
    proof {
        lemma_operand_fields(a);
    }
    let base = (a & 0xFFFF_FFFF) as u32;
    let rows = ((a >> 48) & 0xFFFF) as usize;
    let cols = ((a >> 32) & 0xFFFF) as usize;
    if base != 0xFFFF_FFFF && i < rows && k < cols {
        let idx = if s.a_transpose {
            k
        } else {
            i
        };
        let c = if s.a_transpose {
            i
        } else {
            k
        };
        let ghost n = min_dim(
            if s.a_transpose {
                operand_cols(a)
            } else {
                operand_rows(a)
            },
        );
        assert(idx * s.a_stride <= (n - 1) * s.a_stride) by (nonlinear_arith)
            requires
                idx <= n - 1,
                s.a_stride >= 0,
        ;
        let r = idx * (s.a_stride as usize);
        s.spad[base as usize + r][c]
    } else {
        0
    }
}

/// Reads B(`k`, `j`).
fn b_value(s: &GemminiState, bd: u64, k: usize, j: usize) -> (v: i8)
    requires
        s.wf(),
        s.mode == Dataflow::OS,
        bd_fits(*s, bd),
        k < DIM,
        j < DIM,
    ensures
        v == b_elem(*s, bd, k as int, j as int),
{
    proof {
        lemma_operand_fields(bd);
    }
    let base = (bd & 0xFFFF_FFFF) as u32;
    let rows = ((bd >> 48) & 0xFFFF) as usize;
    let cols = ((bd >> 32) & 0xFFFF) as usize;
    if base != 0xFFFF_FFFF && k < rows && j < cols {
        if s.b_transpose {
            s.spad[base as usize + j][k]
        } else {
            s.spad[base as usize + k][j]
        }
    } else {
        0
    }
}

/// Reads D(`i`, `j`).
fn d_value(s: &GemminiState, bd: u64, i: usize, j: usize) -> (v: i32)
    requires
        s.wf(),
        bd_fits(*s, bd),
        i < DIM,
        j < DIM,
    ensures
        v == d_elem(*s, bd, i as int, j as int),
{
    proof {
        lemma_operand_fields(bd);
    }
    let base = (bd & 0xFFFF_FFFF) as u32;
    let rows = ((bd >> 48) & 0xFFFF) as usize;
    let cols = ((bd >> 32) & 0xFFFF) as usize;
    if i < rows && j < cols {
        if base == 0xFFFF_FFFF {
            0
        } else {
            s.spad[base as usize + i][j] as i32
        }
    } else {
        0
    }
}

/// The registers a preload puts into the array.
fn preload_tile(s: &GemminiState) -> (m: Vec<Vec<i32>>)
    requires
        s.wf(),
        preload_fits(*s),
    ensures
        matrix_shape(m@, DIM as nat, DIM as nat),
        forall|i: int, j: int| 0 <= i < DIM && 0 <= j < DIM ==> #[trigger] m@[i]@[j] == preload_elem(*s, i, j),
{
    let mut m: Vec<Vec<i32>> = Vec::new();
    let mut i: usize = 0;
    while i < DIM
        invariant
            i <= DIM,
            s.wf(),
            preload_fits(*s),
            matrix_shape(m@, i as nat, DIM as nat),
            forall|ii: int, j: int| 0 <= ii < i && 0 <= j < DIM ==> #[trigger] m@[ii]@[j] == preload_elem(*s, ii, j),
        decreases DIM - i,
    {
        let mut row: Vec<i32> = Vec::new();
        let mut j: usize = 0;
        while j < DIM
            invariant
                i < DIM,
                j <= DIM,
                s.wf(),
                preload_fits(*s),
                row@.len() == j,
                forall|jj: int| 0 <= jj < j ==> #[trigger] row@[jj] == preload_elem(*s, i as int, jj),
            decreases DIM - j,
        {
            let transpose = s.mode == Dataflow::WS && s.b_transpose;
            let v: i32 = if i < s.preload_rows as usize && j < s.preload_cols as usize {
                if s.preload_sp_addr == 0xFFFF_FFFF {
                    0
                } else if transpose {
                    s.spad[s.preload_sp_addr as usize + j][i] as i32
                } else {
                    s.spad[s.preload_sp_addr as usize + i][j] as i32
                }
            } else {
                0
            };
            row.push(v);
            j = j + 1;
        }
        m.push(row);
        i = i + 1;
    }
    m
}


/// The output tile of `compute`, given the array's registers `pe` after the
/// optional preload.
fn tile(s: &GemminiState, a: u64, bd: u64, pe: &Vec<Vec<i32>>, Ghost(preload): Ghost<bool>) -> (m: Vec<Vec<i32>>)
    requires
        s.wf(),
        a_fits(*s, a),
        bd_fits(*s, bd),
        matrix_shape(pe@, DIM as nat, DIM as nat),
        forall|i: int, j: int| 0 <= i < DIM && 0 <= j < DIM ==> #[trigger] pe@[i]@[j] == stationary(*s, preload, i, j),
    ensures
        matrix_shape(m@, DIM as nat, DIM as nat),
        forall|i: int, j: int| 0 <= i < DIM && 0 <= j < DIM ==> #[trigger] m@[i]@[j] == tile_out(*s, a, bd, preload, i, j),
{
    let os = s.mode == Dataflow::OS;
    let mut m: Vec<Vec<i32>> = Vec::new();
    let mut i: usize = 0;
    while i < DIM
        invariant
            i <= DIM,
            s.wf(),
            a_fits(*s, a),
            bd_fits(*s, bd),
            os == (s.mode == Dataflow::OS),
            matrix_shape(pe@, DIM as nat, DIM as nat),
            forall|ii: int, j: int| 0 <= ii < DIM && 0 <= j < DIM ==> #[trigger] pe@[ii]@[j] == stationary(*s, preload, ii, j),
            matrix_shape(m@, i as nat, DIM as nat),
            forall|ii: int, j: int| 0 <= ii < i && 0 <= j < DIM ==> #[trigger] m@[ii]@[j] == tile_out(*s, a, bd, preload, ii, j),
        decreases DIM - i,
    {
        let mut row: Vec<i32> = Vec::new();
        let mut j: usize = 0;
        while j < DIM
            invariant
                i < DIM,
                j <= DIM,
                s.wf(),
                a_fits(*s, a),
                bd_fits(*s, bd),
                os == (s.mode == Dataflow::OS),
                matrix_shape(pe@, DIM as nat, DIM as nat),
                forall|ii: int, jj: int| 0 <= ii < DIM && 0 <= jj < DIM ==> #[trigger] pe@[ii]@[jj] == stationary(*s, preload, ii, jj),
                row@.len() == j,
                forall|jj: int| 0 <= jj < j ==> #[trigger] row@[jj] == tile_out(*s, a, bd, preload, i as int, jj),
            decreases DIM - j,
        {
            let ghost terms = if os {
                os_terms(*s, a, bd, i as int, j as int)
            } else {
                ws_terms(*s, a, preload, i as int, j as int)
            };
            let ghost init = if os {
                stationary(*s, preload, i as int, j as int)
            } else {
                d_elem(*s, bd, i as int, j as int)
            };
            let mut acc: i32 = if os {
                pe[i][j]
            } else {
                d_value(s, bd, i, j)
            };
            let mut k: usize = 0;
            assert(terms.take(0) =~= Seq::<i32>::empty());
            while k < DIM
                invariant
                    i < DIM,
                    j < DIM,
                    k <= DIM,
                    s.wf(),
                    a_fits(*s, a),
                    bd_fits(*s, bd),
                    os == (s.mode == Dataflow::OS),
                    matrix_shape(pe@, DIM as nat, DIM as nat),
                    forall|ii: int, jj: int| 0 <= ii < DIM && 0 <= jj < DIM ==> #[trigger] pe@[ii]@[jj] == stationary(*s, preload, ii, jj),
                    terms == (if os {
                        os_terms(*s, a, bd, i as int, j as int)
                    } else {
                        ws_terms(*s, a, preload, i as int, j as int)
                    }),
                    acc == wrapping_sum(init, terms.take(k as int)),
                decreases DIM - k,
            {
                let av = a_value(s, a, i, k);
                let t: i32 = if os {
                    let bv = b_value(s, bd, k, j);
                    assert(-0x4000 <= (av as int) * (bv as int) <= 0x4000) by (nonlinear_arith)
                        requires
                            -128 <= av <= 127,
                            -128 <= bv <= 127,
                    ;
                    (av as i32) * (bv as i32)
                } else {
                    (av as i32).wrapping_mul(pe[k][j])
                };
                assert(t == terms[k as int]);
                acc = acc.wrapping_add(t);
                assert(terms.take(k + 1).drop_last() =~= terms.take(k as int));
                k = k + 1;
            }
            assert(terms.take(DIM as int) =~= terms);
            row.push(acc);
            j = j + 1;
        }
        m.push(row);
        i = i + 1;
    }
    m
}

impl GemminiState {
    /// Writes output rows `0..output_rows` of `values`, in order, to the
    /// accumulator (added or stored) or, shifted and activated, to the
    /// scratchpad; nothing without an output address.
    fn write_output(&mut self, values: &Vec<Vec<i32>>, Ghost(vals): Ghost<spec_fn(int, int) -> i32>)
        requires
            old(self).wf(),
            output_fits(*old(self)),
            matrix_shape(values@, DIM as nat, DIM as nat),
            forall|i: int, j: int| 0 <= i < DIM && 0 <= j < DIM ==> #[trigger] values@[i]@[j] == vals(i, j),
        ensures
            final(self).wf(),
            forall|r: int, c: int|
                0 <= r < ACCUM_ROWS && 0 <= c < DIM ==> #[trigger] final(self).accumulator@[r]@[c]
                    == acc_cell(*old(self), vals, r, c, old(self).output_rows as nat),
            forall|r: int, c: int|
                0 <= r < SPAD_ROWS && 0 <= c < DIM ==> #[trigger] final(self).spad@[r]@[c]
                    == spad_cell(*old(self), vals, r, c, old(self).output_rows as nat),
            *final(self) == (GemminiState {
                accumulator: final(self).accumulator,
                spad: final(self).spad,
                ..*old(self)
            }),
    {
        let ghost s0 = *self;
        if self.output_sp_addr == 0xFFFF_FFFF {
            assert forall|r: int, c: int| 0 <= r < ACCUM_ROWS && 0 <= c < DIM implies #[trigger] self.accumulator@[r]@[c]
                == acc_cell(s0, vals, r, c, s0.output_rows as nat) by {
                lemma_no_output_acc(s0, vals, r, c, s0.output_rows as nat);
            }
            assert forall|r: int, c: int| 0 <= r < SPAD_ROWS && 0 <= c < DIM implies #[trigger] self.spad@[r]@[c]
                == spad_cell(s0, vals, r, c, s0.output_rows as nat) by {
                lemma_no_output_spad(s0, vals, r, c, s0.output_rows as nat);
            }
            return;
        }
        let to_acc = (self.output_sp_addr >> 31) & 1 != 0;
        let accumulate = (self.output_sp_addr >> 30) & 1 != 0;
        let base = (self.output_sp_addr & 0x1FFF_FFFF) as usize;
        let rows = self.output_rows as usize;
        let cols = self.output_cols as usize;
        let c_stride = self.c_stride as usize;
        let shift: i32 = if self.mode == Dataflow::OS {
            self.sys_shift as i32
        } else {
            0
        };
        let act = self.sys_act;
        let mut i: usize = 0;
        while i < rows
            invariant
                i <= rows,
                self.wf(),
                output_fits(s0),
                !no_addr(s0.output_sp_addr),
                to_acc == out_to_acc(s0),
                accumulate == out_accumulates(s0),
                base == (s0.output_sp_addr & 0x1FFF_FFFF) as int,
                rows == s0.output_rows,
                cols == s0.output_cols,
                c_stride == s0.c_stride,
                shift == out_shift(s0),
                act == s0.sys_act,
                matrix_shape(values@, DIM as nat, DIM as nat),
                forall|ii: int, j: int| 0 <= ii < DIM && 0 <= j < DIM ==> #[trigger] values@[ii]@[j] == vals(ii, j),
                *self == (GemminiState { accumulator: self.accumulator, spad: self.spad, ..s0 }),
                forall|r: int, c: int|
                    0 <= r < ACCUM_ROWS && 0 <= c < DIM ==> #[trigger] self.accumulator@[r]@[c]
                        == acc_cell(s0, vals, r, c, i as nat),
                forall|r: int, c: int|
                    0 <= r < SPAD_ROWS && 0 <= c < DIM ==> #[trigger] self.spad@[r]@[c]
                        == spad_cell(s0, vals, r, c, i as nat),
            decreases rows - i,
        {
            let mut j: usize = 0;
            while j < cols
                invariant
                    i < rows,
                    j <= cols,
                    self.wf(),
                    output_fits(s0),
                    !no_addr(s0.output_sp_addr),
                    to_acc == out_to_acc(s0),
                    accumulate == out_accumulates(s0),
                    base == (s0.output_sp_addr & 0x1FFF_FFFF) as int,
                    rows == s0.output_rows,
                    cols == s0.output_cols,
                    c_stride == s0.c_stride,
                    shift == out_shift(s0),
                    act == s0.sys_act,
                    matrix_shape(values@, DIM as nat, DIM as nat),
                    forall|ii: int, jj: int| 0 <= ii < DIM && 0 <= jj < DIM ==> #[trigger] values@[ii]@[jj] == vals(ii, jj),
                    *self == (GemminiState { accumulator: self.accumulator, spad: self.spad, ..s0 }),
                    forall|r: int, c: int|
                        0 <= r < ACCUM_ROWS && 0 <= c < DIM ==> #[trigger] self.accumulator@[r]@[c]
                            == acc_cell(s0, vals, r, c, if c < j { (i + 1) as nat } else { i as nat }),
                    forall|r: int, c: int|
                        0 <= r < SPAD_ROWS && 0 <= c < DIM ==> #[trigger] self.spad@[r]@[c]
                            == spad_cell(s0, vals, r, c, if c < j { (i + 1) as nat } else { i as nat }),
                decreases cols - j,
            {
                assert(c_stride * i <= c_stride * (rows - 1)) by (nonlinear_arith)
                    requires
                        i <= rows - 1,
                ;
                let row = base + c_stride * i;
                let value = values[i][j];
                if to_acc {
                    let nv = if accumulate {
                        self.accumulator[row][j].wrapping_add(value)
                    } else {
                        value
                    };
                    set_cell_i32(&mut self.accumulator, row, j, nv);
                } else {
                    let byte = Gemmini::apply_activation(Gemmini::sys_shift(value, shift), act);
                    set_cell_i8(&mut self.spad, row, j, byte);
                }
                j = j + 1;
            }
            i = i + 1;
        }
    }
}

/// Without an output address no accumulator cell changes.
proof fn lemma_no_output_acc(s: GemminiState, vals: spec_fn(int, int) -> i32, r: int, c: int, n: nat)
    requires
        no_addr(s.output_sp_addr),
    ensures
        acc_cell(s, vals, r, c, n) == s.accumulator@[r]@[c],
    decreases n,
{
    if n > 0 {
        lemma_no_output_acc(s, vals, r, c, (n - 1) as nat);
    }
}

/// Without an output address no scratchpad cell changes.
proof fn lemma_no_output_spad(s: GemminiState, vals: spec_fn(int, int) -> i32, r: int, c: int, n: nat)
    requires
        no_addr(s.output_sp_addr),
    ensures
        spad_cell(s, vals, r, c, n) == s.spad@[r]@[c],
    decreases n,
{
    if n > 0 {
        lemma_no_output_spad(s, vals, r, c, (n - 1) as nat);
    }
}

impl Gemmini {
    /// Runs one tile through the array: optionally preloads it (`preload`),
    /// multiplies A (`a_addr`) by B or W (`bd_addr`, with D as bias in the
    /// weight-stationary dataflow), and writes the output tile where the
    /// last `preload` said (see `pe_after`, `tile_out`, `acc_cell`,
    /// `spad_cell`).
    pub fn compute(&mut self, a_addr: u64, bd_addr: u64, preload: bool)
        requires
            old(self).wf(),
            compute_fits(old(self).state, a_addr, bd_addr, preload),
        ensures
            final(self).wf(),
            forall|i: int, j: int|
                0 <= i < DIM && 0 <= j < DIM ==> #[trigger] final(self).state.pe_state@[i]@[j]
                    == pe_after(old(self).state, a_addr, bd_addr, preload, i, j),
            forall|r: int, c: int|
                0 <= r < ACCUM_ROWS && 0 <= c < DIM ==> #[trigger] final(self).state.accumulator@[r]@[c]
                    == acc_cell(
                    old(self).state,
                    tile_fn(old(self).state, a_addr, bd_addr, preload),
                    r,
                    c,
                    old(self).state.output_rows as nat,
                ),
            forall|r: int, c: int|
                0 <= r < SPAD_ROWS && 0 <= c < DIM ==> #[trigger] final(self).state.spad@[r]@[c]
                    == spad_cell(
                    old(self).state,
                    tile_fn(old(self).state, a_addr, bd_addr, preload),
                    r,
                    c,
                    old(self).state.output_rows as nat,
                ),
            final(self).state == (GemminiState {
                pe_state: final(self).state.pe_state,
                accumulator: final(self).state.accumulator,
                spad: final(self).state.spad,
                ..old(self).state
            }),
    {
        let ghost s0 = self.state;
        let ghost vals = tile_fn(s0, a_addr, bd_addr, preload);
        if preload {
            let pe = preload_tile(&self.state);
            let values = tile(&self.state, a_addr, bd_addr, &pe, Ghost(true));
            self.state.write_output(&values, Ghost(vals));
            if self.state.mode == Dataflow::OS {
                self.state.pe_state = values;
            } else {
                self.state.pe_state = pe;
            }
        } else {
            let values = tile(&self.state, a_addr, bd_addr, &self.state.pe_state, Ghost(false));
            self.state.write_output(&values, Ghost(vals));
            if self.state.mode == Dataflow::OS {
                self.state.pe_state = values;
            }
        }
    }
}


/// `x`, but at most `DIM`.
fn min_dim_exec(x: u64) -> (r: u64)
    ensures
        r == min_dim(x as int),
{
    if x < DIM as u64 {
        x
    } else {
        DIM as u64
    }
}

impl Gemmini {
    /// Whether every read and write of a `compute` stays in its memory (see
    /// `compute_fits`).
    pub fn compute_in_range(&self, a_addr: u64, bd_addr: u64, preload: bool) -> (ok: bool)
        ensures
            ok == compute_fits(self.state, a_addr, bd_addr, preload),
    {
        proof {
            lemma_operand_fields(a_addr);
            lemma_operand_fields(bd_addr);
            lemma_field_ranges();
        }
        let s = &self.state;
        let pre_base = s.preload_sp_addr as u64;
        let pre_ok = if s.preload_sp_addr != 0xFFFF_FFFF && s.preload_rows > 0 && s.preload_cols > 0 {
            let extent = if s.mode == Dataflow::WS && s.b_transpose {
                min_dim_exec(s.preload_cols as u64)
            } else {
                min_dim_exec(s.preload_rows as u64)
            };
            pre_base + extent <= SPAD_ROWS as u64
        } else {
            true
        };
        let bd_base = (bd_addr & 0xFFFF_FFFF) as u64;
        let bd_rows = (bd_addr >> 48) & 0xFFFF;
        let bd_cols = (bd_addr >> 32) & 0xFFFF;
        let bd_ok = if bd_base != 0xFFFF_FFFF && bd_rows > 0 && bd_cols > 0 {
            bd_base + min_dim_exec(bd_rows) <= SPAD_ROWS as u64 && (!(s.mode == Dataflow::OS && s.b_transpose)
                || bd_base + min_dim_exec(bd_cols) <= SPAD_ROWS as u64)
        } else {
            true
        };
        let a_base = (a_addr & 0xFFFF_FFFF) as u64;
        let a_rows = (a_addr >> 48) & 0xFFFF;
        let a_cols = (a_addr >> 32) & 0xFFFF;
        let a_ok = if a_base != 0xFFFF_FFFF && a_rows > 0 && a_cols > 0 {
            let n = min_dim_exec(
                if s.a_transpose {
                    a_cols
                } else {
                    a_rows
                },
            );
            assert((n - 1) * s.a_stride <= 15 * 0xFFFF) by (nonlinear_arith)
                requires
                    1 <= n <= 16,
                    s.a_stride <= 0xFFFF,
            ;
            a_base + (n - 1) * (s.a_stride as u64) < SPAD_ROWS as u64
        } else {
            true
        };
        let out_ok = if s.output_sp_addr != 0xFFFF_FFFF && s.output_rows > 0 && s.output_cols > 0 {
            let to_acc = (s.output_sp_addr >> 31) & 1 != 0;
            let osp = s.output_sp_addr;
            assert((osp & 0x1FFF_FFFF) <= 0x1FFF_FFFF);
            let base = (osp & 0x1FFF_FFFF) as u64;
            let shift: i32 = if s.mode == Dataflow::OS {
                s.sys_shift as i32
            } else {
                0
            };
            let limit: u64 = if to_acc {
                ACCUM_ROWS as u64
            } else {
                SPAD_ROWS as u64
            };
            if s.output_rows as u64 > DIM as u64 || s.output_cols as u64 > DIM as u64 {
                false
            } else {
                assert(s.c_stride * (s.output_rows - 1) <= 0xFFFF * 15) by (nonlinear_arith)
                    requires
                        1 <= s.output_rows <= 16,
                        s.c_stride <= 0xFFFF,
                ;
                base + (s.c_stride as u64) * (s.output_rows as u64 - 1) < limit && (to_acc || (-32 < shift
                    && shift < 32))
            }
        } else {
            true
        };
        (!preload || pre_ok) && bd_ok && a_ok && out_ok
    }
}


/// The sum of `terms` in unbounded integers.
pub open spec fn int_sum(terms: Seq<int>) -> int
    decreases terms.len(),
{
    if terms.len() == 0 {
        0
    } else {
        int_sum(terms.drop_last()) + terms.last()
    }
}

/// `init` plus each prefix sum of `terms` is in the range of `i32`.
pub open spec fn prefix_sums_fit(init: int, terms: Seq<int>) -> bool {
    forall|n: int|
        0 <= n <= terms.len() ==> i32::MIN <= init + #[trigger] int_sum(terms.take(n)) <= i32::MAX
}

/// The exact products A(i, k) B(k, j) of the output-stationary dataflow.
pub open spec fn os_products(s: GemminiState, a: u64, bd: u64, i: int, j: int) -> Seq<int> {
    Seq::new(DIM as nat, |k: int| (a_elem(s, a, i, k) as int) * (b_elem(s, bd, k, j) as int))
}

/// The exact products A(i, k) W(k, j) of the weight-stationary dataflow.
pub open spec fn ws_products(s: GemminiState, a: u64, preload: bool, i: int, j: int) -> Seq<int> {
    Seq::new(
        DIM as nat,
        |k: int| (a_elem(s, a, i, k) as int) * (stationary(s, preload, k, j) as int),
    )
}

/// A wrapping sum is the exact sum when no prefix sum leaves the range of
/// `i32`.
pub proof fn lemma_wrapping_sum_exact(init: i32, terms: Seq<i32>, exact: Seq<int>)
    requires
        terms.len() == exact.len(),
        forall|k: int| 0 <= k < terms.len() ==> terms[k] as int == #[trigger] exact[k],
        prefix_sums_fit(init as int, exact),
    ensures
        wrapping_sum(init, terms) == init + int_sum(exact),
    decreases terms.len(),
{
    if terms.len() == 0 {
        assert(exact.take(0) =~= exact);
    } else {
        let n = exact.len() - 1;
        assert forall|m: int| 0 <= m <= n implies i32::MIN <= init + #[trigger] int_sum(
            exact.drop_last().take(m),
        ) <= i32::MAX by {
            assert(exact.drop_last().take(m) =~= exact.take(m));
            assert(i32::MIN <= init + int_sum(exact.take(m)) <= i32::MAX);
        }
        assert(prefix_sums_fit(init as int, exact.drop_last()));
        assert forall|k: int| 0 <= k < terms.drop_last().len() implies terms.drop_last()[k] as int
            == #[trigger] exact.drop_last()[k] by {
            assert(terms[k] as int == exact[k]);
        }
        lemma_wrapping_sum_exact(init, terms.drop_last(), exact.drop_last());
        assert(exact.take(exact.len() as int) =~= exact);
        assert(i32::MIN <= init + int_sum(exact.take(exact.len() as int)) <= i32::MAX);
        assert(terms.last() as int == exact[n]);
    }
}

/// In the output-stationary dataflow, when no partial sum overflows, element
/// (`i`, `j`) of the output tile is the array's starting register plus the
/// product of row `i` of A and column `j` of B.
pub proof fn lemma_os_tile_is_product(
    s: GemminiState,
    a: u64,
    bd: u64,
    preload: bool,
    i: int,
    j: int,
)
    requires
        s.mode == Dataflow::OS,
        prefix_sums_fit(stationary(s, preload, i, j) as int, os_products(s, a, bd, i, j)),
    ensures
        tile_out(s, a, bd, preload, i, j) == stationary(s, preload, i, j) + int_sum(
            os_products(s, a, bd, i, j),
        ),
{
    let terms = os_terms(s, a, bd, i, j);
    let exact = os_products(s, a, bd, i, j);
    assert forall|k: int| 0 <= k < terms.len() implies terms[k] as int == #[trigger] exact[k] by {
        let x = a_elem(s, a, i, k);
        let y = b_elem(s, bd, k, j);
        assert(-0x4000 <= (x as int) * (y as int) <= 0x4000) by (nonlinear_arith)
            requires
                -128 <= x <= 127,
                -128 <= y <= 127,
        ;
    }
    lemma_wrapping_sum_exact(stationary(s, preload, i, j), terms, exact);
}

/// `wrapping_mul` is the exact product when that is in the range of `i32`.
proof fn lemma_wrapping_mul_exact(x: i32, y: i32)
    requires
        i32::MIN <= (x as int) * (y as int) <= i32::MAX,
    ensures
        x.wrapping_mul(y) as int == (x as int) * (y as int),
{
    let p = (x as int) * (y as int);
    if p < 0 {
        vstd::arithmetic::div_mod::lemma_fundamental_div_mod_converse(p, 0x1_0000_0000, -1, p + 0x1_0000_0000);
    } else {
        vstd::arithmetic::div_mod::lemma_fundamental_div_mod_converse(p, 0x1_0000_0000, 0, p);
    }
}

/// In the weight-stationary dataflow, when no product and no partial sum
/// overflows, element (`i`, `j`) of the output tile is D(i, j) plus the
/// product of row `i` of A and column `j` of the stationary weights.
pub proof fn lemma_ws_tile_is_bias_plus_product(
    s: GemminiState,
    a: u64,
    bd: u64,
    preload: bool,
    i: int,
    j: int,
)
    requires
        s.mode == Dataflow::WS,
        forall|k: int|
            0 <= k < DIM ==> i32::MIN <= #[trigger] ws_products(s, a, preload, i, j)[k] <= i32::MAX,
        prefix_sums_fit(d_elem(s, bd, i, j) as int, ws_products(s, a, preload, i, j)),
    ensures
        tile_out(s, a, bd, preload, i, j) == d_elem(s, bd, i, j) + int_sum(
            ws_products(s, a, preload, i, j),
        ),
{
    let terms = ws_terms(s, a, preload, i, j);
    let exact = ws_products(s, a, preload, i, j);
    assert forall|k: int| 0 <= k < terms.len() implies terms[k] as int == #[trigger] exact[k] by {
        assert(i32::MIN <= exact[k] <= i32::MAX);
        lemma_wrapping_mul_exact(a_elem(s, a, i, k) as i32, stationary(s, preload, k, j));
    }
    lemma_wrapping_sum_exact(d_elem(s, bd, i, j), terms, exact);
}

/// Where the CISC multiply takes a matrix from: zeros for a zero address
/// that may be zero, nowhere for one that may not, else DRAM.
#[derive(Clone, Copy, Debug, PartialEq, Eq, Structural)]
pub enum MatrixSource {
    Zeros,
    Refused,
    Dram,
}

/// The DRAM address of element (`i`, `j`) of a byte matrix at `addr` with
/// rows `cols` bytes apart; every row is row 0 for a repeated bias.
pub open spec fn matrix_elem_addr(addr: u64, i: u64, j: u64, cols: u64, repeating_bias: bool) -> u64 {
    addr.wrapping_add((if repeating_bias {
        0u64
    } else {
        i
    }).wrapping_mul(cols)).wrapping_add(j)
}

impl Gemmini {
    /// Where a matrix at `addr` comes from (see `MatrixSource`).
    pub fn matrix_source(addr: u64, zeroable: bool) -> (m: MatrixSource)
        ensures
            m == (if addr != 0 {
                MatrixSource::Dram
            } else if zeroable {
                MatrixSource::Zeros
            } else {
                MatrixSource::Refused
            }),
    {
        if addr != 0 {
            MatrixSource::Dram
        } else if zeroable {
            MatrixSource::Zeros
        } else {
            MatrixSource::Refused
        }
    }

    /// The DRAM address of element (`i`, `j`) (see `matrix_elem_addr`).
    pub fn matrix_elem_addr(addr: u64, i: u64, j: u64, cols: u64, repeating_bias: bool) -> (a: u64)
        ensures
            a == matrix_elem_addr(addr, i, j, cols, repeating_bias),
    {
        let row: u64 = if repeating_bias {
            0
        } else {
            i
        };
        addr.wrapping_add(row.wrapping_mul(cols)).wrapping_add(j)
    }
}

/// The products A(i, kk) B(kk, j) for `kk < k`.
pub open spec fn cisc_terms(a: Seq<Vec<i8>>, b: Seq<Vec<i8>>, i: int, j: int, k: nat) -> Seq<i32> {
    Seq::new(k, |kk: int| ((a[i]@[kk] as int) * (b[kk]@[j] as int)) as i32)
}

impl Gemmini {
    /// The `m` by `n` matrix D + A B of the CISC multiply, A `m` by `k`, B
    /// `k` by `n`: element (i, j) is D(i, j) plus the products over k, in
    /// wrapping 32-bit arithmetic.
    pub fn cisc_accumulate(
        a: &Vec<Vec<i8>>,
        b: &Vec<Vec<i8>>,
        d: &Vec<Vec<i8>>,
        m: usize,
        n: usize,
        k: usize,
    ) -> (c: Vec<Vec<i32>>)
        requires
            matrix_shape(a@, m as nat, k as nat),
            matrix_shape(b@, k as nat, n as nat),
            matrix_shape(d@, m as nat, n as nat),
        ensures
            matrix_shape(c@, m as nat, n as nat),
            forall|i: int, j: int|
                0 <= i < m && 0 <= j < n ==> #[trigger] c@[i]@[j] == wrapping_sum(
                    d@[i]@[j] as i32,
                    cisc_terms(a@, b@, i, j, k as nat),
                ),
    {
        let mut c: Vec<Vec<i32>> = Vec::new();
        let mut i: usize = 0;
        while i < m
            invariant
                i <= m,
                matrix_shape(a@, m as nat, k as nat),
                matrix_shape(b@, k as nat, n as nat),
                matrix_shape(d@, m as nat, n as nat),
                matrix_shape(c@, i as nat, n as nat),
                forall|ii: int, j: int|
                    0 <= ii < i && 0 <= j < n ==> #[trigger] c@[ii]@[j] == wrapping_sum(
                        d@[ii]@[j] as i32,
                        cisc_terms(a@, b@, ii, j, k as nat),
                    ),
            decreases m - i,
        {
            let mut row: Vec<i32> = Vec::new();
            let mut j: usize = 0;
            while j < n
                invariant
                    i < m,
                    j <= n,
                    matrix_shape(a@, m as nat, k as nat),
                    matrix_shape(b@, k as nat, n as nat),
                    matrix_shape(d@, m as nat, n as nat),
                    row@.len() == j,
                    forall|jj: int|
                        0 <= jj < j ==> #[trigger] row@[jj] == wrapping_sum(
                            d@[i as int]@[jj] as i32,
                            cisc_terms(a@, b@, i as int, jj, k as nat),
                        ),
                decreases n - j,
            {
                let ghost terms = cisc_terms(a@, b@, i as int, j as int, k as nat);
                let mut value: i32 = d[i][j] as i32;
                let mut kk: usize = 0;
                assert(terms.take(0) =~= Seq::<i32>::empty());
                while kk < k
                    invariant
                        i < m,
                        j < n,
                        kk <= k,
                        matrix_shape(a@, m as nat, k as nat),
                        matrix_shape(b@, k as nat, n as nat),
                        terms == cisc_terms(a@, b@, i as int, j as int, k as nat),
                        value == wrapping_sum(d@[i as int]@[j as int] as i32, terms.take(kk as int)),
                    decreases k - kk,
                {
                    let av = a[i][kk];
                    let bv = b[kk][j];
                    assert(-0x4000 <= (av as int) * (bv as int) <= 0x4000) by (nonlinear_arith)
                        requires
                            -128 <= av <= 127,
                            -128 <= bv <= 127,
                    ;
                    let t: i32 = (av as i32) * (bv as i32);
                    value = value.wrapping_add(t);
                    assert(terms.take(kk + 1).drop_last() =~= terms.take(kk as int));
                    kk = kk + 1;
                }
                assert(terms.take(k as int) =~= terms);
                row.push(value);
                j = j + 1;
            }
            c.push(row);
            i = i + 1;
        }
        c
    }
}

/// The exact products A(i, kk) B(kk, j) for `kk < k`.
pub open spec fn cisc_products(a: Seq<Vec<i8>>, b: Seq<Vec<i8>>, i: int, j: int, k: nat) -> Seq<int> {
    Seq::new(k, |kk: int| (a[i]@[kk] as int) * (b[kk]@[j] as int))
}

/// When no partial sum overflows, element (`i`, `j`) of the CISC multiply is
/// D(i, j) plus the product of row `i` of A and column `j` of B.
pub proof fn lemma_cisc_is_product(
    a: Seq<Vec<i8>>,
    b: Seq<Vec<i8>>,
    d: i8,
    i: int,
    j: int,
    k: nat,
)
    requires
        prefix_sums_fit(d as int, cisc_products(a, b, i, j, k)),
    ensures
        wrapping_sum(d as i32, cisc_terms(a, b, i, j, k)) == d + int_sum(cisc_products(a, b, i, j, k)),
{
    let terms = cisc_terms(a, b, i, j, k);
    let exact = cisc_products(a, b, i, j, k);
    assert forall|kk: int| 0 <= kk < terms.len() implies terms[kk] as int == #[trigger] exact[kk] by {
        let x = a[i]@[kk];
        let y = b[kk]@[j];
        assert(-0x4000 <= (x as int) * (y as int) <= 0x4000) by (nonlinear_arith)
            requires
                -128 <= x <= 127,
                -128 <= y <= 127,
        ;
    }
    lemma_wrapping_sum_exact(d as i32, terms, exact);
}

} // verus!
