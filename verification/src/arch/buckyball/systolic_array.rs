//! The systolic array: a 16 x 16 grid of multiply-accumulate cells through
//! which the rows of A flow rightwards and the columns of B flow downwards,
//! each one cell per cycle, so that cell (i, j) meets A[i][k] and B[k][j] in
//! the same cycle and sums their products.
use vstd::prelude::*;
use vstd::arithmetic::power2::pow2;
use crate::arch::buckyball::bank::{read_request, request_read_bank_for_systolic, BankStore};

verus! {

// ---------------------------------------------------------------------------
// Input and output buffers
// ---------------------------------------------------------------------------

/// A matrix fed into the array, row by row.
#[derive(Clone)]
pub struct InputBuffer {
    data: Vec<Vec<u64>>,
    rows: usize,
    cols: usize,
}

/// The rows of a matrix of vectors, as sequences.
pub open spec fn rows_of<T>(m: Seq<Vec<T>>) -> Seq<Seq<T>> {
    Seq::new(m.len(), |i: int| m[i]@)
}

impl InputBuffer {
    /// The matrix held, row by row.
    pub closed spec fn matrix(&self) -> Seq<Seq<u64>> {
        rows_of(self.data@)
    }

    /// The buffer is consistent: its row and column counts are those of
    /// its matrix, neither of them zero.
    pub closed spec fn wf(&self) -> bool {
        &&& self.rows == self.data@.len()
        &&& self.rows > 0
        &&& self.cols == self.data@[0]@.len()
        &&& self.cols > 0
    }

    /// The number of rows.
    pub open spec fn n_rows(&self) -> nat {
        self.matrix().len()
    }

    /// The number of columns: the length of the first row.
    pub open spec fn n_cols(&self) -> nat {
        self.matrix()[0].len()
    }

    /// The entry at (`r`, `c`), zero outside the matrix.
    pub open spec fn value(&self, r: int, c: int) -> u64 {
        if 0 <= r < self.n_rows() && 0 <= c < self.n_cols() {
            self.matrix()[r][c]
        } else {
            0
        }
    }

    /// A buffer over `matrix`, which has a row and a first row that is
    /// not empty.
    pub fn new(matrix: Vec<Vec<u64>>) -> (b: Self)
        requires
            matrix@.len() > 0,
            matrix@[0]@.len() > 0,
        ensures
            b.wf(),
            b.matrix() == rows_of(matrix@),
    {
        let rows = matrix.len();
        let cols = matrix[0].len();
        InputBuffer { data: matrix, rows, cols }
    }

    /// The entry at (`row`, `col`), zero outside the matrix; an entry that
    /// lies inside the first row's width must exist in its row.
    pub fn get(&self, row: usize, col: usize) -> (v: u64)
        requires
            self.wf(),
            row < self.n_rows() && col < self.n_cols() ==> col < self.matrix()[row as int].len(),
        ensures
            v == self.value(row as int, col as int),
    {
        if row < self.rows && col < self.cols {
            self.data[row][col]
        } else {
            0
        }
    }

    /// The number of rows.
    pub fn rows(&self) -> (r: usize)
        requires
            self.wf(),
        ensures
            r == self.n_rows(),
    {
        self.rows
    }

    /// The number of columns.
    pub fn cols(&self) -> (c: usize)
        requires
            self.wf(),
        ensures
            c == self.n_cols(),
    {
        self.cols
    }
}

/// The result matrix of the array and whether it is complete.
#[derive(Clone)]
pub struct OutputBuffer {
    data: Vec<Vec<u128>>,
    rows: usize,
    cols: usize,
    is_ready: bool,
}

/// A `rows` x `cols` matrix of zeros.
pub open spec fn zero_matrix(rows: nat, cols: nat) -> Seq<Seq<u128>> {
    Seq::new(rows, |i: int| Seq::new(cols, |j: int| 0u128))
}

/// A `rows` x `cols` matrix of zeros, as vectors.
fn zero_rows(rows: usize, cols: usize) -> (m: Vec<Vec<u128>>)
    ensures
        rows_of(m@) == zero_matrix(rows as nat, cols as nat),
{
    let mut m: Vec<Vec<u128>> = Vec::new();
    let mut i: usize = 0;
    while i < rows
        invariant
            i <= rows,
            m@.len() == i,
            forall|k: int| 0 <= k < i ==> #[trigger] m@[k]@ == Seq::new(cols as nat, |c: int| 0u128),
        decreases rows - i,
    {
        let mut row: Vec<u128> = Vec::new();
        let mut j: usize = 0;
        while j < cols
            invariant
                j <= cols,
                row@ == Seq::new(j as nat, |c: int| 0u128),
            decreases cols - j,
        {
            row.push(0);
            j = j + 1;
            assert(row@ =~= Seq::new(j as nat, |c: int| 0u128));
        }
        m.push(row);
        i = i + 1;
    }
    assert(rows_of(m@) =~= zero_matrix(rows as nat, cols as nat));
    m
}

impl OutputBuffer {
    /// The result matrix.
    pub closed spec fn matrix(&self) -> Seq<Seq<u128>> {
        rows_of(self.data@)
    }

    /// Whether the result is complete.
    pub closed spec fn ready(&self) -> bool {
        self.is_ready
    }

    /// The row count.
    pub closed spec fn n_rows(&self) -> nat {
        self.rows as nat
    }

    /// The column count.
    pub closed spec fn n_cols(&self) -> nat {
        self.cols as nat
    }

    /// The buffer is consistent: its matrix has its row and column counts.
    pub closed spec fn wf(&self) -> bool {
        &&& self.data@.len() == self.rows
        &&& forall|i: int| 0 <= i < self.rows ==> #[trigger] self.data@[i]@.len() == self.cols
    }

    /// A consistent buffer's matrix has `n_rows()` rows of `n_cols()`
    /// entries.
    pub proof fn lemma_shape(&self)
        requires
            self.wf(),
        ensures
            self.matrix().len() == self.n_rows(),
            forall|i: int| 0 <= i < self.n_rows() ==> #[trigger] self.matrix()[i].len() == self.n_cols(),
    {
        assert forall|i: int| 0 <= i < self.n_rows() implies #[trigger] self.matrix()[i].len() == self.n_cols() by {
            assert(self.data@[i]@.len() == self.cols);
        }
    }

    /// A `rows` x `cols` matrix of zeros, not ready.
    pub fn new(rows: usize, cols: usize) -> (b: Self)
        ensures
            b.wf(),
            b.n_rows() == rows,
            b.n_cols() == cols,
            b.matrix() == zero_matrix(rows as nat, cols as nat),
            !b.ready(),
    {
        let b = OutputBuffer { data: zero_rows(rows, cols), rows, cols, is_ready: false };
        assert(rows_of(b.data@).len() == rows);
        assert forall|i: int| 0 <= i < rows implies #[trigger] b.data@[i]@.len() == cols by {
            assert(rows_of(b.data@)[i] == zero_matrix(rows as nat, cols as nat)[i]);
            assert(rows_of(b.data@)[i] == b.data@[i]@);
        }
        b
    }

    /// Stores `value` at (`row`, `col`); a place outside the matrix is
    /// ignored.
    pub fn set(&mut self, row: usize, col: usize, value: u128)
        requires
            old(self).wf(),
        ensures
            final(self).wf(),
            final(self).n_rows() == old(self).n_rows(),
            final(self).n_cols() == old(self).n_cols(),
            final(self).ready() == old(self).ready(),
            final(self).matrix() == (if row < old(self).n_rows() && col < old(self).n_cols() {
                old(self).matrix().update(
                    row as int,
                    old(self).matrix()[row as int].update(col as int, value),
                )
            } else {
                old(self).matrix()
            }),
    {
        if row < self.rows && col < self.cols {
            let ghost m = self.matrix();
            let mut r: Vec<u128> = Vec::new();
            std::mem::swap(&mut r, &mut self.data[row]);
            r.set(col, value);
            self.data.set(row, r);
            assert(self.matrix() =~= m.update(row as int, m[row as int].update(col as int, value)));
        }
    }

    /// The result matrix.
    pub fn get_result(&self) -> (r: &Vec<Vec<u128>>)
        ensures
            rows_of(r@) == self.matrix(),
    {
        &self.data
    }

    /// Marks the result complete.
    pub fn set_ready(&mut self)
        ensures
            final(self).ready(),
            final(self).matrix() == old(self).matrix(),
            final(self).n_rows() == old(self).n_rows(),
            final(self).n_cols() == old(self).n_cols(),
            old(self).wf() ==> final(self).wf(),
    {
        self.is_ready = true;
    }

    /// Whether the result is complete.
    pub fn is_ready(&self) -> (r: bool)
        ensures
            r == self.ready(),
    {
        self.is_ready
    }

    /// Sets every entry back to zero; the result is no longer complete.
    pub fn clear(&mut self)
        ensures
            final(self).wf(),
            final(self).matrix() == zero_matrix(old(self).n_rows(), old(self).n_cols()),
            final(self).n_rows() == old(self).n_rows(),
            final(self).n_cols() == old(self).n_cols(),
            !final(self).ready(),
    {
        *self = OutputBuffer::new(self.rows, self.cols);
    }
}

// ---------------------------------------------------------------------------
// Processing element
// ---------------------------------------------------------------------------

/// One multiply-accumulate cell: the values it was last given, the values
/// it passes on, and its 32-bit accumulator.
#[derive(Clone, Copy)]
pub struct ProcessingElement {
    pub a_in: u64,
    pub b_in: u64,
    pub a_out: u64,
    pub b_out: u64,
    pub acc: u32,
}

/// The product the cell forms from `a` and `b`: their low 32 bits,
/// multiplied.
pub open spec fn cell_product(a: u64, b: u64) -> int {
    (a as u32) as int * (b as u32) as int
}

impl ProcessingElement {
    /// A cell with every value zero.
    pub fn new() -> (pe: Self)
        ensures
            pe == (ProcessingElement { a_in: 0, b_in: 0, a_out: 0, b_out: 0, acc: 0 }),
    {
        ProcessingElement { a_in: 0, b_in: 0, a_out: 0, b_out: 0, acc: 0 }
    }

    /// Gives the cell its next pair of values.
    pub fn set_inputs(&mut self, a: u64, b: u64)
        ensures
            *final(self) == (ProcessingElement { a_in: a, b_in: b, ..*old(self) }),
    {
        self.a_in = a;
        self.b_in = b;
    }

    /// Adds the product of the current values to the accumulator, modulo
    /// 2^32, and passes the values on. The product must fit in 32 bits.
    pub fn compute(&mut self)
        requires
            cell_product(old(self).a_in, old(self).b_in) <= u32::MAX,
        ensures
            *final(self) == (ProcessingElement {
                a_out: old(self).a_in,
                b_out: old(self).b_in,
                acc: ((old(self).acc + cell_product(old(self).a_in, old(self).b_in)) % 0x1_0000_0000) as u32,
                ..*old(self)
            }),
    {
        let product = (self.a_in as u32) * (self.b_in as u32);
        self.acc = self.acc.wrapping_add(product);
        self.a_out = self.a_in;
        self.b_out = self.b_in;
    }

    /// The accumulator.
    pub fn get_result(&self) -> (r: u32)
        ensures
            r == self.acc,
    {
        self.acc
    }

    /// Sets every value back to zero.
    pub fn reset(&mut self)
        ensures
            *final(self) == (ProcessingElement { a_in: 0, b_in: 0, a_out: 0, b_out: 0, acc: 0 }),
    {
        self.a_in = 0;
        self.b_in = 0;
        self.a_out = 0;
        self.b_out = 0;
        self.acc = 0;
    }
}

// ---------------------------------------------------------------------------
// Bytes of a word
// ---------------------------------------------------------------------------

/// Byte `k` of `v`, counting from the least significant one.
pub open spec fn byte_of(v: u128, k: nat) -> u64 {
    ((v as nat / pow2(8 * k)) % 256) as u64
}

/// Byte `k` of `v`, for `k < 16`.
fn byte_at(v: u128, k: u32) -> (r: u64)
    requires
        k < 16,
    ensures
        r == byte_of(v, k as nat),
{
    let shift: u128 = (k * 8) as u128;
    let shifted = v >> shift;
    proof {
        vstd::bits::lemma_u128_shr_is_div(v, shift);
        assert(shifted & 0xff == shifted % 256) by (bit_vector);
    }
    ((v >> shift) & 0xFF) as u64
}

/// The sixteen bytes of `v`, most significant first.
pub fn split_u128_to_u64s(u128_value: u128) -> (r: Vec<u64>)
    ensures
        r@.len() == 16,
        forall|i: int| 0 <= i < 16 ==> #[trigger] r@[i] == byte_of(u128_value, (15 - i) as nat),
{
    let mut result: Vec<u64> = Vec::new();
    let mut i: u32 = 0;
    while i < 16
        invariant
            i <= 16,
            result@.len() == i,
            forall|j: int| 0 <= j < i ==> #[trigger] result@[j] == byte_of(u128_value, (15 - j) as nat),
        decreases 16 - i,
    {
        result.push(byte_at(u128_value, 15 - i));
        i = i + 1;
    }
    result
}

// ---------------------------------------------------------------------------
// The array and its dataflow
// ---------------------------------------------------------------------------

/// The side of the array and the length of the dot products it forms.
pub const ARRAY_SIZE: usize = 16;

/// The cycles after which every cell has seen all its operands.
pub const FILL_CYCLES: usize = 47;

/// `m` is a 16 x 16 matrix.
pub open spec fn square16<T>(m: Seq<Seq<T>>) -> bool {
    &&& m.len() == 16
    &&& forall|i: int| 0 <= i < 16 ==> #[trigger] m[i].len() == 16
}

/// Entry `k` of row `r` of `m`, as fed into the array at step `k`; zero
/// before the first step and after the last.
pub open spec fn fed(m: Seq<Seq<u64>>, r: int, k: int) -> u64 {
    if 0 <= k < 16 {
        m[r][k]
    } else {
        0
    }
}

/// The sum of the first `n` products of row `i` of `a` with row `j` of
/// `bt`, each product formed as a cell forms it.
pub open spec fn partial_dot(a: Seq<Seq<u64>>, bt: Seq<Seq<u64>>, i: int, j: int, n: int) -> int
    decreases n,
{
    if n <= 0 {
        0
    } else {
        partial_dot(a, bt, i, j, n - 1) + cell_product(fed(a, i, n - 1), fed(bt, j, n - 1))
    }
}

/// Every product that the array forms from `a` and `bt` fits in 32 bits.
pub open spec fn products_fit(a: Seq<Seq<u64>>, bt: Seq<Seq<u64>>) -> bool {
    forall|i: int, j: int, k: int|
        0 <= i < 16 && 0 <= j < 16 && 0 <= k < 16 ==> #[trigger] cell_product(a[i][k], bt[j][k])
            <= u32::MAX
}

/// Cell (`i`, `j`) after `c` cycles on `a` and `bt`: it last saw step
/// `c - 1 - i - j` of both operands and has summed the steps before.
pub open spec fn cell_at(a: Seq<Seq<u64>>, bt: Seq<Seq<u64>>, i: int, j: int, c: int) -> ProcessingElement {
    let k = c - 1 - i - j;
    ProcessingElement {
        a_in: fed(a, i, k),
        b_in: fed(bt, j, k),
        a_out: fed(a, i, k),
        b_out: fed(bt, j, k),
        acc: (partial_dot(a, bt, i, j, c - i - j) % 0x1_0000_0000) as u32,
    }
}

/// The grid holds, in each cell, the cell after `c` cycles.
pub open spec fn grid_is(g: Seq<Seq<ProcessingElement>>, a: Seq<Seq<u64>>, bt: Seq<Seq<u64>>, c: int) -> bool {
    &&& square16(g)
    &&& forall|i: int, j: int| 0 <= i < 16 && 0 <= j < 16 ==> #[trigger] g[i][j] == cell_at(a, bt, i, j, c)
}

/// The grid holds cells with every value zero.
pub open spec fn grid_zero(g: Seq<Seq<ProcessingElement>>) -> bool {
    &&& square16(g)
    &&& forall|i: int, j: int|
        0 <= i < 16 && 0 <= j < 16 ==> #[trigger] g[i][j] == (ProcessingElement {
            a_in: 0,
            b_in: 0,
            a_out: 0,
            b_out: 0,
            acc: 0,
        })
}

/// The result of the array on `a` and `bt`: entry (i, j) is the dot
/// product of row `i` of `a` and row `j` of `bt`, modulo 2^32.
pub open spec fn array_product(a: Seq<Seq<u64>>, bt: Seq<Seq<u64>>) -> Seq<Seq<u128>> {
    Seq::new(16, |i: int| Seq::new(16, |j: int| (partial_dot(a, bt, i, j, 16) % 0x1_0000_0000) as u128))
}

/// The sum of the first `n` products of row `i` of `a` with column `j` of
/// `b`.
pub open spec fn row_col_dot(a: Seq<Seq<u64>>, b: Seq<Seq<u64>>, i: int, j: int, n: int) -> int
    decreases n,
{
    if n <= 0 {
        0
    } else {
        row_col_dot(a, b, i, j, n - 1) + cell_product(a[i][n - 1], b[n - 1][j])
    }
}

/// The product of two 16 x 16 matrices, each entry modulo 2^32.
pub open spec fn matmul_mod(a: Seq<Seq<u64>>, b: Seq<Seq<u64>>) -> Seq<Seq<u128>> {
    Seq::new(16, |i: int| Seq::new(16, |j: int| (row_col_dot(a, b, i, j, 16) % 0x1_0000_0000) as u128))
}

/// The transpose of a 16 x 16 matrix.
pub open spec fn transpose16(m: Seq<Seq<u64>>) -> Seq<Seq<u64>> {
    Seq::new(16, |i: int| Seq::new(16, |j: int| m[j][i]))
}

/// Entry (`i`, `j`) of `m` padded to 16 x 16: an entry that is missing or
/// zero becomes one.
pub open spec fn pad_value(m: Seq<Seq<u64>>, i: int, j: int) -> u64 {
    if i < m.len() && j < m[i].len() && m[i][j] != 0 {
        m[i][j]
    } else {
        1
    }
}

/// `m` padded to 16 x 16.
pub open spec fn padded(m: Seq<Seq<u64>>) -> Seq<Seq<u64>> {
    Seq::new(16, |i: int| Seq::new(16, |j: int| pad_value(m, i, j)))
}

/// After all its steps, a dot product takes no further term.
pub proof fn lemma_partial_dot_full(a: Seq<Seq<u64>>, bt: Seq<Seq<u64>>, i: int, j: int, n: int)
    requires
        n >= 16,
    ensures
        partial_dot(a, bt, i, j, n) == partial_dot(a, bt, i, j, 16),
    decreases n,
{
    if n > 16 {
        lemma_partial_dot_full(a, bt, i, j, n - 1);
        assert(fed(a, i, n - 1) == 0);
        assert(fed(bt, j, n - 1) == 0);
        lemma_cell_product_zero();
    }
}

/// A padded matrix is 16 x 16.
pub proof fn lemma_padded_square(m: Seq<Seq<u64>>)
    ensures
        square16(padded(m)),
        square16(transpose16(padded(m))),
{
}

/// What the array computes on loaded matrices: after `load_matrices(a,
/// b)` the operands are `padded(a)` and `padded(b)` by columns, so the
/// result of a full run is the product of the padded matrices, each entry
/// modulo 2^32.
pub proof fn lemma_loaded_product(a: Seq<Seq<u64>>, b: Seq<Seq<u64>>)
    ensures
        array_product(padded(a), transpose16(padded(b))) == matmul_mod(padded(a), padded(b)),
{
    lemma_padded_square(a);
    lemma_padded_square(b);
    lemma_array_product_is_matmul(padded(a), padded(b));
}

/// The array multiplies `a` by `b` when it is fed `b` by columns.
pub proof fn lemma_array_product_is_matmul(a: Seq<Seq<u64>>, b: Seq<Seq<u64>>)
    requires
        square16(a),
        square16(b),
    ensures
        array_product(a, transpose16(b)) == matmul_mod(a, b),
{
    let bt = transpose16(b);
    assert forall|i: int, j: int| 0 <= i < 16 && 0 <= j < 16 implies partial_dot(a, bt, i, j, 16)
        == row_col_dot(a, b, i, j, 16) by {
        lemma_dot_agree(a, b, i, j, 16);
    }
    assert(array_product(a, bt) =~= matmul_mod(a, b)) by {
        assert forall|i: int| 0 <= i < 16 implies #[trigger] array_product(a, bt)[i] =~= matmul_mod(a, b)[i] by {}
    }
}

proof fn lemma_dot_agree(a: Seq<Seq<u64>>, b: Seq<Seq<u64>>, i: int, j: int, n: int)
    requires
        square16(a),
        square16(b),
        0 <= i < 16,
        0 <= j < 16,
        0 <= n <= 16,
    ensures
        partial_dot(a, transpose16(b), i, j, n) == row_col_dot(a, b, i, j, n),
    decreases n,
{
    if n > 0 {
        lemma_dot_agree(a, b, i, j, n - 1);
        assert(transpose16(b)[j][n - 1] == b[n - 1][j]);
    }
}

/// One cycle of the grid: every cell takes its left neighbour's A value
/// (row `i` of `a` at the left edge) and its upper neighbour's B value (row
/// `j` of `bt` at the top edge), then multiplies and accumulates.
fn step_grid(grid: &Vec<Vec<ProcessingElement>>, input_a: &InputBuffer, input_b: &InputBuffer, t: usize) -> (r: Vec<Vec<ProcessingElement>>)
    requires
        input_a.wf(),
        input_b.wf(),
        square16(input_a.matrix()),
        square16(input_b.matrix()),
        products_fit(input_a.matrix(), input_b.matrix()),
        t < FILL_CYCLES,
        grid_is(rows_of(grid@), input_a.matrix(), input_b.matrix(), t as int),
    ensures
        grid_is(rows_of(r@), input_a.matrix(), input_b.matrix(), t + 1),
{
    let ghost a = input_a.matrix();
    let ghost bt = input_b.matrix();
    let ghost g = rows_of(grid@);
    let mut new_grid: Vec<Vec<ProcessingElement>> = Vec::new();
    let mut i: usize = 0;
    while i < ARRAY_SIZE
        invariant
            i <= 16,
            t < FILL_CYCLES,
            input_a.wf(),
            input_b.wf(),
            a == input_a.matrix(),
            bt == input_b.matrix(),
            square16(a),
            square16(bt),
            products_fit(a, bt),
            g == rows_of(grid@),
            grid_is(g, a, bt, t as int),
            new_grid@.len() == i,
            forall|k: int| 0 <= k < i ==> #[trigger] new_grid@[k]@.len() == 16,
            forall|k: int, l: int|
                0 <= k < i && 0 <= l < 16 ==> #[trigger] new_grid@[k]@[l] == cell_at(a, bt, k, l, t + 1),
        decreases 16 - i,
    {
        let mut row: Vec<ProcessingElement> = Vec::new();
        let mut j: usize = 0;
        while j < ARRAY_SIZE
            invariant
                i < 16,
                j <= 16,
                t < FILL_CYCLES,
                input_a.wf(),
                input_b.wf(),
                a == input_a.matrix(),
                bt == input_b.matrix(),
                square16(a),
                square16(bt),
                products_fit(a, bt),
                g == rows_of(grid@),
                grid_is(g, a, bt, t as int),
                row@.len() == j,
                forall|l: int| 0 <= l < j ==> #[trigger] row@[l] == cell_at(a, bt, i as int, l, t + 1),
            decreases 16 - j,
        {
            let ghost k: int = t - i - j;
            assert(g[i as int] == grid@[i as int]@);
            let new_a = if j == 0 {
                if t >= i && t - i < ARRAY_SIZE {
                    input_a.get(i, t - i)
                } else {
                    0
                }
            } else {
                assert(g[i as int][j - 1] == cell_at(a, bt, i as int, j - 1, t as int));
                grid[i][j - 1].a_out
            };
            let new_b = if i == 0 {
                if t >= j && t - j < ARRAY_SIZE {
                    input_b.get(j, t - j)
                } else {
                    0
                }
            } else {
                assert(g[i - 1] == grid@[i - 1]@);
                assert(g[i - 1][j as int] == cell_at(a, bt, i - 1, j as int, t as int));
                grid[i - 1][j].b_out
            };
            assert(new_a == fed(a, i as int, k));
            assert(new_b == fed(bt, j as int, k));
            let old_pe = grid[i][j];
            assert(old_pe == cell_at(a, bt, i as int, j as int, t as int));
            let mut pe = old_pe;
            pe.set_inputs(new_a, new_b);
            proof {
                if 0 <= k < 16 {
                    assert(cell_product(a[i as int][k], bt[j as int][k]) <= u32::MAX);
                } else {
                    lemma_cell_product_zero();
                }
            }
            pe.compute();
            proof {
                let p = cell_product(new_a, new_b);
                let prev = partial_dot(a, bt, i as int, j as int, k);
                assert(prev >= 0) by { lemma_partial_dot_nonneg(a, bt, i as int, j as int, k); }
                if k >= 0 {
                    assert(partial_dot(a, bt, i as int, j as int, k + 1) == prev + p);
                    vstd::arithmetic::div_mod::lemma_add_mod_noop(prev, p, 0x1_0000_0000);
                    vstd::arithmetic::div_mod::lemma_small_mod(p as nat, 0x1_0000_0000);
                } else {
                    lemma_cell_product_zero();
                }
            }
            assert(pe == cell_at(a, bt, i as int, j as int, t + 1));
            row.push(pe);
            j = j + 1;
        }
        new_grid.push(row);
        i = i + 1;
    }
    assert(square16(rows_of(new_grid@)));
    new_grid
}

proof fn lemma_cell_product_zero()
    ensures
        cell_product(0, 0) == 0,
{
    assert(0u64 as u32 == 0u32) by (bit_vector);
}

proof fn lemma_partial_dot_nonneg(a: Seq<Seq<u64>>, bt: Seq<Seq<u64>>, i: int, j: int, n: int)
    ensures
        partial_dot(a, bt, i, j, n) >= 0,
    decreases n,
{
    if n > 0 {
        lemma_partial_dot_nonneg(a, bt, i, j, n - 1);
    }
}

// ---------------------------------------------------------------------------
// The array
// ---------------------------------------------------------------------------

/// Where the array stands in carrying out an instruction.
#[derive(Clone, Copy, Debug, PartialEq, Eq, Structural)]
pub enum SystolicArrayState {
    Idle,
    WaitOp1,
    WaitOp2,
    Computing,
    WaitWriteResp,
}

/// The systolic array: its grid of cells, the loaded operands, the result
/// buffer, and the instruction it is carrying out.
#[derive(Clone)]
pub struct SystolicArray {
    systolic_mem_write_req_port: String,
    mem_systolic_read_req_port: String,
    mem_systolic_read_resp_port: String,
    commit_to_rob_port: String,
    /// The largest row count of A that the array accepts.
    pub rows: usize,
    /// The largest column count of B that the array accepts.
    pub cols: usize,
    pe_grid: Vec<Vec<ProcessingElement>>,
    is_running: bool,
    is_idle: bool,
    cycle_count: usize,
    input_buffer_a: Option<InputBuffer>,
    input_buffer_b: Option<InputBuffer>,
    output_buffer: OutputBuffer,
    k_dim: usize,
    state: SystolicArrayState,
    op1_bank_id: u64,
    op2_bank_id: u64,
    wr_bank_id: u64,
    m_dim: u64,
    n_dim: u64,
    k_dim_inst: u64,
    rob_id: u64,
    op1_data: Vec<Vec<u64>>,
    op2_data: Vec<Vec<u64>>,
    read_request_sent: bool,
}

/// The matrix of a loaded operand buffer.
pub open spec fn loaded(b: Option<InputBuffer>) -> Option<Seq<Seq<u64>>> {
    match b {
        Some(buf) => Some(buf.matrix()),
        None => None,
    }
}

/// A 16 x 16 grid of cells with every value zero.
fn zero_grid() -> (g: Vec<Vec<ProcessingElement>>)
    ensures
        grid_zero(rows_of(g@)),
{
    let mut g: Vec<Vec<ProcessingElement>> = Vec::new();
    let mut i: usize = 0;
    while i < ARRAY_SIZE
        invariant
            i <= 16,
            g@.len() == i,
            forall|k: int| 0 <= k < i ==> #[trigger] g@[k]@.len() == 16,
            forall|k: int, l: int|
                0 <= k < i && 0 <= l < 16 ==> #[trigger] g@[k]@[l] == (ProcessingElement {
                    a_in: 0,
                    b_in: 0,
                    a_out: 0,
                    b_out: 0,
                    acc: 0,
                }),
        decreases 16 - i,
    {
        let mut row: Vec<ProcessingElement> = Vec::new();
        let mut j: usize = 0;
        while j < ARRAY_SIZE
            invariant
                j <= 16,
                row@.len() == j,
                forall|l: int|
                    0 <= l < j ==> #[trigger] row@[l] == (ProcessingElement {
                        a_in: 0,
                        b_in: 0,
                        a_out: 0,
                        b_out: 0,
                        acc: 0,
                    }),
            decreases 16 - j,
        {
            row.push(ProcessingElement::new());
            j = j + 1;
        }
        g.push(row);
        i = i + 1;
    }
    g
}

/// A cell grid that is all zero is the grid of no cycle at all.
proof fn lemma_zero_grid_is_start(g: Seq<Seq<ProcessingElement>>, a: Seq<Seq<u64>>, bt: Seq<Seq<u64>>)
    requires
        grid_zero(g),
    ensures
        grid_is(g, a, bt, 0),
{
    assert forall|i: int, j: int| 0 <= i < 16 && 0 <= j < 16 implies #[trigger] g[i][j] == cell_at(
        a,
        bt,
        i,
        j,
        0,
    ) by {
        assert(partial_dot(a, bt, i, j, 0 - i - j) == 0);
        assert(0int % 0x1_0000_0000 == 0);
    }
}

/// The text of the error for operands whose inner dimensions differ: A
/// with `a_cols` columns, B with `b_rows` rows.
pub uninterp spec fn mismatch_text(a_cols: usize, b_rows: usize) -> Seq<char>;

/// The text of the error for operands larger than a `rows` x `cols` array.
pub uninterp spec fn exceed_text(
    rows: usize,
    cols: usize,
    a_rows: usize,
    a_cols: usize,
    b_rows: usize,
    b_cols: usize,
) -> Seq<char>;

/// Formats, with std's `format!`, the error text for operands whose inner
/// dimensions differ. The text is named, not spelled out: it is claimed to
/// depend on the two numbers alone.
#[verifier::external_body]
fn dimension_mismatch_message(a_cols: usize, b_rows: usize) -> (s: String)
    ensures
        s@ == mismatch_text(a_cols, b_rows),
{
    format!("Matrix dimensions mismatch: A has {} columns, B has {} rows", a_cols, b_rows)
}

/// Formats, with std's `format!`, the error text for operands larger than
/// the array. The text is named, not spelled out: it is claimed to depend on
/// the six numbers alone.
#[verifier::external_body]
fn dimension_exceed_message(
    rows: usize,
    cols: usize,
    a_rows: usize,
    a_cols: usize,
    b_rows: usize,
    b_cols: usize,
) -> (s: String)
    ensures
        s@ == exceed_text(rows, cols, a_rows, a_cols, b_rows, b_cols),
{
    format!(
        "Matrix dimensions exceed array size: Array is {}x{}, A is {}x{}, B is {}x{}",
        rows,
        cols,
        a_rows,
        a_cols,
        b_rows,
        b_cols,
    )
}

/// `m` padded to 16 x 16, by rows (`by_columns` false) or transposed.
fn pad_matrix(m: &Vec<Vec<u64>>, by_columns: bool) -> (r: Vec<Vec<u64>>)
    ensures
        by_columns ==> rows_of(r@) == transpose16(padded(rows_of(m@))),
        !by_columns ==> rows_of(r@) == padded(rows_of(m@)),
{
    let ghost mm = rows_of(m@);
    let ghost target = if by_columns {
        transpose16(padded(mm))
    } else {
        padded(mm)
    };
    let mut r: Vec<Vec<u64>> = Vec::new();
    let mut i: usize = 0;
    while i < ARRAY_SIZE
        invariant
            i <= 16,
            mm == rows_of(m@),
            target == (if by_columns { transpose16(padded(mm)) } else { padded(mm) }),
            r@.len() == i,
            forall|k: int| 0 <= k < i ==> #[trigger] r@[k]@ == target[k],
        decreases 16 - i,
    {
        let mut row: Vec<u64> = Vec::new();
        let mut j: usize = 0;
        while j < ARRAY_SIZE
            invariant
                i < 16,
                j <= 16,
                mm == rows_of(m@),
                target == (if by_columns { transpose16(padded(mm)) } else { padded(mm) }),
                row@.len() == j,
                forall|l: int| 0 <= l < j ==> #[trigger] row@[l] == target[i as int][l],
            decreases 16 - j,
        {
            let (x, y) = if by_columns {
                (j, i)
            } else {
                (i, j)
            };
            let mut v: u64 = 0;
            if x < m.len() && y < m[x].len() {
                v = m[x][y];
            }
            if v == 0 {
                v = 1;
            }
            assert(v == pad_value(mm, x as int, y as int));
            row.push(v);
            j = j + 1;
        }
        r.push(row);
        i = i + 1;
    }
    assert(rows_of(r@) =~= target);
    r
}

impl SystolicArray {
    /// The largest row count of A that the array accepts.
    pub closed spec fn max_rows(&self) -> usize {
        self.rows
    }

    /// The largest column count of B that the array accepts.
    pub closed spec fn max_cols(&self) -> usize {
        self.cols
    }

    /// The cells of the grid.
    pub closed spec fn grid(&self) -> Seq<Seq<ProcessingElement>> {
        rows_of(self.pe_grid@)
    }

    /// Whether the array is computing.
    pub closed spec fn running(&self) -> bool {
        self.is_running
    }

    /// Whether the array is idle.
    pub closed spec fn idle(&self) -> bool {
        self.is_idle
    }

    /// The cycles done since the last start.
    pub closed spec fn cycles(&self) -> nat {
        self.cycle_count as nat
    }

    /// The loaded A operand, row by row.
    pub closed spec fn operand_a(&self) -> Option<Seq<Seq<u64>>> {
        loaded(self.input_buffer_a)
    }

    /// The loaded B operand, column by column.
    pub closed spec fn operand_b(&self) -> Option<Seq<Seq<u64>>> {
        loaded(self.input_buffer_b)
    }

    /// The result matrix.
    pub closed spec fn output(&self) -> Seq<Seq<u128>> {
        self.output_buffer.matrix()
    }

    /// Whether the result matrix is complete.
    pub closed spec fn output_ready(&self) -> bool {
        self.output_buffer.ready()
    }

    /// The instruction state.
    pub closed spec fn control(&self) -> SystolicArrayState {
        self.state
    }

    /// The instruction state, the instruction, whether its read was issued
    /// and the operands received.
    pub closed spec fn machine(&self) -> (SystolicArrayState, SystolicInst, bool, Seq<Seq<u64>>, Seq<Seq<u64>>) {
        (self.state, self.instruction(), self.read_request_sent, rows_of(self.op1_data@), rows_of(self.op2_data@))
    }

    /// The products of the loaded operands fit in 32 bits.
    pub open spec fn operands_fit(&self) -> bool {
        match (self.operand_a(), self.operand_b()) {
            (Some(a), Some(bt)) => products_fit(a, bt),
            _ => true,
        }
    }

    /// The array is consistent: a 16 x 16 grid and result, 16 x 16
    /// operands, and while it computes, a grid that holds the cells after
    /// the cycles done on the loaded operands.
    pub closed spec fn wf(&self) -> bool {
        &&& square16(self.grid())
        &&& self.output_buffer.wf()
        &&& self.output_buffer.n_rows() == 16
        &&& self.output_buffer.n_cols() == 16
        &&& (self.input_buffer_a matches Some(b) ==> (b.wf() && square16(b.matrix())))
        &&& (self.input_buffer_b matches Some(b) ==> (b.wf() && square16(b.matrix())))
        &&& self.is_running ==> {
            &&& self.input_buffer_a is Some
            &&& self.input_buffer_b is Some
            &&& self.cycle_count < FILL_CYCLES
            &&& grid_is(
                self.grid(),
                self.input_buffer_a->0.matrix(),
                self.input_buffer_b->0.matrix(),
                self.cycle_count as int,
            )
        }
    }

    /// An idle array of 16 x 16 cells with nothing loaded.
    pub fn new(
        systolic_mem_write_req_port: String,
        mem_systolic_read_req_port: String,
        mem_systolic_read_resp_port: String,
        commit_to_rob_port: String,
    ) -> (sa: Self)
        ensures
            sa.wf(),
            sa.max_rows() == 16,
            sa.max_cols() == 16,
            !sa.running(),
            sa.idle(),
            sa.cycles() == 0,
            sa.operand_a() is None,
            sa.operand_b() is None,
            grid_zero(sa.grid()),
            sa.output() == zero_matrix(16, 16),
            !sa.output_ready(),
            sa.control() == SystolicArrayState::Idle,
    {
        SystolicArray {
            systolic_mem_write_req_port,
            mem_systolic_read_req_port,
            mem_systolic_read_resp_port,
            commit_to_rob_port,
            rows: ARRAY_SIZE,
            cols: ARRAY_SIZE,
            pe_grid: zero_grid(),
            is_running: false,
            is_idle: true,
            cycle_count: 0,
            input_buffer_a: None,
            input_buffer_b: None,
            output_buffer: OutputBuffer::new(ARRAY_SIZE, ARRAY_SIZE),
            k_dim: 0,
            state: SystolicArrayState::Idle,
            op1_bank_id: 0,
            op2_bank_id: 0,
            wr_bank_id: 0,
            m_dim: 0,
            n_dim: 0,
            k_dim_inst: 0,
            rob_id: 0,
            op1_data: Vec::new(),
            op2_data: Vec::new(),
            read_request_sent: false,
        }
    }

    /// Stops the computation.
    pub fn stop(&mut self)
        requires
            old(self).wf(),
        ensures
            final(self).wf(),
            !final(self).running(),
            final(self).idle(),
            final(self).grid() == old(self).grid(),
            final(self).cycles() == old(self).cycles(),
            final(self).operand_a() == old(self).operand_a(),
            final(self).operand_b() == old(self).operand_b(),
            final(self).output() == old(self).output(),
            final(self).output_ready() == old(self).output_ready(),
            final(self).control() == old(self).control(),
            final(self).machine() == old(self).machine(),
            final(self).max_rows() == old(self).max_rows(),
            final(self).max_cols() == old(self).max_cols(),
    {
        self.is_running = false;
        self.is_idle = true;
    }

    /// Stops the array, zeroes every cell and the result, and drops the
    /// operands.
    pub fn reset(&mut self)
        requires
            old(self).wf(),
        ensures
            final(self).wf(),
            !final(self).running(),
            final(self).idle(),
            grid_zero(final(self).grid()),
            final(self).cycles() == 0,
            final(self).operand_a() is None,
            final(self).operand_b() is None,
            final(self).output() == zero_matrix(16, 16),
            !final(self).output_ready(),
            final(self).control() == old(self).control(),
            final(self).machine() == old(self).machine(),
            final(self).max_rows() == old(self).max_rows(),
            final(self).max_cols() == old(self).max_cols(),
    {
        self.stop();
        self.pe_grid = zero_grid();
        self.input_buffer_a = None;
        self.input_buffer_b = None;
        self.output_buffer.clear();
        self.cycle_count = 0;
        self.k_dim = 0;
    }

    /// Loads A (`matrix_a`) and B (`matrix_b`), each padded to 16 x 16 with
    /// every missing or zero entry made one, after a reset; B is held by
    /// columns, as the cells take it. An error, with nothing changed, when
    /// a matrix has no row, when A's first row is not as long as B has
    /// rows, or when A has more rows than the array or B's first row more
    /// columns.
    pub fn load_matrices(&mut self, matrix_a: Vec<Vec<u64>>, matrix_b: Vec<Vec<u64>>) -> (r: Result<(), String>)
        requires
            old(self).wf(),
        ensures
            final(self).wf(),
            r is Ok <==> {
                &&& matrix_a@.len() > 0
                &&& matrix_b@.len() > 0
                &&& matrix_a@[0]@.len() == matrix_b@.len()
                &&& matrix_a@.len() <= old(self).max_rows()
                &&& matrix_b@[0]@.len() <= old(self).max_cols()
            },
            r is Ok ==> {
                &&& !final(self).running()
                &&& final(self).idle()
                &&& grid_zero(final(self).grid())
                &&& final(self).cycles() == 0
                &&& final(self).operand_a() == Some(padded(rows_of(matrix_a@)))
                &&& final(self).operand_b() == Some(transpose16(padded(rows_of(matrix_b@))))
                &&& final(self).output() == zero_matrix(16, 16)
                &&& !final(self).output_ready()
                &&& final(self).control() == old(self).control()
                &&& final(self).machine() == old(self).machine()
                &&& final(self).max_rows() == old(self).max_rows()
                &&& final(self).max_cols() == old(self).max_cols()
            },
            r is Err ==> *final(self) == *old(self),
            r matches Err(e) ==> if matrix_a@.len() == 0 || matrix_b@.len() == 0 {
                e@ == "Matrices cannot be empty"@
            } else if matrix_a@[0]@.len() != matrix_b@.len() {
                e@ == mismatch_text(matrix_a@[0]@.len() as usize, matrix_b@.len() as usize)
            } else {
                e@ == exceed_text(
                    old(self).max_rows(),
                    old(self).max_cols(),
                    matrix_a@.len() as usize,
                    matrix_a@[0]@.len() as usize,
                    matrix_b@.len() as usize,
                    matrix_b@[0]@.len() as usize,
                )
            },
    {
        if matrix_a.len() == 0 || matrix_b.len() == 0 {
            return Err("Matrices cannot be empty".to_string());
        }
        let a_rows = matrix_a.len();
        let a_cols = matrix_a[0].len();
        let b_rows = matrix_b.len();
        let b_cols = matrix_b[0].len();
        if a_cols != b_rows {
            return Err(dimension_mismatch_message(a_cols, b_rows));
        }
        if a_rows > self.rows || b_cols > self.cols {
            return Err(dimension_exceed_message(self.rows, self.cols, a_rows, a_cols, b_rows, b_cols));
        }
        self.reset();
        let padded_a = pad_matrix(&matrix_a, false);
        let padded_b = pad_matrix(&matrix_b, true);
        proof {
            let pa = padded(rows_of(matrix_a@));
            let pb = transpose16(padded(rows_of(matrix_b@)));
            assert(rows_of(padded_a@).len() == pa.len());
            assert(padded_a@.len() == 16);
            assert(rows_of(padded_a@)[0] == pa[0]);
            assert(rows_of(padded_a@)[0] == padded_a@[0]@);
            assert(rows_of(padded_b@).len() == pb.len());
            assert(padded_b@.len() == 16);
            assert(rows_of(padded_b@)[0] == pb[0]);
            assert(rows_of(padded_b@)[0] == padded_b@[0]@);
        }
        self.input_buffer_a = Some(InputBuffer::new(padded_a));
        self.input_buffer_b = Some(InputBuffer::new(padded_b));
        self.k_dim = ARRAY_SIZE;
        Ok(())
    }

    /// Starts a computation on the loaded operands, from zeroed cells.
    pub fn start(&mut self)
        requires
            old(self).wf(),
            old(self).operand_a() is Some,
            old(self).operand_b() is Some,
        ensures
            final(self).wf(),
            final(self).running(),
            !final(self).idle(),
            final(self).cycles() == 0,
            grid_zero(final(self).grid()),
            final(self).operand_a() == old(self).operand_a(),
            final(self).operand_b() == old(self).operand_b(),
            final(self).output() == old(self).output(),
            final(self).output_ready() == old(self).output_ready(),
            final(self).control() == old(self).control(),
            final(self).machine() == old(self).machine(),
            final(self).max_rows() == old(self).max_rows(),
            final(self).max_cols() == old(self).max_cols(),
    {
        self.pe_grid = zero_grid();
        self.cycle_count = 0;
        self.is_running = true;
        self.is_idle = false;
        proof {
            lemma_zero_grid_is_start(
                self.grid(),
                self.input_buffer_a->0.matrix(),
                self.input_buffer_b->0.matrix(),
            );
        }
    }

    /// Whether the array is computing.
    pub fn is_running(&self) -> (r: bool)
        ensures
            r == self.running(),
    {
        self.is_running
    }

    /// Whether the array is idle.
    pub fn is_idle(&self) -> (r: bool)
        ensures
            r == self.idle(),
    {
        self.is_idle
    }

    /// The result matrix once it is complete.
    pub fn get_results(&self) -> (r: Option<&Vec<Vec<u128>>>)
        ensures
            self.output_ready() ==> (r matches Some(m) && rows_of(m@) == self.output()),
            !self.output_ready() ==> r is None,
    {
        if self.output_buffer.is_ready() {
            Some(self.output_buffer.get_result())
        } else {
            None
        }
    }
}

/// The accumulators of a 16 x 16 grid, widened.
pub open spec fn grid_accs(g: Seq<Seq<ProcessingElement>>) -> Seq<Seq<u128>> {
    Seq::new(16, |i: int| Seq::new(16, |j: int| g[i][j].acc as u128))
}

/// After the last cycle the grid holds the array's result.
proof fn lemma_full_grid_accs(g: Seq<Seq<ProcessingElement>>, a: Seq<Seq<u64>>, bt: Seq<Seq<u64>>)
    requires
        grid_is(g, a, bt, FILL_CYCLES as int),
    ensures
        grid_accs(g) == array_product(a, bt),
{
    assert forall|i: int, j: int| 0 <= i < 16 && 0 <= j < 16 implies #[trigger] grid_accs(g)[i][j]
        == array_product(a, bt)[i][j] by {
        lemma_partial_dot_full(a, bt, i, j, FILL_CYCLES - i - j);
        assert(g[i][j] == cell_at(a, bt, i, j, FILL_CYCLES as int));
    }
    assert forall|i: int| 0 <= i < 16 implies #[trigger] grid_accs(g)[i] =~= array_product(a, bt)[i] by {}
    assert(grid_accs(g) =~= array_product(a, bt));
}

/// Stores every accumulator of the grid into the result buffer.
fn fill_output(
    out: &mut OutputBuffer,
    grid: &Vec<Vec<ProcessingElement>>,
    Ghost(a): Ghost<Seq<Seq<u64>>>,
    Ghost(bt): Ghost<Seq<Seq<u64>>>,
)
    requires
        old(out).wf(),
        old(out).n_rows() == 16,
        old(out).n_cols() == 16,
        square16(rows_of(grid@)),
        grid_accs(rows_of(grid@)) == array_product(a, bt),
    ensures
        final(out).wf(),
        final(out).n_rows() == 16,
        final(out).n_cols() == 16,
        final(out).ready() == old(out).ready(),
        final(out).matrix() == array_product(a, bt),
{
    proof {
        assert(out.matrix().len() == 16);
        assert forall|k: int| 0 <= k < 16 implies #[trigger] out.matrix()[k].len() == 16 by {
            assert(out.matrix()[k] == out.data@[k]@);
        }
    }
    let mut i: usize = 0;
    while i < ARRAY_SIZE
        invariant
            i <= 16,
            out.wf(),
            out.n_rows() == 16,
            out.n_cols() == 16,
            out.ready() == old(out).ready(),
            out.matrix().len() == 16,
            square16(rows_of(grid@)),
            grid_accs(rows_of(grid@)) == array_product(a, bt),
            forall|k: int| 0 <= k < 16 ==> #[trigger] out.matrix()[k].len() == 16,
            forall|k: int, l: int|
                0 <= k < i && 0 <= l < 16 ==> #[trigger] out.matrix()[k][l] == array_product(a, bt)[k][l],
        decreases 16 - i,
    {
        let mut j: usize = 0;
        while j < ARRAY_SIZE
            invariant
                i < 16,
                j <= 16,
                out.wf(),
                out.n_rows() == 16,
                out.n_cols() == 16,
                out.ready() == old(out).ready(),
                out.matrix().len() == 16,
                square16(rows_of(grid@)),
                grid_accs(rows_of(grid@)) == array_product(a, bt),
                forall|k: int| 0 <= k < 16 ==> #[trigger] out.matrix()[k].len() == 16,
                forall|k: int, l: int|
                    (0 <= k < i && 0 <= l < 16) || (k == i && 0 <= l < j) ==> #[trigger] out.matrix()[k][l]
                        == array_product(a, bt)[k][l],
            decreases 16 - j,
        {
            assert(rows_of(grid@)[i as int] == grid@[i as int]@);
            let result = grid[i][j].get_result();
            assert(result as u128 == grid_accs(rows_of(grid@))[i as int][j as int]);
            out.set(i, j, result as u128);
            j = j + 1;
        }
        i = i + 1;
    }
    assert(out.matrix() =~= array_product(a, bt)) by {
        assert forall|k: int| 0 <= k < 16 implies #[trigger] out.matrix()[k] =~= array_product(a, bt)[k] by {}
    }
}

impl SystolicArray {
    /// One cycle: every cell takes its next operands and accumulates their
    /// product. After the last cycle the result buffer holds every
    /// accumulator, it is marked complete, the array stops and `false`
    /// comes back; `false` with nothing changed when the array is not
    /// computing. The products of the operands must fit in 32 bits.
    pub fn cycle(&mut self) -> (r: bool)
        requires
            old(self).wf(),
            old(self).operands_fit(),
        ensures
            final(self).wf(),
            final(self).operand_a() == old(self).operand_a(),
            final(self).operand_b() == old(self).operand_b(),
            final(self).control() == old(self).control(),
            final(self).machine() == old(self).machine(),
            final(self).max_rows() == old(self).max_rows(),
            final(self).max_cols() == old(self).max_cols(),
            !old(self).running() ==> !r && *final(self) == *old(self),
            old(self).running() ==> {
                let a = old(self).operand_a()->0;
                let bt = old(self).operand_b()->0;
                &&& final(self).cycles() == old(self).cycles() + 1
                &&& grid_is(final(self).grid(), a, bt, old(self).cycles() + 1int)
                &&& r == (old(self).cycles() + 1 < FILL_CYCLES)
                &&& r ==> {
                    &&& final(self).running()
                    &&& final(self).idle() == old(self).idle()
                    &&& final(self).output() == old(self).output()
                    &&& final(self).output_ready() == old(self).output_ready()
                }
                &&& !r ==> {
                    &&& !final(self).running()
                    &&& final(self).idle()
                    &&& final(self).output_ready()
                    &&& final(self).output() == array_product(a, bt)
                }
            },
    {
        if !self.is_running || self.input_buffer_a.is_none() || self.input_buffer_b.is_none() {
            return false;
        }
        let t = self.cycle_count;
        let new_grid = match (&self.input_buffer_a, &self.input_buffer_b) {
            (Some(input_a), Some(input_b)) => step_grid(&self.pe_grid, input_a, input_b, t),
            _ => {
                return false;
            },
        };
        self.pe_grid = new_grid;
        self.cycle_count = t + 1;
        if self.cycle_count >= ARRAY_SIZE + ARRAY_SIZE + ARRAY_SIZE - 1 {
            let ghost a = self.input_buffer_a->0.matrix();
            let ghost bt = self.input_buffer_b->0.matrix();
            proof {
                lemma_full_grid_accs(self.grid(), a, bt);
            }
            fill_output(&mut self.output_buffer, &self.pe_grid, Ghost(a), Ghost(bt));
            self.output_buffer.set_ready();
            self.is_running = false;
            self.is_idle = true;
            return false;
        }
        true
    }

    /// Runs the computation to its end: cycles while the grid has not been
    /// fed every step (at most a hundred and one cycles), then until the
    /// array stops.
    pub fn run_to_completion(&mut self)
        requires
            old(self).wf(),
            old(self).operands_fit(),
        ensures
            final(self).wf(),
            final(self).operand_a() == old(self).operand_a(),
            final(self).operand_b() == old(self).operand_b(),
            final(self).control() == old(self).control(),
            final(self).machine() == old(self).machine(),
            final(self).max_rows() == old(self).max_rows(),
            final(self).max_cols() == old(self).max_cols(),
            !final(self).running(),
            !old(self).running() ==> *final(self) == *old(self),
            old(self).running() ==> {
                &&& final(self).output_ready()
                &&& final(self).idle()
                &&& final(self).output() == array_product(
                    old(self).operand_a()->0,
                    old(self).operand_b()->0,
                )
                &&& grid_is(
                    final(self).grid(),
                    old(self).operand_a()->0,
                    old(self).operand_b()->0,
                    FILL_CYCLES as int,
                )
            },
    {
        let ghost start = *self;
        let expected_cycles: usize = ARRAY_SIZE + ARRAY_SIZE + ARRAY_SIZE - 1;
        let mut cycles_executed: usize = 0;
        while self.cycle_count < expected_cycles
            invariant_except_break
                cycles_executed <= 100,
            invariant
                self.wf(),
                self.operands_fit(),
                self.operand_a() == start.operand_a(),
                self.operand_b() == start.operand_b(),
                self.control() == start.control(),
                self.machine() == start.machine(),
                self.max_rows() == start.max_rows(),
                self.max_cols() == start.max_cols(),
                !start.running() ==> *self == start,
                start.running() ==> {
                    let a = start.operand_a()->0;
                    let bt = start.operand_b()->0;
                    &&& self.running() ==> self.cycles() < FILL_CYCLES
                    &&& !self.running() ==> {
                        &&& self.output_ready()
                        &&& self.idle()
                        &&& self.output() == array_product(a, bt)
                        &&& grid_is(self.grid(), a, bt, FILL_CYCLES as int)
                    }
                },
            decreases 101 - cycles_executed,
        {
            self.cycle();
            cycles_executed = cycles_executed + 1;
            if cycles_executed > 100 {
                break;
            }
        }
        while self.cycle()
            invariant
                self.wf(),
                self.operands_fit(),
                self.operand_a() == start.operand_a(),
                self.operand_b() == start.operand_b(),
                self.control() == start.control(),
                self.machine() == start.machine(),
                self.max_rows() == start.max_rows(),
                self.max_cols() == start.max_cols(),
                !start.running() ==> *self == start,
                start.running() ==> {
                    let a = start.operand_a()->0;
                    let bt = start.operand_b()->0;
                    &&& self.running() ==> self.cycles() < FILL_CYCLES
                    &&& !self.running() ==> {
                        &&& self.output_ready()
                        &&& self.idle()
                        &&& self.output() == array_product(a, bt)
                        &&& grid_is(self.grid(), a, bt, FILL_CYCLES as int)
                    }
                },
            decreases FILL_CYCLES - self.cycles(),
        {
        }
    }
}

// ---------------------------------------------------------------------------
// Instructions: the issue slot and the array's state machine
// ---------------------------------------------------------------------------

/// A matrix multiplication for the array: operand banks, result bank,
/// dimensions (A is `m_dim` x `k_dim`, B is `k_dim` x `n_dim`) and ROB id.
#[derive(Clone, Copy, PartialEq, Eq, Structural)]
pub struct SystolicInst {
    pub op1_bank_id: u64,
    pub op2_bank_id: u64,
    pub wr_bank_id: u64,
    pub m_dim: u64,
    pub n_dim: u64,
    pub k_dim: u64,
    pub rob_id: u64,
}

/// The array's issue slot: whether a new instruction may be issued, the
/// instruction that waits, and the state the array last reported.
pub struct SystolicSlot {
    pub can_issue: bool,
    pub inst: Option<SystolicInst>,
    pub state: SystolicArrayState,
}

impl SystolicSlot {
    /// An open slot with no instruction.
    pub fn new() -> (s: Self)
        ensures
            s.can_issue,
            s.inst is None,
            s.state == SystolicArrayState::Idle,
    {
        SystolicSlot { can_issue: true, inst: None, state: SystolicArrayState::Idle }
    }
}

/// Hands the array a matrix multiplication when the slot is open: the slot
/// closes and holds it. A closed slot is left as it is.
pub fn receive_systolic_array_inst(
    slot: &mut SystolicSlot,
    op1_bank_id: u64,
    op2_bank_id: u64,
    wr_bank_id: u64,
    m_dim: u64,
    n_dim: u64,
    k_dim: u64,
    rob_id: u64,
)
    ensures
        old(slot).can_issue ==> {
            &&& !final(slot).can_issue
            &&& final(slot).inst == Some(
                SystolicInst { op1_bank_id, op2_bank_id, wr_bank_id, m_dim, n_dim, k_dim, rob_id },
            )
            &&& final(slot).state == SystolicArrayState::Idle
        },
        !old(slot).can_issue ==> *final(slot) == *old(slot),
{
    if slot.can_issue {
        slot.can_issue = false;
        slot.inst = Some(SystolicInst { op1_bank_id, op2_bank_id, wr_bank_id, m_dim, n_dim, k_dim, rob_id });
        slot.state = SystolicArrayState::Idle;
    }
}

/// Whether the array takes a new instruction.
pub fn is_systolic_array_idle(slot: &SystolicSlot) -> (r: bool)
    ensures
        r == slot.can_issue,
{
    slot.can_issue
}

/// A `rows` x `cols` matrix of bytes unpacked from `data`: row `i` starts
/// at word `i * cols / 16`, entry `j` is byte `j % 16` of the word `j / 16`
/// after that, zero past the end of `data`.
pub open spec fn unpacked(data: Seq<u128>, rows: nat, cols: nat) -> Seq<Seq<u64>> {
    Seq::new(
        rows,
        |i: int|
            Seq::new(
                cols,
                |j: int|
                    {
                        let idx = (i * cols) / 16 + j / 16;
                        if idx < data.len() {
                            byte_of(data[idx], (j % 16) as nat)
                        } else {
                            0u64
                        }
                    },
            ),
    )
}

/// The `cols` x `rows` transpose of a `rows` x `cols` matrix.
pub open spec fn transposed(m: Seq<Seq<u64>>, rows: nat, cols: nat) -> Seq<Seq<u64>> {
    Seq::new(cols, |j: int| Seq::new(rows, |i: int| m[i][j]))
}

/// The low byte of each entry of `m` within its top-left 16 x 16 corner,
/// zero where `m` has no entry.
pub open spec fn low_bytes16(m: Seq<Seq<u64>>) -> Seq<Seq<u64>> {
    Seq::new(
        16,
        |i: int|
            Seq::new(
                16,
                |j: int|
                    if i < m.len() && j < m[i].len() {
                        m[i][j] % 256
                    } else {
                        0u64
                    },
            ),
    )
}

/// The matrix unpacked from bank words.
fn unpack_rows(data: &Vec<u128>, rows: u64, cols: u64) -> (r: Vec<Vec<u64>>)
    requires
        rows * cols <= u64::MAX,
    ensures
        rows_of(r@) == unpacked(data@, rows as nat, cols as nat),
{
    let ghost target = unpacked(data@, rows as nat, cols as nat);
    let mut out: Vec<Vec<u64>> = Vec::new();
    let mut i: u64 = 0;
    while i < rows
        invariant
            i <= rows,
            rows * cols <= u64::MAX,
            target == unpacked(data@, rows as nat, cols as nat),
            out@.len() == i,
            forall|k: int| 0 <= k < i ==> #[trigger] out@[k]@ == target[k],
        decreases rows - i,
    {
        assert(i * cols <= rows * cols) by (nonlinear_arith)
            requires
                i < rows,
        ;
        let start_u128 = i * cols / 16;
        proof {
            vstd::arithmetic::div_mod::lemma_div_is_ordered((i * cols) as int, u64::MAX as int, 16);
        }
        let mut row: Vec<u64> = Vec::new();
        let mut j: u64 = 0;
        while j < cols
            invariant
                i < rows,
                j <= cols,
                start_u128 == (i * cols) / 16,
                start_u128 <= u64::MAX / 16,
                target == unpacked(data@, rows as nat, cols as nat),
                row@.len() == j,
                forall|l: int| 0 <= l < j ==> #[trigger] row@[l] == target[i as int][l],
            decreases cols - j,
        {
            proof {
                vstd::arithmetic::div_mod::lemma_div_is_ordered(j as int, u64::MAX as int, 16);
            }
            let u128_idx = start_u128 + j / 16;
            let byte_idx = j % 16;
            if u128_idx < data.len() as u64 {
                row.push(byte_at(data[u128_idx as usize], byte_idx as u32));
            } else {
                row.push(0);
            }
            j = j + 1;
        }
        out.push(row);
        i = i + 1;
    }
    assert(rows_of(out@) =~= target);
    out
}

/// The transpose of a `rows` x `cols` matrix.
fn transpose_rows(m: &Vec<Vec<u64>>, rows: u64, cols: u64) -> (r: Vec<Vec<u64>>)
    requires
        m@.len() == rows,
        forall|i: int| 0 <= i < rows ==> #[trigger] m@[i]@.len() == cols,
    ensures
        rows_of(r@) == transposed(rows_of(m@), rows as nat, cols as nat),
{
    let ghost target = transposed(rows_of(m@), rows as nat, cols as nat);
    let mut out: Vec<Vec<u64>> = Vec::new();
    let mut j: u64 = 0;
    while j < cols
        invariant
            j <= cols,
            m@.len() == rows,
            forall|i: int| 0 <= i < rows ==> #[trigger] m@[i]@.len() == cols,
            target == transposed(rows_of(m@), rows as nat, cols as nat),
            out@.len() == j,
            forall|k: int| 0 <= k < j ==> #[trigger] out@[k]@ == target[k],
        decreases cols - j,
    {
        let mut col: Vec<u64> = Vec::new();
        let mut i: u64 = 0;
        while i < rows
            invariant
                j < cols,
                i <= rows,
                m@.len() == rows,
                forall|k: int| 0 <= k < rows ==> #[trigger] m@[k]@.len() == cols,
                target == transposed(rows_of(m@), rows as nat, cols as nat),
                col@.len() == i,
                forall|l: int| 0 <= l < i ==> #[trigger] col@[l] == target[j as int][l],
            decreases rows - i,
        {
            assert(rows_of(m@)[i as int] == m@[i as int]@);
            let mlen = m.len();
            proof {
                lemma_index_cast(i, mlen as nat);
            }
            let rlen = m[i as usize].len();
            proof {
                lemma_index_cast(j, rlen as nat);
            }
            let v = m[i as usize][j as usize];
            assert(v == rows_of(m@)[i as int][j as int]);
            assert(target[j as int][i as int] == rows_of(m@)[i as int][j as int]);
            col.push(v);
            assert(col@[i as int] == target[j as int][i as int]);
            i = i + 1;
        }
        out.push(col);
        j = j + 1;
    }
    assert(rows_of(out@) =~= target);
    out
}

/// An index below a length is the same as a `usize`.
pub proof fn lemma_index_cast(x: u64, len: nat)
    requires
        x < len,
        len <= usize::MAX,
    ensures
        x as usize == x,
{
    let bound = len as usize;
    assert(x < bound ==> x as usize == x) by (bit_vector);
}

/// The low bytes of the top-left 16 x 16 corner of `m`.
fn low_bytes_corner(m: &Vec<Vec<u64>>) -> (r: Vec<Vec<u64>>)
    ensures
        rows_of(r@) == low_bytes16(rows_of(m@)),
{
    let ghost target = low_bytes16(rows_of(m@));
    let mut out: Vec<Vec<u64>> = Vec::new();
    let mut i: usize = 0;
    while i < ARRAY_SIZE
        invariant
            i <= 16,
            target == low_bytes16(rows_of(m@)),
            out@.len() == i,
            forall|k: int| 0 <= k < i ==> #[trigger] out@[k]@ == target[k],
        decreases 16 - i,
    {
        let mut row: Vec<u64> = Vec::new();
        let mut j: usize = 0;
        while j < ARRAY_SIZE
            invariant
                i < 16,
                j <= 16,
                target == low_bytes16(rows_of(m@)),
                row@.len() == j,
                forall|l: int| 0 <= l < j ==> #[trigger] row@[l] == target[i as int][l],
            decreases 16 - j,
        {
            if i < m.len() && j < m[i].len() {
                let v = m[i][j];
                assert(v & 0xff == v % 256) by (bit_vector);
                row.push(v & 0xFF);
            } else {
                row.push(0);
            }
            j = j + 1;
        }
        out.push(row);
        i = i + 1;
    }
    assert(rows_of(out@) =~= target);
    out
}

/// Operands whose entries are bytes multiply within 32 bits.
proof fn lemma_byte_products_fit(a: Seq<Seq<u64>>, bt: Seq<Seq<u64>>)
    requires
        square16(a),
        square16(bt),
        forall|i: int, k: int| 0 <= i < 16 && 0 <= k < 16 ==> #[trigger] a[i][k] < 256,
        forall|j: int, k: int| 0 <= j < 16 && 0 <= k < 16 ==> #[trigger] bt[j][k] < 256,
    ensures
        products_fit(a, bt),
{
    assert forall|i: int, j: int, k: int|
        0 <= i < 16 && 0 <= j < 16 && 0 <= k < 16 implies #[trigger] cell_product(a[i][k], bt[j][k])
        <= u32::MAX by {
        let x = a[i][k];
        let y = bt[j][k];
        assert(x < 256 ==> x as u32 == x) by (bit_vector);
        assert(y < 256 ==> y as u32 == y) by (bit_vector);
        assert(x * y <= 255 * 255) by (nonlinear_arith)
            requires
                x < 256,
                y < 256,
        ;
    }
}

/// Padding keeps entries that are bytes bytes.
proof fn lemma_padded_bytes(m: Seq<Seq<u64>>)
    requires
        forall|i: int, j: int| 0 <= i < m.len() && 0 <= j < m[i].len() ==> #[trigger] m[i][j] < 256,
    ensures
        forall|i: int, j: int| 0 <= i < 16 && 0 <= j < 16 ==> #[trigger] padded(m)[i][j] < 256,
        forall|i: int, j: int| 0 <= i < 16 && 0 <= j < 16 ==> #[trigger] transpose16(padded(m))[i][j] < 256,
{
    assert forall|i: int, j: int| 0 <= i < 16 && 0 <= j < 16 implies #[trigger] transpose16(padded(m))[i][j] < 256 by {
        assert(transpose16(padded(m))[i][j] == padded(m)[j][i]);
    }
}

/// Four 32-bit values packed into one word, the first in the low bits.
pub open spec fn packed4(p0: int, p1: int, p2: int, p3: int) -> int {
    p0 + p1 * 0x1_0000_0000 + p2 * 0x1_0000_0000_0000_0000 + p3 * 0x1_0000_0000_0000_0000_0000_0000
}

/// A 16 x 16 result as 64 words, row by row, four entries per word.
pub open spec fn pack_results(r: Seq<Seq<u128>>) -> Seq<u128> {
    Seq::new(
        64,
        |x: int|
            {
                let row = x / 4;
                let c = (x % 4) * 4;
                packed4(r[row][c] as int, r[row][c + 1] as int, r[row][c + 2] as int, r[row][c + 3] as int) as u128
            },
    )
}

/// Packs four 32-bit values into one word, the first in the low bits.
fn pack4(p0: u32, p1: u32, p2: u32, p3: u32) -> (r: u128)
    ensures
        r == packed4(p0 as int, p1 as int, p2 as int, p3 as int),
{
    let a = p0 as u128;
    let b = p1 as u128;
    let c = p2 as u128;
    let d = p3 as u128;
    assert((d << 96u128) | (c << 64u128) | (b << 32u128) | a == a + b * 0x1_0000_0000 + c
        * 0x1_0000_0000_0000_0000 + d * 0x1_0000_0000_0000_0000_0000_0000) by (bit_vector)
        requires
            a < 0x1_0000_0000,
            b < 0x1_0000_0000,
            c < 0x1_0000_0000,
            d < 0x1_0000_0000,
    ;
    (d << 96) | (c << 64) | (b << 32) | a
}

/// The accumulators of the grid, packed four to a word, row by row.
fn pack_grid(grid: &Vec<Vec<ProcessingElement>>) -> (r: Vec<u128>)
    requires
        square16(rows_of(grid@)),
    ensures
        r@ == pack_results(grid_accs(rows_of(grid@))),
{
    let ghost g = rows_of(grid@);
    let ghost target = pack_results(grid_accs(g));
    let mut flat_result: Vec<u128> = Vec::new();
    let mut row: usize = 0;
    while row < ARRAY_SIZE
        invariant
            row <= 16,
            g == rows_of(grid@),
            square16(g),
            target == pack_results(grid_accs(g)),
            flat_result@.len() == row * 4,
            forall|x: int| 0 <= x < row * 4 ==> #[trigger] flat_result@[x] == target[x],
        decreases 16 - row,
    {
        let mut chunk: usize = 0;
        while chunk < 4
            invariant
                row < 16,
                chunk <= 4,
                g == rows_of(grid@),
                square16(g),
                target == pack_results(grid_accs(g)),
                flat_result@.len() == row * 4 + chunk,
                forall|x: int| 0 <= x < row * 4 + chunk ==> #[trigger] flat_result@[x] == target[x],
            decreases 4 - chunk,
        {
            assert(g[row as int] == grid@[row as int]@);
            let pe0 = grid[row][chunk * 4 + 0].get_result();
            let pe1 = grid[row][chunk * 4 + 1].get_result();
            let pe2 = grid[row][chunk * 4 + 2].get_result();
            let pe3 = grid[row][chunk * 4 + 3].get_result();
            let combined = pack4(pe0, pe1, pe2, pe3);
            proof {
                let x = row * 4 + chunk;
                assert(x / 4 == row as int);
                assert(x % 4 == chunk as int);
            }
            flat_result.push(combined);
            chunk = chunk + 1;
        }
        row = row + 1;
    }
    assert(flat_result@ =~= target);
    flat_result
}

/// What the array asks of its host after an internal step.
pub enum SystolicStep {
    /// Nothing to send; look again next cycle.
    Waiting,
    /// A bank read of `count` words was queued.
    ReadIssued { count: u64 },
    /// The result words to write, for an `m_dim` x `n_dim` result.
    WriteResult { data: Vec<u128>, m_dim: u64, n_dim: u64 },
    /// The instruction of `rob_id` is done.
    Commit { rob_id: u64 },
    /// The array is in no state to go on.
    Invalid,
}

/// What became of a bank read response.
pub enum SystolicResponse {
    /// The array was not waiting for an operand.
    Ignored,
    /// A took its data; B comes next.
    NextOperand,
    /// B took its data and the computation started; it takes `cycles`
    /// cycles.
    Computing { cycles: u64 },
}

impl SystolicArray {
    /// The instruction being carried out.
    pub closed spec fn instruction(&self) -> SystolicInst {
        SystolicInst {
            op1_bank_id: self.op1_bank_id,
            op2_bank_id: self.op2_bank_id,
            wr_bank_id: self.wr_bank_id,
            m_dim: self.m_dim,
            n_dim: self.n_dim,
            k_dim: self.k_dim_inst,
            rob_id: self.rob_id,
        }
    }

    /// Whether the read of the awaited operand was issued.
    pub closed spec fn read_sent(&self) -> bool {
        self.read_request_sent
    }

    /// The A operand as received, row by row.
    pub closed spec fn received_a(&self) -> Seq<Seq<u64>> {
        rows_of(self.op1_data@)
    }

    /// The B operand as received, column by column.
    pub closed spec fn received_b(&self) -> Seq<Seq<u64>> {
        rows_of(self.op2_data@)
    }

    /// The words that the instruction's operands and result occupy fit in
    /// 64 bits, and so does the computation time.
    pub open spec fn dims_ok(&self) -> bool {
        let inst = self.instruction();
        &&& inst.m_dim * inst.k_dim <= u64::MAX
        &&& inst.k_dim * inst.n_dim <= u64::MAX
        &&& 2 <= inst.k_dim + self.max_rows() + self.max_cols() <= u64::MAX
    }

    /// The dimensions of the instruction: `(m_dim, n_dim, k_dim)`.
    pub fn dims(&self) -> (r: (u64, u64, u64))
        ensures
            r == (self.instruction().m_dim, self.instruction().n_dim, self.instruction().k_dim),
    {
        (self.m_dim, self.n_dim, self.k_dim_inst)
    }

    /// Whether the products of the loaded operands fit in 32 bits.
    pub fn operands_fit_check(&self) -> (r: bool)
        requires
            self.wf(),
        ensures
            r == self.operands_fit(),
    {
        match (&self.input_buffer_a, &self.input_buffer_b) {
            (Some(input_a), Some(input_b)) => {
                let ghost a = input_a.matrix();
                let ghost bt = input_b.matrix();
                let mut i: usize = 0;
                while i < ARRAY_SIZE
                    invariant
                        i <= 16,
                        input_a.wf(),
                        input_b.wf(),
                        a == input_a.matrix(),
                        bt == input_b.matrix(),
                        self.operand_a() == Some(a),
                        self.operand_b() == Some(bt),
                        square16(a),
                        square16(bt),
                        forall|x: int, y: int, z: int|
                            0 <= x < i && 0 <= y < 16 && 0 <= z < 16 ==> #[trigger] cell_product(a[x][z], bt[y][z])
                                <= u32::MAX,
                    decreases 16 - i,
                {
                    let mut j: usize = 0;
                    while j < ARRAY_SIZE
                        invariant
                            i < 16,
                            j <= 16,
                            input_a.wf(),
                            input_b.wf(),
                            a == input_a.matrix(),
                            bt == input_b.matrix(),
                            self.operand_a() == Some(a),
                            self.operand_b() == Some(bt),
                            square16(a),
                            square16(bt),
                            forall|x: int, y: int, z: int|
                                ((0 <= x < i && 0 <= y < 16) || (x == i && 0 <= y < j)) && 0 <= z < 16 ==> #[trigger] cell_product(a[x][z], bt[y][z])
                                    <= u32::MAX,
                        decreases 16 - j,
                    {
                        let mut k: usize = 0;
                        while k < ARRAY_SIZE
                            invariant
                                i < 16,
                                j < 16,
                                k <= 16,
                                input_a.wf(),
                                input_b.wf(),
                                a == input_a.matrix(),
                                bt == input_b.matrix(),
                                self.operand_a() == Some(a),
                                self.operand_b() == Some(bt),
                                square16(a),
                                square16(bt),
                                forall|x: int, y: int, z: int|
                                    ((0 <= x < i && 0 <= y < 16) || (x == i && 0 <= y < j) || (x == i && y == j && z < k)) && 0 <= z < 16 ==> #[trigger] cell_product(a[x][z], bt[y][z])
                                        <= u32::MAX,
                            decreases 16 - k,
                        {
                            let x = input_a.get(i, k) as u32 as u64;
                            let y = input_b.get(j, k) as u32 as u64;
                            assert(x == (a[i as int][k as int] as u32) as u64);
                            assert(y == (bt[j as int][k as int] as u32) as u64);
                            assert(x * y <= u64::MAX) by (nonlinear_arith)
                                requires
                                    x <= u32::MAX,
                                    y <= u32::MAX,
                            ;
                            if x * y > u32::MAX as u64 {
                                proof {
                                    assert(cell_product(a[i as int][k as int], bt[j as int][k as int]) > u32::MAX);
                                    assert(!products_fit(a, bt));
                                    assert(self.operand_a() == Some(a));
                                    assert(self.operand_b() == Some(bt));
                                }
                                return false;
                            }
                            k = k + 1;
                        }
                        j = j + 1;
                    }
                    i = i + 1;
                }
                true
            },
            _ => true,
        }
    }

    /// Takes a bank read response. Waiting for A, the words become the
    /// `m_dim` x `k_dim` matrix A; waiting for B, the `k_dim` x `n_dim`
    /// matrix B, kept by columns. The low bytes of A and of B are then
    /// loaded, B by columns as the cells take it, so that the array computes
    /// A·B. An error when the words hold fewer bytes than the operand has
    /// entries, or when the operands cannot be loaded.
    pub fn on_read_response(&mut self, data: &Vec<u128>, slot: &mut SystolicSlot) -> (r: Result<SystolicResponse, ()>)
        requires
            old(self).wf(),
            old(self).dims_ok(),
        ensures
            final(self).wf(),
            final(self).instruction() == old(self).instruction(),
            final(self).max_rows() == old(self).max_rows(),
            final(self).max_cols() == old(self).max_cols(),
            old(self).control() == SystolicArrayState::WaitOp1 ==> {
                let need = old(self).instruction().m_dim * old(self).instruction().k_dim;
                &&& data@.len() * 16 < need ==> r is Err && *final(self) == *old(self)
                    && *final(slot) == *old(slot)
                &&& data@.len() * 16 >= need ==> {
                    &&& r matches Ok(SystolicResponse::NextOperand)
                    &&& final(self).received_a() == unpacked(
                        data@,
                        old(self).instruction().m_dim as nat,
                        old(self).instruction().k_dim as nat,
                    )
                    &&& final(self).control() == SystolicArrayState::WaitOp2
                    &&& !final(self).read_sent()
                    &&& final(slot).state == SystolicArrayState::WaitOp2
                    &&& final(slot).can_issue == old(slot).can_issue
                    &&& final(slot).inst == old(slot).inst
                }
            },
            old(self).control() == SystolicArrayState::WaitOp2 ==> {
                let inst = old(self).instruction();
                let need = inst.k_dim * inst.n_dim;
                let u = unpacked(data@, inst.k_dim as nat, inst.n_dim as nat);
                let b = transposed(u, inst.k_dim as nat, inst.n_dim as nat);
                &&& data@.len() * 16 < need ==> r is Err && *final(self) == *old(self)
                    && *final(slot) == *old(slot)
                &&& data@.len() * 16 >= need ==> {
                    &&& final(self).received_b() == b
                    &&& old(self).max_rows() >= 16 && old(self).max_cols() >= 16 ==> {
                        &&& r matches Ok(SystolicResponse::Computing { cycles })
                        &&& cycles == inst.k_dim + old(self).max_rows() + old(self).max_cols() - 2
                        &&& final(self).operand_a() == Some(padded(low_bytes16(old(self).received_a())))
                        &&& final(self).operand_b() == Some(transpose16(padded(low_bytes16(u))))
                        &&& final(self).running()
                        &&& final(self).operands_fit()
                        &&& final(self).cycles() == 0
                        &&& final(self).control() == SystolicArrayState::Computing
                        &&& final(slot).state == SystolicArrayState::Computing
                        &&& final(slot).can_issue == old(slot).can_issue
                        &&& final(slot).inst == old(slot).inst
                    }
                    &&& !(old(self).max_rows() >= 16 && old(self).max_cols() >= 16) ==> r is Err
                }
            },
            old(self).control() != SystolicArrayState::WaitOp1 && old(self).control()
                != SystolicArrayState::WaitOp2 ==> (r matches Ok(SystolicResponse::Ignored)
                && *final(self) == *old(self) && *final(slot) == *old(slot)),
    {
        match self.state {
            SystolicArrayState::WaitOp1 => {
                let required_len = self.m_dim * self.k_dim_inst;
                if (data.len() as u128) * 16 < required_len as u128 {
                    return Err(());
                }
                self.op1_data = unpack_rows(data, self.m_dim, self.k_dim_inst);
                self.state = SystolicArrayState::WaitOp2;
                slot.state = SystolicArrayState::WaitOp2;
                self.read_request_sent = false;
                Ok(SystolicResponse::NextOperand)
            },
            SystolicArrayState::WaitOp2 => {
                let required_len = self.k_dim_inst * self.n_dim;
                if (data.len() as u128) * 16 < required_len as u128 {
                    return Err(());
                }
                let untransposed_b = unpack_rows(data, self.k_dim_inst, self.n_dim);
                proof {
                    let u = unpacked(data@, self.k_dim_inst as nat, self.n_dim as nat);
                    assert(rows_of(untransposed_b@).len() == u.len());
                    assert forall|i: int| 0 <= i < self.k_dim_inst implies #[trigger] untransposed_b@[i]@.len() == self.n_dim by {
                        assert(rows_of(untransposed_b@)[i] == untransposed_b@[i]@);
                        assert(u[i].len() == self.n_dim);
                    }
                    assert(untransposed_b@.len() == rows_of(untransposed_b@).len());
                }
                let padded_b = low_bytes_corner(&untransposed_b);
                self.op2_data = transpose_rows(&untransposed_b, self.k_dim_inst, self.n_dim);
                let padded_a = low_bytes_corner(&self.op1_data);
                proof {
                    let la = rows_of(padded_a@);
                    let lb = rows_of(padded_b@);
                    assert forall|i: int, j: int| 0 <= i < la.len() && 0 <= j < la[i].len() implies #[trigger] la[i][j] < 256 by {}
                    assert forall|i: int, j: int| 0 <= i < lb.len() && 0 <= j < lb[i].len() implies #[trigger] lb[i][j] < 256 by {}
                    lemma_padded_bytes(la);
                    lemma_padded_bytes(lb);
                }
                proof {
                    let la = rows_of(padded_a@);
                    let lb = rows_of(padded_b@);
                    assert(la.len() == 16 && lb.len() == 16);
                    assert(padded_a@.len() == 16);
                    assert(padded_b@.len() == 16);
                    assert(la[0] == padded_a@[0]@);
                    assert(lb[0] == padded_b@[0]@);
                    assert(padded_a@[0]@.len() == 16);
                    assert(padded_b@[0]@.len() == 16);
                }
                match self.load_matrices(padded_a, padded_b) {
                    Ok(()) => {},
                    Err(_) => {
                        return Err(());
                    },
                }
                proof {
                    let a = self.input_buffer_a->0.matrix();
                    let bt = self.input_buffer_b->0.matrix();
                    lemma_byte_products_fit(a, bt);
                }
                self.start();
                self.state = SystolicArrayState::Computing;
                slot.state = SystolicArrayState::Computing;
                let cycles = self.k_dim_inst + self.rows as u64 + self.cols as u64 - 2;
                Ok(SystolicResponse::Computing { cycles })
            },
            _ => Ok(SystolicResponse::Ignored),
        }
    }

    /// One internal step of the instruction: take a waiting instruction
    /// when idle; issue the read of the awaited operand once; compute and
    /// hand out the packed result; commit once the result is written.
    pub fn internal_step(&mut self, slot: &mut SystolicSlot, store: &mut BankStore) -> (r: SystolicStep)
        requires
            old(self).wf(),
            old(self).dims_ok(),
            old(self).operands_fit(),
        ensures
            final(self).wf(),
            final(self).max_rows() == old(self).max_rows(),
            final(self).max_cols() == old(self).max_cols(),
            final(self).operands_fit(),
            old(self).control() == SystolicArrayState::Idle ==> match old(slot).inst {
                Some(inst) => {
                    &&& r is Waiting
                    &&& final(self).instruction() == inst
                    &&& final(self).control() == SystolicArrayState::WaitOp1
                    &&& !final(self).read_sent()
                    &&& final(slot).inst is None
                    &&& final(slot).state == SystolicArrayState::WaitOp1
                    &&& final(slot).can_issue == old(slot).can_issue
                    &&& final(store)@ == old(store)@
                },
                None => r is Waiting && *final(self) == *old(self) && *final(slot) == *old(slot)
                    && final(store)@ == old(store)@,
            },
            old(self).control() == SystolicArrayState::WaitOp1 || old(self).control()
                == SystolicArrayState::WaitOp2 ==> {
                let inst = old(self).instruction();
                let op1 = old(self).control() == SystolicArrayState::WaitOp1;
                let bank = if op1 { inst.op1_bank_id } else { inst.op2_bank_id };
                let count = if op1 { inst.m_dim * inst.k_dim } else { inst.k_dim * inst.n_dim };
                &&& *final(slot) == *old(slot)
                &&& final(self).control() == old(self).control()
                &&& final(self).instruction() == inst
                &&& final(self).read_sent()
                &&& !old(self).read_sent() ==> (r matches SystolicStep::ReadIssued { count: c }
                    && c == count && final(store)@ == read_request(old(store)@, bank, 0, count as u64))
                &&& old(self).read_sent() ==> r is Waiting && final(store)@ == old(store)@
            },
            old(self).control() == SystolicArrayState::Computing ==> {
                &&& *final(slot) == *old(slot)
                &&& final(store)@ == old(store)@
                &&& old(self).running() ==> {
                    &&& r matches SystolicStep::WriteResult { data, m_dim, n_dim }
                    &&& data@ == pack_results(array_product(old(self).operand_a()->0, old(self).operand_b()->0))
                    &&& m_dim == old(self).instruction().m_dim
                    &&& n_dim == old(self).instruction().n_dim
                    &&& final(self).control() == SystolicArrayState::WaitWriteResp
                }
                &&& !old(self).running() && old(self).output_ready() ==> {
                    &&& r matches SystolicStep::WriteResult { data, m_dim, n_dim }
                    &&& data@ == pack_results(grid_accs(old(self).grid()))
                    &&& final(self).control() == SystolicArrayState::WaitWriteResp
                }
                &&& !old(self).running() && !old(self).output_ready() ==> r is Invalid
            },
            old(self).control() == SystolicArrayState::WaitWriteResp ==> {
                &&& r matches SystolicStep::Commit { rob_id } && rob_id == old(self).instruction().rob_id
                &&& final(self).control() == SystolicArrayState::Idle
                &&& final(slot).state == SystolicArrayState::Idle
                &&& final(slot).can_issue
                &&& final(slot).inst == old(slot).inst
                &&& final(store)@ == old(store)@
            },
    {
        match self.state {
            SystolicArrayState::Idle => {
                match slot.inst.take() {
                    Some(inst) => {
                        self.op1_bank_id = inst.op1_bank_id;
                        self.op2_bank_id = inst.op2_bank_id;
                        self.wr_bank_id = inst.wr_bank_id;
                        self.m_dim = inst.m_dim;
                        self.n_dim = inst.n_dim;
                        self.k_dim_inst = inst.k_dim;
                        self.rob_id = inst.rob_id;
                        self.state = SystolicArrayState::WaitOp1;
                        slot.state = SystolicArrayState::WaitOp1;
                        self.read_request_sent = false;
                        SystolicStep::Waiting
                    },
                    None => SystolicStep::Waiting,
                }
            },
            SystolicArrayState::WaitOp1 | SystolicArrayState::WaitOp2 => {
                if !self.read_request_sent {
                    let count = if self.state == SystolicArrayState::WaitOp1 {
                        let c = self.m_dim * self.k_dim_inst;
                        request_read_bank_for_systolic(store, self.op1_bank_id, 0, c, self.rob_id);
                        c
                    } else {
                        let c = self.k_dim_inst * self.n_dim;
                        request_read_bank_for_systolic(store, self.op2_bank_id, 0, c, self.rob_id);
                        c
                    };
                    self.read_request_sent = true;
                    SystolicStep::ReadIssued { count }
                } else {
                    SystolicStep::Waiting
                }
            },
            SystolicArrayState::Computing => {
                let ghost before = *self;
                self.run_to_completion();
                if self.output_buffer.is_ready() {
                    proof {
                        if before.running() {
                            lemma_full_grid_accs(self.grid(), before.operand_a()->0, before.operand_b()->0);
                        }
                    }
                    let flat_result = pack_grid(&self.pe_grid);
                    self.state = SystolicArrayState::WaitWriteResp;
                    SystolicStep::WriteResult { data: flat_result, m_dim: self.m_dim, n_dim: self.n_dim }
                } else {
                    SystolicStep::Invalid
                }
            },
            SystolicArrayState::WaitWriteResp => {
                self.state = SystolicArrayState::Idle;
                slot.state = SystolicArrayState::Idle;
                slot.can_issue = true;
                SystolicStep::Commit { rob_id: self.rob_id }
            },
        }
    }
}

} // verus!
