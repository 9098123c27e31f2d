//! The Gemmini accelerator: its architectural state, the decoding of its
//! configuration and bookkeeping instructions, and its construction.
//!
//! Scale factors are IEEE-754 single-precision values; the state keeps them
//! as their bit patterns, exactly as the configuration registers carry them.
use vstd::prelude::*;

verus! {

/// Side of the systolic array.
pub const DIM: usize = 16;

/// Width of a scratchpad address.
pub const ADDR_LEN: usize = 32;

/// Number of scratchpad banks.
pub const BANK_NUM: usize = 4;

/// Rows of one scratchpad bank.
pub const BANK_ROWS: usize = 4096;

/// Rows of the accumulator.
pub const ACC_ROWS: usize = 1024;

/// Largest transfer of one DMA request, in bytes.
pub const MAX_BYTES: usize = 64;

/// Largest number of blocks that one move-in of 8-bit data covers.
pub const MAX_BLOCK_LEN: usize = MAX_BYTES / DIM;

/// Largest number of blocks that one move-in of 32-bit data covers.
pub const MAX_BLOCK_LEN_ACC: usize = MAX_BYTES / (DIM * 4);

/// Number of independent move-in configurations.
pub const LOAD_STATES: usize = 3;

/// Number of independent normalisation statistics.
pub const NORM_STAT_IDS: usize = 4;

/// Number of performance counters.
pub const NUM_COUNTERS: usize = 8;

/// Number of external event sources a counter can follow.
pub const NUM_EXTERNAL_COUNTERS: usize = 6;

/// Number of `DIM`-row matrices the scratchpad holds.
pub const SP_MATRICES: usize = (BANK_NUM * BANK_ROWS) / DIM;

/// Rows of the accumulator.
pub const ACCUM_ROWS: usize = ACC_ROWS;

/// Rows of the scratchpad.
pub const SPAD_ROWS: usize = SP_MATRICES * DIM;

/// Bit pattern of the single-precision value 1.0, the identity scale.
pub const MVIN_SCALE_IDENTITY_BITS: u32 = 0x3f80_0000;

/// Which operand stays in the array while the other streams through.
#[derive(Clone, Copy, Debug, PartialEq, Eq, Structural)]
pub enum Dataflow {
    /// Output stationary.
    OS,
    /// Weight stationary.
    WS,
}

/// The activation applied to results.
#[allow(non_camel_case_types)]
#[derive(Clone, Copy, Debug, PartialEq, Eq, Structural)]
pub enum Activation {
    NONE,
    RELU,
    LAYERNORM,
    IGELU,
    SOFTMAX,
}

/// A step of the normalisation unit.
#[allow(non_camel_case_types)]
#[derive(Clone, Copy, Debug, PartialEq, Eq, Structural)]
pub enum NormCmd {
    RESET,
    SUM,
    MEAN,
    VARIANCE,
    INV_STDDEV,
    MAX,
    SUM_EXP,
    INV_SUM_EXP,
}

/// Ranges of masked register fields.
pub proof fn lemma_field_ranges()
    by (bit_vector)
    ensures
        forall|x: u64| #[trigger] (x & 1) <= 1,
        forall|x: u64| #[trigger] (x & 3) <= 3,
        forall|x: u64| #[trigger] (x & 7) <= 7,
        forall|x: u64| #[trigger] (x & 0x3F) <= 0x3F,
        forall|x: u64| #[trigger] (x & 0xFF) <= 0xFF,
        forall|x: u64| #[trigger] (x & 0xFFFF) <= 0xFFFF,
        forall|x: u64| #[trigger] (x & 0xFFFF_FFFF) <= 0xFFFF_FFFF,
        forall|x: u64| #[trigger] (x & 0x1FFF_FFFF) <= 0x1FFF_FFFF,
        forall|x: u64| #[trigger] (x & 0x3FF_FFFF) <= 0x3FF_FFFF,
        forall|x: u32| #[trigger] (x & 0x1FFF_FFFF) <= 0x1FFF_FFFF,
{
}

/// The activation a two-bit configuration field selects.
pub open spec fn activation_of(bits: u64) -> Activation {
    if bits == 0 {
        Activation::NONE
    } else if bits == 1 {
        Activation::RELU
    } else if bits == 2 {
        Activation::LAYERNORM
    } else {
        Activation::IGELU
    }
}

/// Decodes a two-bit activation field.
pub fn decode_activation(bits: u64) -> (a: Activation)
    requires
        bits < 4,
    ensures
        a == activation_of(bits),
{
    if bits == 0 {
        Activation::NONE
    } else if bits == 1 {
        Activation::RELU
    } else if bits == 2 {
        Activation::LAYERNORM
    } else {
        Activation::IGELU
    }
}

/// The architectural state of the accelerator.
pub struct GemminiState {
    pub enable: bool,
    pub resetted: bool,
    pub output_sp_addr: u32,
    pub preload_sp_addr: u32,
    pub preload_cols: u16,
    pub preload_rows: u16,
    pub output_cols: u16,
    pub output_rows: u16,
    pub mode: Dataflow,
    pub sys_act: Activation,
    pub acc_act: Activation,
    pub sys_shift: u64,
    pub sys_acc_shift: u64,
    pub load_strides: Vec<u64>,
    pub store_stride: u64,
    pub load_block_strides: Vec<u16>,
    pub load_shrunks: Vec<bool>,
    /// Bit patterns of the single-precision move-in scales.
    pub load_scales: Vec<u32>,
    pub pixels_per_rows: Vec<u8>,
    /// Bit pattern of the single-precision accumulator scale.
    pub acc_shift: u32,
    pub c_stride: u16,
    pub a_stride: u16,
    pub pool_stride: u8,
    pub pool_size: u8,
    pub pool_out_dim: u8,
    pub pool_porows: u8,
    pub pool_pocols: u8,
    pub pool_orows: u8,
    pub pool_ocols: u8,
    pub pool_lpad: u8,
    pub pool_upad: u8,
    pub a_transpose: bool,
    pub b_transpose: bool,
    pub loop_ws_I: u16,
    pub loop_ws_J: u16,
    pub loop_ws_K: u16,
    pub loop_ws_pad_I: u16,
    pub loop_ws_pad_J: u16,
    pub loop_ws_pad_K: u16,
    pub loop_ws_A: u64,
    pub loop_ws_B: u64,
    pub loop_ws_D: u64,
    pub loop_ws_C: u64,
    pub loop_ws_A_stride: u64,
    pub loop_ws_B_stride: u64,
    pub loop_ws_D_stride: u64,
    pub loop_ws_C_stride: u64,
    pub loop_conv_ws_batch_size: u16,
    pub loop_conv_ws_in_row_dim: u16,
    pub loop_conv_ws_in_col_dim: u16,
    pub loop_conv_ws_in_channels: u16,
    pub loop_conv_ws_out_channels: u16,
    pub loop_conv_ws_in_stride: u16,
    pub loop_conv_ws_weight_stride: u16,
    pub loop_conv_ws_out_stride: u16,
    pub loop_conv_ws_out_row_dim: u16,
    pub loop_conv_ws_pool_out_row_dim: u16,
    pub loop_conv_ws_out_col_dim: u16,
    pub loop_conv_ws_pool_out_col_dim: u16,
    pub loop_conv_ws_stride: u16,
    pub loop_conv_ws_padding: u16,
    pub loop_conv_ws_kernel_dim: u16,
    pub loop_conv_ws_pool_size: u16,
    pub loop_conv_ws_pool_stride: u16,
    pub loop_conv_ws_pool_padding: u16,
    pub loop_conv_ws_batches: u16,
    pub loop_conv_ws_porows: u16,
    pub loop_conv_ws_pocols: u16,
    pub loop_conv_ws_pochs: u16,
    pub loop_conv_ws_krows: u16,
    pub loop_conv_ws_kcols: u16,
    pub loop_conv_ws_kchs: u16,
    pub loop_conv_ws_lpad: u16,
    pub loop_conv_ws_rpad: u16,
    pub loop_conv_ws_upad: u16,
    pub loop_conv_ws_dpad: u16,
    pub loop_conv_ws_plpad: u16,
    pub loop_conv_ws_prad: u16,
    pub loop_conv_ws_pupad: u16,
    pub loop_conv_ws_pdpad: u16,
    pub loop_conv_ws_orows: u16,
    pub loop_conv_ws_ocols: u16,
    pub loop_conv_ws_kernel_dilation: u16,
    pub loop_conv_ws_input: u64,
    pub loop_conv_ws_weights: u64,
    pub loop_conv_ws_output: u64,
    pub loop_conv_ws_bias: u64,
    pub igelu_qb: i32,
    pub igelu_qc: i32,
    pub qln2: i32,
    pub qln2_inv: i32,
    pub norm_stat_id: u8,
    pub norm_sum: Vec<i32>,
    pub norm_running_max: Vec<i32>,
    pub norm_max: Vec<i32>,
    pub norm_count: Vec<i32>,
    pub norm_mean: Vec<i32>,
    /// Bit patterns of the single-precision inverse standard deviations.
    pub norm_inv_stddev: Vec<u32>,
    /// Bit patterns of the single-precision inverse sums of exponentials.
    pub norm_inv_sum_exp: Vec<u32>,
    pub norm_reset: Vec<bool>,
    pub counter_val: Vec<u32>,
    pub counter_snapshot_val: Vec<u32>,
    pub counter_config: Vec<u16>,
    pub counter_external: Vec<u32>,
    pub counter_external_flag: Vec<bool>,
    pub snapshot_enable: bool,
    pub op_in_progress: bool,
    /// The scratchpad: `SPAD_ROWS` rows of `DIM` bytes.
    pub spad: Vec<Vec<i8>>,
    /// The processing elements' registers: `DIM` by `DIM`.
    pub pe_state: Vec<Vec<i32>>,
    /// The accumulator: `ACCUM_ROWS` rows of `DIM` words.
    pub accumulator: Vec<Vec<i32>>,
    pub a_addr: u64,
    pub b_addr: u64,
    pub c_addr: u64,
    pub d_addr: u64,
    pub m: u64,
    pub n: u64,
    pub k: u64,
    pub repeating_bias: bool,
}

/// `m` has `rows` rows of `cols` entries each.
pub open spec fn matrix_shape<T>(m: Seq<Vec<T>>, rows: nat, cols: nat) -> bool {
    &&& m.len() == rows
    &&& forall|r: int| 0 <= r < rows ==> (#[trigger] m[r])@.len() == cols
}

/// `m` is a `rows` by `DIM` matrix of zeros.
pub open spec fn zero_matrix_i8(m: Seq<Vec<i8>>, rows: nat) -> bool {
    &&& matrix_shape(m, rows, DIM as nat)
    &&& forall|r: int, c: int| 0 <= r < rows && 0 <= c < DIM ==> #[trigger] m[r]@[c] == 0
}

/// `m` is a `rows` by `DIM` matrix of zeros.
pub open spec fn zero_matrix_i32(m: Seq<Vec<i32>>, rows: nat) -> bool {
    &&& matrix_shape(m, rows, DIM as nat)
    &&& forall|r: int, c: int| 0 <= r < rows && 0 <= c < DIM ==> #[trigger] m[r]@[c] == 0
}

impl GemminiState {
    /// The shapes of the memories and of the per-configuration tables.
    pub open spec fn wf(&self) -> bool {
        &&& matrix_shape(self.spad@, SPAD_ROWS as nat, DIM as nat)
        &&& matrix_shape(self.pe_state@, DIM as nat, DIM as nat)
        &&& matrix_shape(self.accumulator@, ACCUM_ROWS as nat, DIM as nat)
        &&& self.load_strides@.len() == LOAD_STATES
        &&& self.load_block_strides@.len() == LOAD_STATES
        &&& self.load_shrunks@.len() == LOAD_STATES
        &&& self.load_scales@.len() == LOAD_STATES
        &&& self.pixels_per_rows@.len() == LOAD_STATES
        &&& self.norm_sum@.len() == NORM_STAT_IDS
        &&& self.norm_running_max@.len() == NORM_STAT_IDS
        &&& self.norm_max@.len() == NORM_STAT_IDS
        &&& self.norm_count@.len() == NORM_STAT_IDS
        &&& self.norm_mean@.len() == NORM_STAT_IDS
        &&& self.norm_inv_stddev@.len() == NORM_STAT_IDS
        &&& self.norm_inv_sum_exp@.len() == NORM_STAT_IDS
        &&& self.norm_reset@.len() == NORM_STAT_IDS
        &&& self.counter_val@.len() == NUM_COUNTERS
        &&& self.counter_snapshot_val@.len() == NUM_COUNTERS
        &&& self.counter_config@.len() == NUM_COUNTERS
        &&& self.counter_external@.len() == NUM_EXTERNAL_COUNTERS
        &&& self.counter_external_flag@.len() == NUM_COUNTERS
    }
}

/// `rows` rows of `DIM` zero bytes.
fn zero_rows_i8(rows: usize) -> (m: Vec<Vec<i8>>)
    ensures
        zero_matrix_i8(m@, rows as nat),
{
    let mut m: Vec<Vec<i8>> = Vec::new();
    let mut r: usize = 0;
    while r < rows
        invariant
            r <= rows,
            zero_matrix_i8(m@, r as nat),
        decreases rows - r,
    {
        let row: Vec<i8> = vec![0i8; DIM];
        m.push(row);
        r = r + 1;
    }
    m
}

/// `rows` rows of `DIM` zero words.
fn zero_rows_i32(rows: usize) -> (m: Vec<Vec<i32>>)
    ensures
        zero_matrix_i32(m@, rows as nat),
{
    let mut m: Vec<Vec<i32>> = Vec::new();
    let mut r: usize = 0;
    while r < rows
        invariant
            r <= rows,
            zero_matrix_i32(m@, r as nat),
        decreases rows - r,
    {
        let row: Vec<i32> = vec![0i32; DIM];
        m.push(row);
        r = r + 1;
    }
    m
}


/// `v` is `len` copies of `x`.
pub open spec fn all_equal<T>(v: Seq<T>, len: nat, x: T) -> bool {
    &&& v.len() == len
    &&& forall|i: int| 0 <= i < len ==> v[i] == x
}

/// What a reset leaves: zeroed memories, cleared operand registers and
/// normalisation statistics marked for restart.
pub open spec fn is_reset(s: GemminiState) -> bool {
    &&& s.wf()
    &&& s.enable
    &&& s.resetted
    &&& zero_matrix_i8(s.spad@, SPAD_ROWS as nat)
    &&& zero_matrix_i32(s.pe_state@, DIM as nat)
    &&& zero_matrix_i32(s.accumulator@, ACCUM_ROWS as nat)
    &&& s.a_addr == 0 && s.b_addr == 0 && s.c_addr == 0 && s.d_addr == 0
    &&& s.m == 0 && s.n == 0 && s.k == 0
    &&& !s.repeating_bias
    &&& all_equal(s.norm_reset@, NORM_STAT_IDS as nat, true)
    &&& !s.snapshot_enable
    &&& !s.op_in_progress
}

/// The state of a freshly built accelerator: reset, with every
/// configuration at its default.
pub open spec fn is_initial(s: GemminiState) -> bool {
    &&& is_reset(s)
    &&& s.output_sp_addr == 0 && s.preload_sp_addr == 0
    &&& s.preload_cols == 0 && s.preload_rows == 0
    &&& s.output_cols == 0 && s.output_rows == 0
    &&& s.mode == Dataflow::OS
    &&& s.sys_act == Activation::NONE && s.acc_act == Activation::NONE
    &&& s.sys_shift == 0 && s.sys_acc_shift == 0
    &&& all_equal(s.load_strides@, LOAD_STATES as nat, 0u64)
    &&& s.store_stride == 0
    &&& all_equal(s.load_block_strides@, LOAD_STATES as nat, 0u16)
    &&& all_equal(s.load_shrunks@, LOAD_STATES as nat, false)
    &&& all_equal(s.load_scales@, LOAD_STATES as nat, MVIN_SCALE_IDENTITY_BITS)
    &&& all_equal(s.pixels_per_rows@, LOAD_STATES as nat, 1u8)
    &&& s.acc_shift == MVIN_SCALE_IDENTITY_BITS
    &&& s.c_stride == 0 && s.a_stride == 0
    &&& s.pool_stride == 0 && s.pool_size == 0 && s.pool_out_dim == 0
    &&& s.pool_porows == 0 && s.pool_pocols == 0 && s.pool_orows == 0
    &&& s.pool_ocols == 0 && s.pool_lpad == 0 && s.pool_upad == 0
    &&& !s.a_transpose && !s.b_transpose
    &&& s.loop_ws_I == 0 && s.loop_ws_J == 0 && s.loop_ws_K == 0
    &&& s.loop_ws_pad_I == 0 && s.loop_ws_pad_J == 0 && s.loop_ws_pad_K == 0
    &&& s.loop_ws_A == 0 && s.loop_ws_B == 0 && s.loop_ws_D == 0 && s.loop_ws_C == 0
    &&& s.loop_ws_A_stride == 0 && s.loop_ws_B_stride == 0
    &&& s.loop_ws_D_stride == 0 && s.loop_ws_C_stride == 0
    &&& s.loop_conv_ws_batch_size == 0 && s.loop_conv_ws_in_row_dim == 0
    &&& s.loop_conv_ws_in_col_dim == 0 && s.loop_conv_ws_in_channels == 0
    &&& s.loop_conv_ws_out_channels == 0 && s.loop_conv_ws_in_stride == 0
    &&& s.loop_conv_ws_weight_stride == 0 && s.loop_conv_ws_out_stride == 0
    &&& s.loop_conv_ws_out_row_dim == 0 && s.loop_conv_ws_pool_out_row_dim == 0
    &&& s.loop_conv_ws_out_col_dim == 0 && s.loop_conv_ws_pool_out_col_dim == 0
    &&& s.loop_conv_ws_stride == 0 && s.loop_conv_ws_padding == 0
    &&& s.loop_conv_ws_kernel_dim == 0 && s.loop_conv_ws_pool_size == 0
    &&& s.loop_conv_ws_pool_stride == 0 && s.loop_conv_ws_pool_padding == 0
    &&& s.loop_conv_ws_batches == 0 && s.loop_conv_ws_porows == 0
    &&& s.loop_conv_ws_pocols == 0 && s.loop_conv_ws_pochs == 0
    &&& s.loop_conv_ws_krows == 0 && s.loop_conv_ws_kcols == 0 && s.loop_conv_ws_kchs == 0
    &&& s.loop_conv_ws_lpad == 0 && s.loop_conv_ws_rpad == 0
    &&& s.loop_conv_ws_upad == 0 && s.loop_conv_ws_dpad == 0
    &&& s.loop_conv_ws_plpad == 0 && s.loop_conv_ws_prad == 0
    &&& s.loop_conv_ws_pupad == 0 && s.loop_conv_ws_pdpad == 0
    &&& s.loop_conv_ws_orows == 0 && s.loop_conv_ws_ocols == 0
    &&& s.loop_conv_ws_kernel_dilation == 0
    &&& s.loop_conv_ws_input == 0 && s.loop_conv_ws_weights == 0
    &&& s.loop_conv_ws_output == 0 && s.loop_conv_ws_bias == 0
    &&& s.igelu_qb == 0 && s.igelu_qc == 0 && s.qln2 == 0 && s.qln2_inv == 0
    &&& s.norm_stat_id == 0
    &&& all_equal(s.norm_sum@, NORM_STAT_IDS as nat, 0i32)
    &&& all_equal(s.norm_running_max@, NORM_STAT_IDS as nat, i32::MIN)
    &&& all_equal(s.norm_max@, NORM_STAT_IDS as nat, 0i32)
    &&& all_equal(s.norm_count@, NORM_STAT_IDS as nat, 0i32)
    &&& all_equal(s.norm_mean@, NORM_STAT_IDS as nat, 0i32)
    &&& all_equal(s.norm_inv_stddev@, NORM_STAT_IDS as nat, 0u32)
    &&& all_equal(s.norm_inv_sum_exp@, NORM_STAT_IDS as nat, 0u32)
    &&& all_equal(s.counter_val@, NUM_COUNTERS as nat, 0u32)
    &&& all_equal(s.counter_snapshot_val@, NUM_COUNTERS as nat, 0u32)
    &&& all_equal(s.counter_config@, NUM_COUNTERS as nat, 0u16)
    &&& all_equal(s.counter_external@, NUM_EXTERNAL_COUNTERS as nat, 0u32)
    &&& all_equal(s.counter_external_flag@, NUM_COUNTERS as nat, false)
}

impl GemminiState {
    /// A freshly reset accelerator with every configuration at its default.
    pub fn new() -> (s: Self)
        ensures
            is_initial(s),
    {
        let mut state = GemminiState {
            enable: true,
            resetted: false,
            output_sp_addr: 0,
            preload_sp_addr: 0,
            preload_cols: 0,
            preload_rows: 0,
            output_cols: 0,
            output_rows: 0,
            mode: Dataflow::OS,
            sys_act: Activation::NONE,
            acc_act: Activation::NONE,
            sys_shift: 0,
            sys_acc_shift: 0,
            load_strides: vec![0u64; LOAD_STATES],
            store_stride: 0,
            load_block_strides: vec![0u16; LOAD_STATES],
            load_shrunks: vec![false; LOAD_STATES],
            load_scales: vec![MVIN_SCALE_IDENTITY_BITS; LOAD_STATES],
            pixels_per_rows: vec![1u8; LOAD_STATES],
            acc_shift: MVIN_SCALE_IDENTITY_BITS,
            c_stride: 0,
            a_stride: 0,
            pool_stride: 0,
            pool_size: 0,
            pool_out_dim: 0,
            pool_porows: 0,
            pool_pocols: 0,
            pool_orows: 0,
            pool_ocols: 0,
            pool_lpad: 0,
            pool_upad: 0,
            a_transpose: false,
            b_transpose: false,
            loop_ws_I: 0,
            loop_ws_J: 0,
            loop_ws_K: 0,
            loop_ws_pad_I: 0,
            loop_ws_pad_J: 0,
            loop_ws_pad_K: 0,
            loop_ws_A: 0,
            loop_ws_B: 0,
            loop_ws_D: 0,
            loop_ws_C: 0,
            loop_ws_A_stride: 0,
            loop_ws_B_stride: 0,
            loop_ws_D_stride: 0,
            loop_ws_C_stride: 0,
            loop_conv_ws_batch_size: 0,
            loop_conv_ws_in_row_dim: 0,
            loop_conv_ws_in_col_dim: 0,
            loop_conv_ws_in_channels: 0,
            loop_conv_ws_out_channels: 0,
            loop_conv_ws_in_stride: 0,
            loop_conv_ws_weight_stride: 0,
            loop_conv_ws_out_stride: 0,
            loop_conv_ws_out_row_dim: 0,
            loop_conv_ws_pool_out_row_dim: 0,
            loop_conv_ws_out_col_dim: 0,
            loop_conv_ws_pool_out_col_dim: 0,
            loop_conv_ws_stride: 0,
            loop_conv_ws_padding: 0,
            loop_conv_ws_kernel_dim: 0,
            loop_conv_ws_pool_size: 0,
            loop_conv_ws_pool_stride: 0,
            loop_conv_ws_pool_padding: 0,
            loop_conv_ws_batches: 0,
            loop_conv_ws_porows: 0,
            loop_conv_ws_pocols: 0,
            loop_conv_ws_pochs: 0,
            loop_conv_ws_krows: 0,
            loop_conv_ws_kcols: 0,
            loop_conv_ws_kchs: 0,
            loop_conv_ws_lpad: 0,
            loop_conv_ws_rpad: 0,
            loop_conv_ws_upad: 0,
            loop_conv_ws_dpad: 0,
            loop_conv_ws_plpad: 0,
            loop_conv_ws_prad: 0,
            loop_conv_ws_pupad: 0,
            loop_conv_ws_pdpad: 0,
            loop_conv_ws_orows: 0,
            loop_conv_ws_ocols: 0,
            loop_conv_ws_kernel_dilation: 0,
            loop_conv_ws_input: 0,
            loop_conv_ws_weights: 0,
            loop_conv_ws_output: 0,
            loop_conv_ws_bias: 0,
            igelu_qb: 0,
            igelu_qc: 0,
            qln2: 0,
            qln2_inv: 0,
            norm_stat_id: 0,
            norm_sum: vec![0i32; NORM_STAT_IDS],
            norm_running_max: vec![i32::MIN; NORM_STAT_IDS],
            norm_max: vec![0i32; NORM_STAT_IDS],
            norm_count: vec![0i32; NORM_STAT_IDS],
            norm_mean: vec![0i32; NORM_STAT_IDS],
            norm_inv_stddev: vec![0u32; NORM_STAT_IDS],
            norm_inv_sum_exp: vec![0u32; NORM_STAT_IDS],
            norm_reset: vec![true; NORM_STAT_IDS],
            counter_val: vec![0u32; NUM_COUNTERS],
            counter_snapshot_val: vec![0u32; NUM_COUNTERS],
            counter_config: vec![0u16; NUM_COUNTERS],
            counter_external: vec![0u32; NUM_EXTERNAL_COUNTERS],
            counter_external_flag: vec![false; NUM_COUNTERS],
            snapshot_enable: false,
            op_in_progress: false,
            spad: zero_rows_i8(SPAD_ROWS),
            pe_state: zero_rows_i32(DIM),
            accumulator: zero_rows_i32(ACCUM_ROWS),
            a_addr: 0,
            b_addr: 0,
            c_addr: 0,
            d_addr: 0,
            m: 0,
            n: 0,
            k: 0,
            repeating_bias: false,
        };
        state.reset();
        state
    }

    /// Clears the memories and the operand registers and marks every
    /// normalisation statistic for restart; the configuration stays.
    pub fn reset(&mut self)
        requires
            old(self).wf(),
        ensures
            is_reset(*final(self)),
            *final(self) == (GemminiState {
                enable: true,
                resetted: true,
                spad: final(self).spad,
                pe_state: final(self).pe_state,
                accumulator: final(self).accumulator,
                a_addr: 0,
                b_addr: 0,
                c_addr: 0,
                d_addr: 0,
                m: 0,
                n: 0,
                k: 0,
                repeating_bias: false,
                norm_reset: final(self).norm_reset,
                snapshot_enable: false,
                op_in_progress: false,
                ..*old(self)
            }),
    {
        self.enable = true;
        self.spad = zero_rows_i8(SPAD_ROWS);
        self.pe_state = zero_rows_i32(DIM);
        self.accumulator = zero_rows_i32(ACCUM_ROWS);
        self.a_addr = 0;
        self.b_addr = 0;
        self.c_addr = 0;
        self.d_addr = 0;
        self.m = 0;
        self.n = 0;
        self.k = 0;
        self.repeating_bias = false;
        self.norm_reset = vec![true; NORM_STAT_IDS];
        self.snapshot_enable = false;
        self.op_in_progress = false;
        self.resetted = true;
    }
}


/// Function code of `config`.
pub const CONFIG_FUNCT: u64 = 0;

/// Function code of the move-in with the first load configuration.
pub const MVIN_FUNCT: u64 = 2;

/// Function code of the move-in with the second load configuration.
pub const MVIN2_FUNCT: u64 = 1;

/// Function code of the move-in with the third load configuration.
pub const MVIN3_FUNCT: u64 = 14;

/// Function code of `mvout`.
pub const MVOUT_FUNCT: u64 = 3;

/// Function code of `compute` with a preload.
pub const COMPUTE_PRELOADED_FUNCT: u64 = 4;

/// Function code of `compute` on the stationary operand in place.
pub const COMPUTE_ACCUMULATED_FUNCT: u64 = 5;

/// Function code of `preload`.
pub const PRELOAD_FUNCT: u64 = 6;

/// Function code of `flush`.
pub const FLUSH_FUNCT: u64 = 7;

/// Function code of `loop_ws`.
pub const LOOP_WS_FUNCT: u64 = 8;

/// Function code of `loop_ws_config_bounds`.
pub const LOOP_WS_CONFIG_BOUNDS_FUNCT: u64 = 9;

/// Function code of `loop_ws_config_addrs_AB`.
pub const LOOP_WS_CONFIG_ADDRS_AB_FUNCT: u64 = 10;

/// Function code of `loop_ws_config_addrs_DC`.
pub const LOOP_WS_CONFIG_ADDRS_DC_FUNCT: u64 = 11;

/// Function code of `loop_ws_config_strides_AB`.
pub const LOOP_WS_CONFIG_STRIDES_AB_FUNCT: u64 = 12;

/// Function code of `loop_ws_config_strides_DC`.
pub const LOOP_WS_CONFIG_STRIDES_DC_FUNCT: u64 = 13;

/// Function code of `loop_conv_ws`.
pub const LOOP_CONV_WS_FUNCT: u64 = 15;

/// Function code of `loop_conv_ws_config_1`; the next five follow it.
pub const LOOP_CONV_WS_CONFIG_1_FUNCT: u64 = 16;

/// Function code of `fence`.
pub const FENCE_FUNCT: u64 = 127;

/// Function code of `counter_operation`.
pub const COUNTER_OP_FUNCT: u64 = 126;

/// The accelerator: its state and the function codes it answers to.
pub struct Gemmini {
    pub state: GemminiState,
    pub config_funct: u64,
    pub mvin_funct: u64,
    pub mvin2_funct: u64,
    pub mvin3_funct: u64,
    pub mvout_funct: u64,
    pub compute_preloaded_funct: u64,
    pub compute_accumulated_funct: u64,
    pub preload_funct: u64,
    pub flush_funct: u64,
    pub loop_ws_funct: u64,
    pub loop_ws_config_bounds_funct: u64,
    pub loop_ws_config_addrs_AB_funct: u64,
    pub loop_ws_config_addrs_DC_funct: u64,
    pub loop_ws_config_strides_AB_funct: u64,
    pub loop_ws_config_strides_DC_funct: u64,
    pub loop_conv_ws_funct: u64,
    pub loop_conv_ws_config_1_funct: u64,
    pub loop_conv_ws_config_2_funct: u64,
    pub loop_conv_ws_config_3_funct: u64,
    pub loop_conv_ws_config_4_funct: u64,
    pub loop_conv_ws_config_5_funct: u64,
    pub loop_conv_ws_config_6_funct: u64,
    pub fence_funct: u64,
    pub counter_op_funct: u64,
}

/// The state after `config` with a first operand whose low two bits are 0
/// (the execute pipeline), 2 (the store pipeline) or 3 (normalisation).
pub open spec fn config_scalars(s: GemminiState, rs1: u64, rs2: u64) -> GemminiState {
    if rs1 & 3 == 0 {
        let c = GemminiState {
            c_stride: ((rs2 >> 48) & 0xFFFF) as u16,
            a_stride: ((rs1 >> 16) & 0xFFFF) as u16,
            ..s
        };
        if (rs1 >> 7) & 1 != 0 {
            c
        } else {
            GemminiState {
                mode: if (rs1 >> 2) & 1 == 0 {
                    Dataflow::OS
                } else {
                    Dataflow::WS
                },
                sys_act: activation_of((rs1 >> 3) & 3),
                sys_shift: rs2 & 0xFFFF_FFFF,
                sys_acc_shift: (rs1 >> 32) & 0xFFFF_FFFF,
                a_transpose: (rs1 >> 8) & 1 != 0,
                b_transpose: (rs1 >> 9) & 1 != 0,
                ..c
            }
        }
    } else if rs1 & 3 == 2 {
        GemminiState {
            store_stride: rs2 & 0xFFFF_FFFF,
            acc_act: activation_of((rs1 >> 2) & 3),
            acc_shift: ((rs2 >> 32) & 0xFFFF_FFFF) as u32,
            pool_stride: ((rs1 >> 4) & 3) as u8,
            pool_size: ((rs1 >> 6) & 3) as u8,
            pool_upad: ((rs1 >> 8) & 3) as u8,
            pool_lpad: ((rs1 >> 10) & 3) as u8,
            pool_out_dim: ((rs1 >> 24) & 0xFF) as u8,
            pool_porows: ((rs1 >> 32) & 0xFF) as u8,
            pool_pocols: ((rs1 >> 40) & 0xFF) as u8,
            pool_orows: ((rs1 >> 48) & 0xFF) as u8,
            pool_ocols: ((rs1 >> 56) & 0xFF) as u8,
            ..s
        }
    } else if rs1 & 3 == 3 {
        let n = GemminiState { norm_stat_id: ((rs1 >> 8) & 0xFF) as u8, ..s };
        if (rs1 >> 17) & 1 == 0 {
            GemminiState {
                igelu_qb: (rs2 & 0xFFFF_FFFF) as i32,
                igelu_qc: ((rs2 >> 32) & 0xFFFF_FFFF) as i32,
                qln2: ((rs1 >> 32) & 0xFFFF_FFFF) as i32,
                ..n
            }
        } else {
            n
        }
    } else {
        s
    }
}

/// The load configuration that `config` with low bits 1 selects.
pub open spec fn config_load_id(rs1: u64) -> int {
    ((rs1 >> 3) & 3) as int
}

/// The pixels-per-row field of a load configuration, where 0 means 1.
pub open spec fn pixels_field(rs1: u64) -> u8 {
    if (rs1 >> 8) & 0xFF == 0 {
        1u8
    } else {
        ((rs1 >> 8) & 0xFF) as u8
    }
}

/// The state after `preload`.
pub open spec fn preload_state(s: GemminiState, bd_addr: u64, c_addr: u64) -> GemminiState {
    GemminiState {
        preload_sp_addr: (bd_addr & 0xFFFF_FFFF) as u32,
        output_sp_addr: (c_addr & 0xFFFF_FFFF) as u32,
        preload_cols: ((bd_addr >> 32) & 0xFFFF) as u16,
        preload_rows: ((bd_addr >> 48) & 0xFFFF) as u16,
        output_cols: ((c_addr >> 32) & 0xFFFF) as u16,
        output_rows: ((c_addr >> 48) & 0xFFFF) as u16,
        ..s
    }
}

impl GemminiState {
    /// `config` of the execute pipeline.
    #[verifier::spinoff_prover]
    #[verifier::rlimit(40)]
    fn config_ex(&mut self, rs1: u64, rs2: u64)
        requires
            old(self).wf(),
            rs1 & 3 == 0,
        ensures
            final(self).wf(),
            *final(self) == config_scalars(*old(self), rs1, rs2),
    {
        proof {
            lemma_field_ranges();
        }
        let new_mode = if (rs1 >> 2) & 1 == 0 {
            Dataflow::OS
        } else {
            Dataflow::WS
        };
        let new_act = decode_activation((rs1 >> 3) & 3);
        let new_sys_shift = rs2 & 0xFFFF_FFFF;
        let new_sys_acc_shift = (rs1 >> 32) & 0xFFFF_FFFF;
        let new_c_stride = ((rs2 >> 48) & 0xFFFF) as u16;
        let new_a_stride = ((rs1 >> 16) & 0xFFFF) as u16;
        let new_a_transpose = (rs1 >> 8) & 1 != 0;
        let new_b_transpose = (rs1 >> 9) & 1 != 0;
        let set_only_strides = (rs1 >> 7) & 1 != 0;
        if !set_only_strides {
            self.mode = new_mode;
            self.sys_act = new_act;
            self.sys_shift = new_sys_shift;
            self.sys_acc_shift = new_sys_acc_shift;
            self.a_transpose = new_a_transpose;
            self.b_transpose = new_b_transpose;
        }
        self.c_stride = new_c_stride;
        self.a_stride = new_a_stride;
    }

    /// `config` of a load pipeline.
    fn config_load(&mut self, rs1: u64, rs2: u64)
        requires
            old(self).wf(),
            rs1 & 3 == 1,
            config_load_id(rs1) < LOAD_STATES,
        ensures
            final(self).wf(),
            ({
                let id = config_load_id(rs1);
                &&& final(self).load_strides@ == old(self).load_strides@.update(id, rs2)
                &&& final(self).load_block_strides@
                    == old(self).load_block_strides@.update(id, ((rs1 >> 16) & 0xFFFF) as u16)
                &&& final(self).load_scales@
                    == old(self).load_scales@.update(id, ((rs1 >> 32) & 0xFFFF_FFFF) as u32)
                &&& final(self).pixels_per_rows@
                    == old(self).pixels_per_rows@.update(id, pixels_field(rs1))
                &&& *final(self) == (GemminiState {
                    load_strides: final(self).load_strides,
                    load_block_strides: final(self).load_block_strides,
                    load_scales: final(self).load_scales,
                    pixels_per_rows: final(self).pixels_per_rows,
                    ..*old(self)
                })
            }),
    {
        proof {
            lemma_field_ranges();
        }
        let state_id = ((rs1 >> 3) & 3) as usize;
        self.load_strides.set(state_id, rs2);
        self.load_block_strides.set(state_id, ((rs1 >> 16) & 0xFFFF) as u16);
        self.load_scales.set(state_id, ((rs1 >> 32) & 0xFFFF_FFFF) as u32);
        let pixels = ((rs1 >> 8) & 0xFF) as u8;
        if pixels == 0 {
            self.pixels_per_rows.set(state_id, 1);
        } else {
            self.pixels_per_rows.set(state_id, pixels);
        }
    }

    /// `config` of the store pipeline.
    fn config_store(&mut self, rs1: u64, rs2: u64)
        requires
            old(self).wf(),
            rs1 & 3 == 2,
        ensures
            final(self).wf(),
            *final(self) == config_scalars(*old(self), rs1, rs2),
    {
        proof {
            lemma_field_ranges();
        }
        self.store_stride = rs2 & 0xFFFF_FFFF;
        self.acc_act = decode_activation((rs1 >> 2) & 3);
        self.acc_shift = ((rs2 >> 32) & 0xFFFF_FFFF) as u32;
        self.pool_stride = ((rs1 >> 4) & 3) as u8;
        self.pool_size = ((rs1 >> 6) & 3) as u8;
        self.pool_upad = ((rs1 >> 8) & 3) as u8;
        self.pool_lpad = ((rs1 >> 10) & 3) as u8;
        self.pool_out_dim = ((rs1 >> 24) & 0xFF) as u8;
        self.pool_porows = ((rs1 >> 32) & 0xFF) as u8;
        self.pool_pocols = ((rs1 >> 40) & 0xFF) as u8;
        self.pool_orows = ((rs1 >> 48) & 0xFF) as u8;
        self.pool_ocols = ((rs1 >> 56) & 0xFF) as u8;
    }

    /// `config` of the normalisation unit.
    fn config_norm(&mut self, rs1: u64, rs2: u64)
        requires
            old(self).wf(),
            rs1 & 3 == 3,
        ensures
            final(self).wf(),
            *final(self) == config_scalars(*old(self), rs1, rs2),
    {
        proof {
            lemma_field_ranges();
        }
        self.norm_stat_id = ((rs1 >> 8) & 0xFF) as u8;
        if (rs1 >> 17) & 1 == 0 {
            self.igelu_qb = (rs2 & 0xFFFF_FFFF) as i32;
            self.igelu_qc = ((rs2 >> 32) & 0xFFFF_FFFF) as i32;
            self.qln2 = ((rs1 >> 32) & 0xFFFF_FFFF) as i32;
        }
    }
}

/// Counter values after the reset field of a counter operation.
pub open spec fn counters_after_reset(s: GemminiState, rs1: u64) -> Seq<u32> {
    if rs1 & 1 != 0 {
        Seq::new(NUM_COUNTERS as nat, |i: int| 0u32)
    } else {
        s.counter_val@
    }
}

/// The counter a counter operation addresses.
pub open spec fn counter_index(rs1: u64) -> int {
    ((rs1 >> 4) & 7) as int
}

/// The snapshot after a counter operation.
pub open spec fn snapshot_after(s: GemminiState, rs1: u64) -> Seq<u32> {
    if (rs1 >> 2) & 1 != 0 {
        Seq::new(
            NUM_COUNTERS as nat,
            |i: int|
                if s.counter_external_flag@[i] {
                    s.counter_external@[s.counter_config@[i] as int]
                } else {
                    counters_after_reset(s, rs1)[i]
                },
        )
    } else {
        s.counter_snapshot_val@
    }
}

/// Counter values after a counter operation.
pub open spec fn counters_after(s: GemminiState, rs1: u64) -> Seq<u32> {
    if (rs1 >> 3) & 1 != 0 {
        counters_after_reset(s, rs1).update(counter_index(rs1), 0u32)
    } else {
        counters_after_reset(s, rs1)
    }
}

/// Counter sources after a counter operation.
pub open spec fn counter_config_after(s: GemminiState, rs1: u64) -> Seq<u16> {
    if (rs1 >> 3) & 1 != 0 {
        s.counter_config@.update(counter_index(rs1), ((rs1 >> 13) & 0x3F) as u16)
    } else {
        s.counter_config@
    }
}

/// External-source flags after a counter operation.
pub open spec fn counter_flags_after(s: GemminiState, rs1: u64) -> Seq<bool> {
    if (rs1 >> 3) & 1 != 0 {
        s.counter_external_flag@.update(counter_index(rs1), (rs1 >> 32) & 1 != 0)
    } else {
        s.counter_external_flag@
    }
}

/// Whether snapshots are on after a counter operation.
pub open spec fn snapshot_enable_after(s: GemminiState, rs1: u64) -> bool {
    if (rs1 >> 2) & 1 != 0 {
        true
    } else if (rs1 >> 1) & 1 != 0 {
        false
    } else {
        s.snapshot_enable
    }
}

/// What a counter operation answers: the snapshot when snapshots are on,
/// else the external source or the counter itself.
pub open spec fn counter_answer(s: GemminiState, rs1: u64) -> u64 {
    let i = counter_index(rs1);
    if snapshot_enable_after(s, rs1) {
        snapshot_after(s, rs1)[i] as u64
    } else if counter_flags_after(s, rs1)[i] {
        s.counter_external@[counter_config_after(s, rs1)[i] as int] as u64
    } else {
        counters_after(s, rs1)[i] as u64
    }
}

/// Every external source that a counter operation reads exists.
pub open spec fn counter_sources_exist(s: GemminiState, rs1: u64) -> bool {
    &&& (rs1 >> 2) & 1 != 0 ==> forall|i: int|
        0 <= i < NUM_COUNTERS && #[trigger] s.counter_external_flag@[i]
            ==> s.counter_config@[i] < NUM_EXTERNAL_COUNTERS
    &&& (!snapshot_enable_after(s, rs1) && counter_flags_after(s, rs1)[counter_index(rs1)])
        ==> counter_config_after(s, rs1)[counter_index(rs1)] < NUM_EXTERNAL_COUNTERS
}

impl GemminiState {
    /// Resets, snapshots and reconfigures the performance counters as the
    /// fields of `rs1` ask, and reads the addressed one.
    fn counter_op(&mut self, rs1: u64) -> (r: u64)
        requires
            old(self).wf(),
            counter_sources_exist(*old(self), rs1),
        ensures
            final(self).wf(),
            r == counter_answer(*old(self), rs1),
            final(self).counter_val@ == counters_after(*old(self), rs1),
            final(self).counter_snapshot_val@ == snapshot_after(*old(self), rs1),
            final(self).counter_config@ == counter_config_after(*old(self), rs1),
            final(self).counter_external_flag@ == counter_flags_after(*old(self), rs1),
            *final(self) == (GemminiState {
                counter_val: final(self).counter_val,
                counter_snapshot_val: final(self).counter_snapshot_val,
                counter_config: final(self).counter_config,
                counter_external_flag: final(self).counter_external_flag,
                snapshot_enable: snapshot_enable_after(*old(self), rs1),
                op_in_progress: if rs1 & 1 != 0 {
                    false
                } else {
                    old(self).op_in_progress
                },
                ..*old(self)
            }),
    {
        proof {
            lemma_field_ranges();
        }
        let ghost s0 = *self;
        let counter_reset = rs1 & 1 != 0;
        let snapshot_reset = (rs1 >> 1) & 1 != 0;
        let take_snapshot = (rs1 >> 2) & 1 != 0;
        let change_config = (rs1 >> 3) & 1 != 0;
        let counter_index = ((rs1 >> 4) & 7) as usize;
        let counter_addr = ((rs1 >> 13) & 0x3F) as u16;
        let external_counter = (rs1 >> 32) & 1 != 0;
        if counter_reset {
            self.counter_val = vec![0u32; NUM_COUNTERS];
            self.op_in_progress = false;
            assert(self.counter_val@ =~= counters_after_reset(s0, rs1));
        }
        if snapshot_reset {
            self.snapshot_enable = false;
        }
        if take_snapshot {
            self.snapshot_enable = true;
            let mut snap: Vec<u32> = Vec::new();
            let mut i: usize = 0;
            while i < NUM_COUNTERS
                invariant
                    i <= NUM_COUNTERS,
                    s0.wf(),
                    counter_sources_exist(s0, rs1),
                    (rs1 >> 2) & 1 != 0,
                    self.counter_val@ == counters_after_reset(s0, rs1),
                    self.counter_external_flag == s0.counter_external_flag,
                    self.counter_config == s0.counter_config,
                    self.counter_external == s0.counter_external,
                    snap@ =~= snapshot_after(s0, rs1).take(i as int),
                decreases NUM_COUNTERS - i,
            {
                if self.counter_external_flag[i] {
                    let src = self.counter_config[i] as usize;
                    snap.push(self.counter_external[src]);
                } else {
                    snap.push(self.counter_val[i]);
                }
                i = i + 1;
                assert(snap@ =~= snapshot_after(s0, rs1).take(i as int));
            }
            self.counter_snapshot_val = snap;
            assert(self.counter_snapshot_val@ =~= snapshot_after(s0, rs1));
        }
        if change_config {
            self.counter_config.set(counter_index, counter_addr);
            self.counter_val.set(counter_index, 0);
            self.counter_external_flag.set(counter_index, external_counter);
        }
        if self.snapshot_enable {
            self.counter_snapshot_val[counter_index] as u64
        } else if self.counter_external_flag[counter_index] {
            let src = self.counter_config[counter_index] as usize;
            self.counter_external[src] as u64
        } else {
            self.counter_val[counter_index] as u64
        }
    }
}

/// The state after `loop_ws_config_bounds`.
pub open spec fn loop_ws_bounds_state(s: GemminiState, rs1: u64, rs2: u64) -> GemminiState {
    GemminiState {
        loop_ws_I: (rs2 & 0xFFFF) as u16,
        loop_ws_J: ((rs2 >> 16) & 0xFFFF) as u16,
        loop_ws_K: ((rs2 >> 32) & 0xFFFF) as u16,
        loop_ws_pad_I: (rs1 & 0xFFFF) as u16,
        loop_ws_pad_J: ((rs1 >> 16) & 0xFFFF) as u16,
        loop_ws_pad_K: ((rs1 >> 32) & 0xFFFF) as u16,
        ..s
    }
}

/// The state after `loop_ws_config_addrs_AB`.
pub open spec fn loop_ws_addrs_ab_state(s: GemminiState, rs1: u64, rs2: u64) -> GemminiState {
    GemminiState { loop_ws_A: rs1, loop_ws_B: rs2, ..s }
}

/// The state after `loop_ws_config_addrs_DC`.
pub open spec fn loop_ws_addrs_dc_state(s: GemminiState, rs1: u64, rs2: u64) -> GemminiState {
    GemminiState { loop_ws_D: rs1, loop_ws_C: rs2, ..s }
}

/// The state after `loop_ws_config_strides_AB`.
pub open spec fn loop_ws_strides_ab_state(s: GemminiState, rs1: u64, rs2: u64) -> GemminiState {
    GemminiState {
        loop_ws_A_stride: rs1,
        loop_ws_B_stride: rs2,
        ..s
    }
}

/// The state after `loop_ws_config_strides_DC`.
pub open spec fn loop_ws_strides_dc_state(s: GemminiState, rs1: u64, rs2: u64) -> GemminiState {
    GemminiState {
        loop_ws_D_stride: rs1,
        loop_ws_C_stride: rs2,
        ..s
    }
}

/// The state after `loop_conv_ws_config_1`.
pub open spec fn loop_conv_ws_state_1(s: GemminiState, rs1: u64, rs2: u64) -> GemminiState {
    GemminiState {
        loop_conv_ws_batch_size: (rs1 & 0xFFFF) as u16,
        loop_conv_ws_in_row_dim: ((rs1 >> 16) & 0xFFFF) as u16,
        loop_conv_ws_in_channels: ((rs1 >> 32) & 0xFFFF) as u16,
        loop_conv_ws_out_channels: ((rs1 >> 48) & 0xFFFF) as u16,
        loop_conv_ws_out_row_dim: (rs2 & 0xFFFF) as u16,
        loop_conv_ws_pool_out_row_dim: ((rs2 >> 16) & 0xFFFF) as u16,
        loop_conv_ws_out_col_dim: ((rs2 >> 32) & 0xFFFF) as u16,
        loop_conv_ws_stride: ((rs2 >> 48) & 0xFF) as u16,
        loop_conv_ws_padding: ((rs2 >> 56) & 0xFF) as u16,
        ..s
    }
}

/// The state after `loop_conv_ws_config_2`.
pub open spec fn loop_conv_ws_state_2(s: GemminiState, rs1: u64, rs2: u64) -> GemminiState {
    GemminiState {
        loop_conv_ws_kernel_dim: ((rs1 >> 48) & 0xFFFF) as u16,
        loop_conv_ws_pool_out_col_dim: ((rs1 >> 32) & 0xFFFF) as u16,
        loop_conv_ws_pool_size: ((rs1 >> 16) & 0xFFFF) as u16,
        loop_conv_ws_pool_stride: ((rs1 >> 8) & 0xFF) as u16,
        loop_conv_ws_pool_padding: (rs1 & 0xFF) as u16,
        loop_conv_ws_batches: ((rs2 >> 48) & 0xFFFF) as u16,
        loop_conv_ws_porows: ((rs2 >> 32) & 0xFFFF) as u16,
        loop_conv_ws_pocols: ((rs2 >> 16) & 0xFFFF) as u16,
        loop_conv_ws_pochs: (rs2 & 0xFFFF) as u16,
        ..s
    }
}

/// The state after `loop_conv_ws_config_3`.
pub open spec fn loop_conv_ws_state_3(s: GemminiState, rs1: u64, rs2: u64) -> GemminiState {
    GemminiState {
        loop_conv_ws_krows: ((rs1 >> 48) & 0xFFFF) as u16,
        loop_conv_ws_kcols: ((rs1 >> 32) & 0xFFFF) as u16,
        loop_conv_ws_kchs: ((rs1 >> 16) & 0xFFFF) as u16,
        loop_conv_ws_lpad: (rs1 & 0xFFFF) as u16,
        loop_conv_ws_rpad: ((rs2 >> 48) & 0xFFFF) as u16,
        loop_conv_ws_upad: ((rs2 >> 32) & 0xFFFF) as u16,
        loop_conv_ws_dpad: ((rs2 >> 24) & 0xFF) as u16,
        loop_conv_ws_plpad: ((rs2 >> 16) & 0xFF) as u16,
        loop_conv_ws_in_col_dim: (rs2 & 0xFFFF) as u16,
        ..s
    }
}

/// The state after `loop_conv_ws_config_4`.
pub open spec fn loop_conv_ws_state_4(s: GemminiState, rs1: u64, rs2: u64) -> GemminiState {
    GemminiState {
        loop_conv_ws_orows: ((rs1 >> 48) & 0xFFFF) as u16,
        loop_conv_ws_prad: ((rs1 >> 32) & 0xFFFF) as u16,
        loop_conv_ws_pupad: ((rs1 >> 21) & 0xFF) as u16,
        loop_conv_ws_pdpad: ((rs1 >> 10) & 0xFF) as u16,
        loop_conv_ws_kernel_dilation: (rs1 & 0xFF) as u16,
        loop_conv_ws_in_stride: ((rs2 >> 48) & 0xFFFF) as u16,
        loop_conv_ws_weight_stride: ((rs2 >> 32) & 0xFFFF) as u16,
        loop_conv_ws_out_stride: ((rs2 >> 16) & 0xFFFF) as u16,
        loop_conv_ws_ocols: (rs2 & 0xFFFF) as u16,
        ..s
    }
}

/// The state after `loop_conv_ws_config_5`.
pub open spec fn loop_conv_ws_state_5(s: GemminiState, rs1: u64, rs2: u64) -> GemminiState {
    GemminiState {
        loop_conv_ws_weights: rs1,
        loop_conv_ws_output: rs2,
        ..s
    }
}

/// The state after `loop_conv_ws_config_6`.
pub open spec fn loop_conv_ws_state_6(s: GemminiState, rs1: u64, rs2: u64) -> GemminiState {
    GemminiState {
        loop_conv_ws_bias: rs1,
        loop_conv_ws_input: rs2,
        ..s
    }
}

impl Gemmini {
    /// The state is well formed and the function codes are the standard ones.
    pub open spec fn wf(&self) -> bool {
        &&& self.state.wf()
        &&& self.config_funct == CONFIG_FUNCT
        &&& self.mvin_funct == MVIN_FUNCT
        &&& self.mvin2_funct == MVIN2_FUNCT
        &&& self.mvin3_funct == MVIN3_FUNCT
        &&& self.mvout_funct == MVOUT_FUNCT
        &&& self.compute_preloaded_funct == COMPUTE_PRELOADED_FUNCT
        &&& self.compute_accumulated_funct == COMPUTE_ACCUMULATED_FUNCT
        &&& self.preload_funct == PRELOAD_FUNCT
        &&& self.flush_funct == FLUSH_FUNCT
        &&& self.loop_ws_funct == LOOP_WS_FUNCT
        &&& self.loop_ws_config_bounds_funct == LOOP_WS_CONFIG_BOUNDS_FUNCT
        &&& self.loop_ws_config_addrs_AB_funct == LOOP_WS_CONFIG_ADDRS_AB_FUNCT
        &&& self.loop_ws_config_addrs_DC_funct == LOOP_WS_CONFIG_ADDRS_DC_FUNCT
        &&& self.loop_ws_config_strides_AB_funct == LOOP_WS_CONFIG_STRIDES_AB_FUNCT
        &&& self.loop_ws_config_strides_DC_funct == LOOP_WS_CONFIG_STRIDES_DC_FUNCT
        &&& self.loop_conv_ws_funct == LOOP_CONV_WS_FUNCT
        &&& self.loop_conv_ws_config_1_funct == LOOP_CONV_WS_CONFIG_1_FUNCT
        &&& self.loop_conv_ws_config_2_funct == LOOP_CONV_WS_CONFIG_1_FUNCT + 1
        &&& self.loop_conv_ws_config_3_funct == LOOP_CONV_WS_CONFIG_1_FUNCT + 2
        &&& self.loop_conv_ws_config_4_funct == LOOP_CONV_WS_CONFIG_1_FUNCT + 3
        &&& self.loop_conv_ws_config_5_funct == LOOP_CONV_WS_CONFIG_1_FUNCT + 4
        &&& self.loop_conv_ws_config_6_funct == LOOP_CONV_WS_CONFIG_1_FUNCT + 5
        &&& self.fence_funct == FENCE_FUNCT
        &&& self.counter_op_funct == COUNTER_OP_FUNCT
    }

    /// A freshly built accelerator.
    pub fn new() -> (g: Self)
        ensures
            g.wf(),
            is_initial(g.state),
    {
        Gemmini {
            state: GemminiState::new(),
            config_funct: CONFIG_FUNCT,
            mvin_funct: MVIN_FUNCT,
            mvin2_funct: MVIN2_FUNCT,
            mvin3_funct: MVIN3_FUNCT,
            mvout_funct: MVOUT_FUNCT,
            compute_preloaded_funct: COMPUTE_PRELOADED_FUNCT,
            compute_accumulated_funct: COMPUTE_ACCUMULATED_FUNCT,
            preload_funct: PRELOAD_FUNCT,
            flush_funct: FLUSH_FUNCT,
            loop_ws_funct: LOOP_WS_FUNCT,
            loop_ws_config_bounds_funct: LOOP_WS_CONFIG_BOUNDS_FUNCT,
            loop_ws_config_addrs_AB_funct: LOOP_WS_CONFIG_ADDRS_AB_FUNCT,
            loop_ws_config_addrs_DC_funct: LOOP_WS_CONFIG_ADDRS_DC_FUNCT,
            loop_ws_config_strides_AB_funct: LOOP_WS_CONFIG_STRIDES_AB_FUNCT,
            loop_ws_config_strides_DC_funct: LOOP_WS_CONFIG_STRIDES_DC_FUNCT,
            loop_conv_ws_funct: LOOP_CONV_WS_FUNCT,
            loop_conv_ws_config_1_funct: LOOP_CONV_WS_CONFIG_1_FUNCT,
            loop_conv_ws_config_2_funct: LOOP_CONV_WS_CONFIG_1_FUNCT + 1,
            loop_conv_ws_config_3_funct: LOOP_CONV_WS_CONFIG_1_FUNCT + 2,
            loop_conv_ws_config_4_funct: LOOP_CONV_WS_CONFIG_1_FUNCT + 3,
            loop_conv_ws_config_5_funct: LOOP_CONV_WS_CONFIG_1_FUNCT + 4,
            loop_conv_ws_config_6_funct: LOOP_CONV_WS_CONFIG_1_FUNCT + 5,
            fence_funct: FENCE_FUNCT,
            counter_op_funct: COUNTER_OP_FUNCT,
        }
    }

    /// Resets the state (see `GemminiState::reset`).
    pub fn reset(&mut self)
        requires
            old(self).wf(),
        ensures
            final(self).wf(),
            is_reset(final(self).state),
            final(self).state == (GemminiState {
                enable: true,
                resetted: true,
                spad: final(self).state.spad,
                pe_state: final(self).state.pe_state,
                accumulator: final(self).state.accumulator,
                a_addr: 0,
                b_addr: 0,
                c_addr: 0,
                d_addr: 0,
                m: 0,
                n: 0,
                k: 0,
                repeating_bias: false,
                norm_reset: final(self).state.norm_reset,
                snapshot_enable: false,
                op_in_progress: false,
                ..old(self).state
            }),
    {
        self.state.reset();
    }

    /// Configures the execute pipeline (low bits 0), a load pipeline (1),
    /// the store pipeline (2) or the normalisation unit (3).
    pub fn config(&mut self, rs1: u64, rs2: u64)
        requires
            old(self).wf(),
            rs1 & 3 == 1 ==> config_load_id(rs1) < LOAD_STATES,
        ensures
            final(self).wf(),
            rs1 & 3 != 1 ==> final(self).state == config_scalars(old(self).state, rs1, rs2),
            rs1 & 3 == 1 ==> {
                let id = config_load_id(rs1);
                &&& final(self).state.load_strides@ == old(self).state.load_strides@.update(id, rs2)
                &&& final(self).state.load_block_strides@
                    == old(self).state.load_block_strides@.update(id, ((rs1 >> 16) & 0xFFFF) as u16)
                &&& final(self).state.load_scales@
                    == old(self).state.load_scales@.update(id, ((rs1 >> 32) & 0xFFFF_FFFF) as u32)
                &&& final(self).state.pixels_per_rows@
                    == old(self).state.pixels_per_rows@.update(id, pixels_field(rs1))
                &&& final(self).state == (GemminiState {
                    load_strides: final(self).state.load_strides,
                    load_block_strides: final(self).state.load_block_strides,
                    load_scales: final(self).state.load_scales,
                    pixels_per_rows: final(self).state.pixels_per_rows,
                    ..old(self).state
                })
            },
    {
        proof {
            lemma_field_ranges();
        }
        if (rs1 & 3) == 0 {
            self.state.config_ex(rs1, rs2);
        } else if (rs1 & 3) == 1 {
            self.state.config_load(rs1, rs2);
        } else if (rs1 & 3) == 2 {
            self.state.config_store(rs1, rs2);
        } else {
            self.state.config_norm(rs1, rs2);
        }
    }

    /// Sets the operand that the next `compute` preloads (`bd_addr`) and
    /// where its output goes (`c_addr`): a scratchpad address in the low 32
    /// bits, then the columns and the rows, 16 bits each.
    pub fn preload(&mut self, bd_addr: u64, c_addr: u64)
        requires
            old(self).wf(),
        ensures
            final(self).wf(),
            final(self).state == preload_state(old(self).state, bd_addr, c_addr),
    {
        self.state.preload_sp_addr = (bd_addr & 0xFFFF_FFFF) as u32;
        self.state.output_sp_addr = (c_addr & 0xFFFF_FFFF) as u32;
        self.state.preload_cols = ((bd_addr >> 32) & 0xFFFF) as u16;
        self.state.preload_rows = ((bd_addr >> 48) & 0xFFFF) as u16;
        self.state.output_cols = ((c_addr >> 32) & 0xFFFF) as u16;
        self.state.output_rows = ((c_addr >> 48) & 0xFFFF) as u16;
    }

    /// Operates the performance counters (see `counter_answer`).
    pub fn counter_operation(&mut self, rs1: u64) -> (r: u64)
        requires
            old(self).wf(),
            counter_sources_exist(old(self).state, rs1),
        ensures
            final(self).wf(),
            r == counter_answer(old(self).state, rs1),
            final(self).state.counter_val@ == counters_after(old(self).state, rs1),
            final(self).state.counter_snapshot_val@ == snapshot_after(old(self).state, rs1),
            final(self).state.counter_config@ == counter_config_after(old(self).state, rs1),
            final(self).state.counter_external_flag@ == counter_flags_after(old(self).state, rs1),
            final(self).state == (GemminiState {
                counter_val: final(self).state.counter_val,
                counter_snapshot_val: final(self).state.counter_snapshot_val,
                counter_config: final(self).state.counter_config,
                counter_external_flag: final(self).state.counter_external_flag,
                snapshot_enable: snapshot_enable_after(old(self).state, rs1),
                op_in_progress: if rs1 & 1 != 0 {
                    false
                } else {
                    old(self).state.op_in_progress
                },
                ..old(self).state
            }),
    {
        self.state.counter_op(rs1)
    }

    /// Sets the tile counts (`rs2`: I, J, K, 16 bits each) and the padding
    /// of the last tiles (`rs1`, the same layout) of `loop_ws`.
    pub fn loop_ws_config_bounds(&mut self, rs1: u64, rs2: u64)
        requires
            old(self).wf(),
        ensures
            final(self).wf(),
            final(self).state == loop_ws_bounds_state(old(self).state, rs1, rs2),
    {
        proof {
            lemma_field_ranges();
        }
        self.state.loop_ws_I = (rs2 & 0xFFFF) as u16;
        self.state.loop_ws_J = ((rs2 >> 16) & 0xFFFF) as u16;
        self.state.loop_ws_K = ((rs2 >> 32) & 0xFFFF) as u16;
        self.state.loop_ws_pad_I = (rs1 & 0xFFFF) as u16;
        self.state.loop_ws_pad_J = ((rs1 >> 16) & 0xFFFF) as u16;
        self.state.loop_ws_pad_K = ((rs1 >> 32) & 0xFFFF) as u16;
    }

    /// Sets the DRAM addresses of A and B for `loop_ws`.
    #[allow(non_snake_case)]
    pub fn loop_ws_config_addrs_AB(&mut self, rs1: u64, rs2: u64)
        requires
            old(self).wf(),
        ensures
            final(self).wf(),
            final(self).state == loop_ws_addrs_ab_state(old(self).state, rs1, rs2),
    {
        self.state.loop_ws_A = rs1;
        self.state.loop_ws_B = rs2;
    }

    /// Sets the DRAM addresses of D and C for `loop_ws`.
    #[allow(non_snake_case)]
    pub fn loop_ws_config_addrs_DC(&mut self, rs1: u64, rs2: u64)
        requires
            old(self).wf(),
        ensures
            final(self).wf(),
            final(self).state == loop_ws_addrs_dc_state(old(self).state, rs1, rs2),
    {
        self.state.loop_ws_D = rs1;
        self.state.loop_ws_C = rs2;
    }

    /// Sets the row strides of A and B for `loop_ws`.
    #[allow(non_snake_case)]
    pub fn loop_ws_config_strides_AB(&mut self, rs1: u64, rs2: u64)
        requires
            old(self).wf(),
        ensures
            final(self).wf(),
            final(self).state == loop_ws_strides_ab_state(old(self).state, rs1, rs2),
    {
        self.state.loop_ws_A_stride = rs1;
        self.state.loop_ws_B_stride = rs2;
    }

    /// Sets the row strides of D and C for `loop_ws`.
    #[allow(non_snake_case)]
    pub fn loop_ws_config_strides_DC(&mut self, rs1: u64, rs2: u64)
        requires
            old(self).wf(),
        ensures
            final(self).wf(),
            final(self).state == loop_ws_strides_dc_state(old(self).state, rs1, rs2),
    {
        self.state.loop_ws_D_stride = rs1;
        self.state.loop_ws_C_stride = rs2;
    }

    /// Sets the batch, input and output geometry of `loop_conv_ws`.
    pub fn loop_conv_ws_config_1(&mut self, rs1: u64, rs2: u64)
        requires
            old(self).wf(),
        ensures
            final(self).wf(),
            final(self).state == loop_conv_ws_state_1(old(self).state, rs1, rs2),
    {
        proof {
            lemma_field_ranges();
        }
        self.state.loop_conv_ws_batch_size = (rs1 & 0xFFFF) as u16;
        self.state.loop_conv_ws_in_row_dim = ((rs1 >> 16) & 0xFFFF) as u16;
        self.state.loop_conv_ws_in_channels = ((rs1 >> 32) & 0xFFFF) as u16;
        self.state.loop_conv_ws_out_channels = ((rs1 >> 48) & 0xFFFF) as u16;
        self.state.loop_conv_ws_out_row_dim = (rs2 & 0xFFFF) as u16;
        self.state.loop_conv_ws_pool_out_row_dim = ((rs2 >> 16) & 0xFFFF) as u16;
        self.state.loop_conv_ws_out_col_dim = ((rs2 >> 32) & 0xFFFF) as u16;
        self.state.loop_conv_ws_stride = ((rs2 >> 48) & 0xFF) as u16;
        self.state.loop_conv_ws_padding = ((rs2 >> 56) & 0xFF) as u16;
    }

    /// Sets the kernel, pooling and pooled-output geometry of `loop_conv_ws`.
    pub fn loop_conv_ws_config_2(&mut self, rs1: u64, rs2: u64)
        requires
            old(self).wf(),
        ensures
            final(self).wf(),
            final(self).state == loop_conv_ws_state_2(old(self).state, rs1, rs2),
    {
        proof {
            lemma_field_ranges();
        }
        self.state.loop_conv_ws_kernel_dim = ((rs1 >> 48) & 0xFFFF) as u16;
        self.state.loop_conv_ws_pool_out_col_dim = ((rs1 >> 32) & 0xFFFF) as u16;
        self.state.loop_conv_ws_pool_size = ((rs1 >> 16) & 0xFFFF) as u16;
        self.state.loop_conv_ws_pool_stride = ((rs1 >> 8) & 0xFF) as u16;
        self.state.loop_conv_ws_pool_padding = (rs1 & 0xFF) as u16;
        self.state.loop_conv_ws_batches = ((rs2 >> 48) & 0xFFFF) as u16;
        self.state.loop_conv_ws_porows = ((rs2 >> 32) & 0xFFFF) as u16;
        self.state.loop_conv_ws_pocols = ((rs2 >> 16) & 0xFFFF) as u16;
        self.state.loop_conv_ws_pochs = (rs2 & 0xFFFF) as u16;
    }

    /// Sets the kernel extent, the channel count and the padding of
    /// `loop_conv_ws`.
    pub fn loop_conv_ws_config_3(&mut self, rs1: u64, rs2: u64)
        requires
            old(self).wf(),
        ensures
            final(self).wf(),
            final(self).state == loop_conv_ws_state_3(old(self).state, rs1, rs2),
    {
        proof {
            lemma_field_ranges();
        }
        self.state.loop_conv_ws_krows = ((rs1 >> 48) & 0xFFFF) as u16;
        self.state.loop_conv_ws_kcols = ((rs1 >> 32) & 0xFFFF) as u16;
        self.state.loop_conv_ws_kchs = ((rs1 >> 16) & 0xFFFF) as u16;
        self.state.loop_conv_ws_lpad = (rs1 & 0xFFFF) as u16;
        self.state.loop_conv_ws_rpad = ((rs2 >> 48) & 0xFFFF) as u16;
        self.state.loop_conv_ws_upad = ((rs2 >> 32) & 0xFFFF) as u16;
        self.state.loop_conv_ws_dpad = ((rs2 >> 24) & 0xFF) as u16;
        self.state.loop_conv_ws_plpad = ((rs2 >> 16) & 0xFF) as u16;
        self.state.loop_conv_ws_in_col_dim = (rs2 & 0xFFFF) as u16;
    }

    /// Sets the output extent, the pooling padding, the dilation and the
    /// strides of `loop_conv_ws`.
    pub fn loop_conv_ws_config_4(&mut self, rs1: u64, rs2: u64)
        requires
            old(self).wf(),
        ensures
            final(self).wf(),
            final(self).state == loop_conv_ws_state_4(old(self).state, rs1, rs2),
    {
        proof {
            lemma_field_ranges();
        }
        self.state.loop_conv_ws_orows = ((rs1 >> 48) & 0xFFFF) as u16;
        self.state.loop_conv_ws_prad = ((rs1 >> 32) & 0xFFFF) as u16;
        self.state.loop_conv_ws_pupad = ((rs1 >> 21) & 0xFF) as u16;
        self.state.loop_conv_ws_pdpad = ((rs1 >> 10) & 0xFF) as u16;
        self.state.loop_conv_ws_kernel_dilation = (rs1 & 0xFF) as u16;
        self.state.loop_conv_ws_in_stride = ((rs2 >> 48) & 0xFFFF) as u16;
        self.state.loop_conv_ws_weight_stride = ((rs2 >> 32) & 0xFFFF) as u16;
        self.state.loop_conv_ws_out_stride = ((rs2 >> 16) & 0xFFFF) as u16;
        self.state.loop_conv_ws_ocols = (rs2 & 0xFFFF) as u16;
    }

    /// Sets the DRAM addresses of the weights and of the output of
    /// `loop_conv_ws`.
    pub fn loop_conv_ws_config_5(&mut self, rs1: u64, rs2: u64)
        requires
            old(self).wf(),
        ensures
            final(self).wf(),
            final(self).state == loop_conv_ws_state_5(old(self).state, rs1, rs2),
    {
        self.state.loop_conv_ws_weights = rs1;
        self.state.loop_conv_ws_output = rs2;
    }

    /// Sets the DRAM addresses of the bias and of the input of
    /// `loop_conv_ws`.
    pub fn loop_conv_ws_config_6(&mut self, rs1: u64, rs2: u64)
        requires
            old(self).wf(),
        ensures
            final(self).wf(),
            final(self).state == loop_conv_ws_state_6(old(self).state, rs1, rs2),
    {
        self.state.loop_conv_ws_bias = rs1;
        self.state.loop_conv_ws_input = rs2;
    }
}

} // verus!
