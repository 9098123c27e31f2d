//! Bemu: the software golden model of the Buckyball custom instructions.
//!
//! It keeps a flat main memory and a set of scratchpad banks, and gives each
//! custom instruction (MSET, MVIN, MVOUT, MUL_WARP16, TRANSPOSE) its
//! architectural meaning.
use vstd::prelude::*;
use crate::buckyball::memdomain::memdomain::{mem_inst_of, MemInstType};

verus! {

/// Number of virtual banks.
pub const BANK_NUM: usize = 32;

/// Width of a bank line in bits.
pub const BANK_WIDTH: usize = 128;

/// Number of lines in a bank.
pub const BANK_LINES: usize = 1024;

/// Size of one bank in bytes (`BANK_LINES * BANK_WIDTH / 8`).
pub const BANK_SIZE: usize = 16384;

/// Size of main memory in bytes (`BANK_NUM * BANK_SIZE`).
pub const TOTAL_MEMORY_SIZE: usize = 524288;

/// Side of the square matrices of MUL_WARP16 and TRANSPOSE.
pub const MATRIX_SIZE: usize = 16;

/// Number of 64-bit words in one matrix.
pub const MATRIX_WORDS: usize = 256;

/// Counters of executed instructions.
#[derive(Clone, Copy, Debug)]
pub struct BemuStats {
    pub instructions_executed: u64,
    pub matmul_count: u64,
    pub mset_count: u64,
    pub mvin_count: u64,
    pub mvout_count: u64,
    pub transpose_count: u64,
}

impl BemuStats {
    pub open spec fn zero() -> BemuStats {
        BemuStats {
            instructions_executed: 0,
            matmul_count: 0,
            mset_count: 0,
            mvin_count: 0,
            mvout_count: 0,
            transpose_count: 0,
        }
    }
}

impl Default for BemuStats {
    fn default() -> (s: Self)
        ensures
            s == BemuStats::zero(),
    {
        BemuStats {
            instructions_executed: 0,
            matmul_count: 0,
            mset_count: 0,
            mvin_count: 0,
            mvout_count: 0,
            transpose_count: 0,
        }
    }
}

/// Configuration that MSET records for one bank.
#[derive(Clone, Copy, Debug)]
pub struct BankConfig {
    pub allocated: bool,
    pub rows: u64,
    pub cols: u64,
    pub bank_id: u64,
}

impl BankConfig {
    pub open spec fn zero() -> BankConfig {
        BankConfig { allocated: false, rows: 0, cols: 0, bank_id: 0 }
    }
}

impl Default for BankConfig {
    fn default() -> (c: Self)
        ensures
            c == BankConfig::zero(),
    {
        BankConfig { allocated: false, rows: 0, cols: 0, bank_id: 0 }
    }
}

// ---------------------------------------------------------------------------
// Byte-level model of little-endian 64-bit words
// ---------------------------------------------------------------------------

/// Byte `k` (0 = least significant) of `v`.
pub open spec fn u64_byte(v: u64, k: int) -> u8 {
    if k == 0 {
        (v & 0xff) as u8
    } else if k == 1 {
        ((v >> 8u64) & 0xff) as u8
    } else if k == 2 {
        ((v >> 16u64) & 0xff) as u8
    } else if k == 3 {
        ((v >> 24u64) & 0xff) as u8
    } else if k == 4 {
        ((v >> 32u64) & 0xff) as u8
    } else if k == 5 {
        ((v >> 40u64) & 0xff) as u8
    } else if k == 6 {
        ((v >> 48u64) & 0xff) as u8
    } else {
        ((v >> 56u64) & 0xff) as u8
    }
}

/// The little-endian 64-bit word stored in `s[at..at + 8]`.
pub open spec fn le_u64(s: Seq<u8>, at: int) -> u64 {
    (s[at] as u64) | ((s[at + 1] as u64) << 8u64) | ((s[at + 2] as u64) << 16u64) | ((s[at
        + 3] as u64) << 24u64) | ((s[at + 4] as u64) << 32u64) | ((s[at + 5] as u64) << 40u64)
        | ((s[at + 6] as u64) << 48u64) | ((s[at + 7] as u64) << 56u64)
}

/// `s` with the little-endian bytes of `v` stored at `s[at..at + 8]`.
pub open spec fn put_u64(s: Seq<u8>, at: int, v: u64) -> Seq<u8> {
    Seq::new(s.len(), |p: int| if at <= p < at + 8 { u64_byte(v, p - at) } else { s[p] })
}

/// Eight bytes that spell out `v` read back as `v`.
pub proof fn lemma_le_u64_of_bytes(s: Seq<u8>, at: int, v: u64)
    requires
        0 <= at,
        at + 8 <= s.len(),
        forall|k: int| 0 <= k < 8 ==> #[trigger] s[at + k] == u64_byte(v, k),
    ensures
        le_u64(s, at) == v,
{
    assert(s[at + 0] == u64_byte(v, 0));
    assert(s[at + 1] == u64_byte(v, 1));
    assert(s[at + 2] == u64_byte(v, 2));
    assert(s[at + 3] == u64_byte(v, 3));
    assert(s[at + 4] == u64_byte(v, 4));
    assert(s[at + 5] == u64_byte(v, 5));
    assert(s[at + 6] == u64_byte(v, 6));
    assert(s[at + 7] == u64_byte(v, 7));
    assert(((v & 0xff) as u8 as u64) | ((((v >> 8u64) & 0xff) as u8 as u64) << 8u64) | ((((v
        >> 16u64) & 0xff) as u8 as u64) << 16u64) | ((((v >> 24u64) & 0xff) as u8 as u64)
        << 24u64) | ((((v >> 32u64) & 0xff) as u8 as u64) << 32u64) | ((((v >> 40u64) & 0xff)
        as u8 as u64) << 40u64) | ((((v >> 48u64) & 0xff) as u8 as u64) << 48u64) | ((((v
        >> 56u64) & 0xff) as u8 as u64) << 56u64) == v) by (bit_vector);
}

/// Storing a word and reading it back gives the word.
pub proof fn lemma_le_u64_put_u64(s: Seq<u8>, at: int, v: u64)
    requires
        0 <= at,
        at + 8 <= s.len(),
    ensures
        le_u64(put_u64(s, at, v), at) == v,
{
    let t = put_u64(s, at, v);
    assert forall|k: int| 0 <= k < 8 implies #[trigger] t[at + k] == u64_byte(v, k) by {}
    lemma_le_u64_of_bytes(t, at, v);
}

/// A word stored elsewhere does not change the word at `at`.
pub proof fn lemma_le_u64_put_u64_disjoint(s: Seq<u8>, at: int, other: int, v: u64)
    requires
        0 <= at,
        at + 8 <= s.len(),
        other + 8 <= at || at + 8 <= other,
    ensures
        le_u64(put_u64(s, other, v), at) == le_u64(s, at),
{
    let t = put_u64(s, other, v);
    assert(t[at] == s[at]);
    assert(t[at + 1] == s[at + 1]);
    assert(t[at + 2] == s[at + 2]);
    assert(t[at + 3] == s[at + 3]);
    assert(t[at + 4] == s[at + 4]);
    assert(t[at + 5] == s[at + 5]);
    assert(t[at + 6] == s[at + 6]);
    assert(t[at + 7] == s[at + 7]);
}

fn read_le_u64(v: &Vec<u8>, at: usize) -> (r: u64)
    requires
        at + 8 <= v.len(),
    ensures
        r == le_u64(v@, at as int),
{
    (v[at] as u64) | ((v[at + 1] as u64) << 8u64) | ((v[at + 2] as u64) << 16u64) | ((v[at
        + 3] as u64) << 24u64) | ((v[at + 4] as u64) << 32u64) | ((v[at + 5] as u64) << 40u64)
        | ((v[at + 6] as u64) << 48u64) | ((v[at + 7] as u64) << 56u64)
}

fn write_le_u64(v: &mut Vec<u8>, at: usize, val: u64)
    requires
        at + 8 <= old(v).len(),
    ensures
        final(v)@ == put_u64(old(v)@, at as int, val),
{
    v.set(at, (val & 0xff) as u8);
    v.set(at + 1, ((val >> 8u64) & 0xff) as u8);
    v.set(at + 2, ((val >> 16u64) & 0xff) as u8);
    v.set(at + 3, ((val >> 24u64) & 0xff) as u8);
    v.set(at + 4, ((val >> 32u64) & 0xff) as u8);
    v.set(at + 5, ((val >> 40u64) & 0xff) as u8);
    v.set(at + 6, ((val >> 48u64) & 0xff) as u8);
    v.set(at + 7, ((val >> 56u64) & 0xff) as u8);
    assert(v@ =~= put_u64(old(v)@, at as int, val));
}


// ---------------------------------------------------------------------------
// Mathematical model of memory, banks and matrices
// ---------------------------------------------------------------------------

/// The word that a read of main memory at `addr` gives: zero when the eight
/// bytes do not all lie inside memory.
pub open spec fn mem_word(mem: Seq<u8>, addr: int) -> u64 {
    if 0 <= addr && addr + 8 <= mem.len() {
        le_u64(mem, addr)
    } else {
        0
    }
}

/// Main memory after a word store at `addr`: unchanged when the eight bytes
/// do not all lie inside memory.
pub open spec fn mem_store(mem: Seq<u8>, addr: int, v: u64) -> Seq<u8> {
    if 0 <= addr && addr + 8 <= mem.len() {
        put_u64(mem, addr, v)
    } else {
        mem
    }
}

/// First byte of bank `b` in the flat bank storage.
pub open spec fn bank_base(b: int) -> int {
    b * (BANK_SIZE as int)
}

/// Word `w` (eight bytes) of bank `b`.
pub open spec fn bank_word(banks: Seq<u8>, b: int, w: int) -> u64 {
    le_u64(banks, bank_base(b) + w * 8)
}

/// The bank storage with bank `b` cleared.
pub open spec fn clear_bank(banks: Seq<u8>, b: int) -> Seq<u8> {
    Seq::new(
        banks.len(),
        |p: int| if bank_base(b) <= p < bank_base(b) + BANK_SIZE { 0u8 } else { banks[p] },
    )
}

/// Address of the `i`-th 16-byte row of a transfer that starts at `addr`
/// with a stride of `stride` rows.
pub open spec fn row_addr(addr: int, i: int, stride: int) -> int {
    addr + i * 16 * stride
}

/// The bank storage after MVIN has loaded `n` words into bank `b`: word `i`
/// of the bank is the memory word at row `i` of the transfer.
pub open spec fn mvin_banks(
    banks: Seq<u8>,
    mem: Seq<u8>,
    b: int,
    addr: int,
    stride: int,
    n: int,
) -> Seq<u8> {
    Seq::new(
        banks.len(),
        |p: int|
            if bank_base(b) <= p < bank_base(b) + n * 8 {
                u64_byte(
                    mem_word(mem, row_addr(addr, (p - bank_base(b)) / 8, stride)),
                    (p - bank_base(b)) % 8,
                )
            } else {
                banks[p]
            },
    )
}

/// Main memory after MVOUT has stored the first `n` words of bank `b`, one
/// per row of the transfer, in order.
pub open spec fn mvout_mem(
    mem: Seq<u8>,
    banks: Seq<u8>,
    b: int,
    addr: int,
    stride: int,
    n: nat,
) -> Seq<u8>
    decreases n,
{
    if n == 0 {
        mem
    } else {
        mem_store(
            mvout_mem(mem, banks, b, addr, stride, (n - 1) as nat),
            row_addr(addr, n - 1, stride),
            bank_word(banks, b, n - 1),
        )
    }
}

/// The 16x16 matrix of 64-bit words held at the start of bank `b`, row by
/// row.
pub open spec fn read_matrix(banks: Seq<u8>, b: int) -> Seq<u64> {
    Seq::new(MATRIX_WORDS as nat, |w: int| bank_word(banks, b, w))
}

/// The bank storage with the 16x16 matrix `m` stored at the start of bank
/// `b`.
pub open spec fn write_matrix(banks: Seq<u8>, b: int, m: Seq<u64>) -> Seq<u8> {
    Seq::new(
        banks.len(),
        |p: int|
            if bank_base(b) <= p < bank_base(b) + MATRIX_WORDS * 8 {
                u64_byte(m[(p - bank_base(b)) / 8], (p - bank_base(b)) % 8)
            } else {
                banks[p]
            },
    )
}

/// The transpose of a 16x16 matrix.
pub open spec fn transpose(m: Seq<u64>) -> Seq<u64> {
    Seq::new(MATRIX_WORDS as nat, |w: int| m[(w % 16) * 16 + w / 16])
}

/// `sum(k' < k) a[i][k'] * b[k'][j]` over the integers.
pub open spec fn dot(a: Seq<u64>, b: Seq<u64>, i: int, j: int, k: nat) -> int
    decreases k,
{
    if k == 0 {
        0
    } else {
        dot(a, b, i, j, (k - 1) as nat) + a[i * 16 + (k - 1)] * b[(k - 1) * 16 + j]
    }
}

/// The product of two 16x16 matrices, each element taken modulo 2^64.
pub open spec fn matmul(a: Seq<u64>, b: Seq<u64>) -> Seq<u64> {
    Seq::new(
        MATRIX_WORDS as nat,
        |w: int| (dot(a, b, w / 16, w % 16, 16) % 0x1_0000_0000_0000_0000) as u64,
    )
}

// ---------------------------------------------------------------------------
// Instruction fields
// ---------------------------------------------------------------------------

/// BANK0 field: bits 0-4 of xs1.
pub open spec fn field_bank0(xs1: u64) -> u64 {
    xs1 & 0x1F
}

/// BANK1 field: bits 5-9 of xs1.
pub open spec fn field_bank1(xs1: u64) -> u64 {
    (xs1 >> 5u64) & 0x1F
}

/// BANK2 field: bits 10-14 of xs1.
pub open spec fn field_bank2(xs1: u64) -> u64 {
    (xs1 >> 10u64) & 0x1F
}

/// Memory address of MVIN / MVOUT: bits 27-58 of xs1.
pub open spec fn field_mem_addr(xs1: u64) -> u64 {
    (xs1 >> 27u64) & 0xFFFFFFFF
}

/// Depth of MVIN / MVOUT: bits 0-9 of xs2.
pub open spec fn field_depth(xs2: u64) -> u64 {
    xs2 & 0x3FF
}

/// Stride of MVIN / MVOUT in 16-byte rows: bits 10-28 of xs2; zero means one.
pub open spec fn field_stride(xs2: u64) -> u64 {
    let s = (xs2 >> 10u64) & 0x7FFFF;
    if s == 0 {
        1
    } else {
        s
    }
}

/// MSET row count: bits 0-4 of xs2.
pub open spec fn field_mset_row(xs2: u64) -> u64 {
    xs2 & 0x1F
}

/// MSET column count: bits 5-9 of xs2.
pub open spec fn field_mset_col(xs2: u64) -> u64 {
    (xs2 >> 5u64) & 0x1F
}

/// MSET allocate flag: bit 10 of xs2.
pub open spec fn field_mset_alloc(xs2: u64) -> bool {
    (xs2 >> 10u64) & 0x1 == 1
}

proof fn lemma_fields_bounded(xs1: u64, xs2: u64)
    ensures
        field_bank0(xs1) < 32,
        field_bank1(xs1) < 32,
        field_bank2(xs1) < 32,
        field_mem_addr(xs1) <= 0xFFFFFFFF,
        field_depth(xs2) < 1024,
        1 <= field_stride(xs2) < 0x80000,
{
    assert(xs1 & 0x1F < 32) by (bit_vector);
    assert((xs1 >> 5u64) & 0x1F < 32) by (bit_vector);
    assert((xs1 >> 10u64) & 0x1F < 32) by (bit_vector);
    assert((xs1 >> 27u64) & 0xFFFFFFFF <= 0xFFFFFFFF) by (bit_vector);
    assert(xs2 & 0x3FF < 1024) by (bit_vector);
    assert((xs2 >> 10u64) & 0x7FFFF < 0x80000) by (bit_vector);
}


// ---------------------------------------------------------------------------
// The architectural state and the meaning of each instruction
// ---------------------------------------------------------------------------

/// The architectural state of Bemu.
pub ghost struct BemuModel {
    /// Main memory, byte by byte.
    pub memory: Seq<u8>,
    /// All banks, one after the other, `BANK_SIZE` bytes each.
    pub banks: Seq<u8>,
    /// The configuration of each bank.
    pub configs: Seq<BankConfig>,
    pub stats: BemuStats,
    pub result_ptr: u64,
}

/// MSET: record the configuration of bank `BANK0(xs1)`; allocating clears
/// the bank.
pub open spec fn mset_step(m: BemuModel, xs1: u64, xs2: u64) -> BemuModel {
    let b = field_bank0(xs1);
    let alloc = field_mset_alloc(xs2);
    BemuModel {
        configs: m.configs.update(
            b as int,
            BankConfig {
                allocated: alloc,
                rows: field_mset_row(xs2),
                cols: field_mset_col(xs2),
                bank_id: b,
            },
        ),
        banks: if alloc {
            clear_bank(m.banks, b as int)
        } else {
            m.banks
        },
        stats: BemuStats { mset_count: (m.stats.mset_count + 1) as u64, ..m.stats },
        ..m
    }
}

/// MVIN: load `depth` words, one per 16-byte row of memory, into an
/// allocated bank; a bank that is not allocated is left alone.
pub open spec fn mvin_step(m: BemuModel, xs1: u64, xs2: u64) -> BemuModel {
    let b = field_bank0(xs1);
    let stats = BemuStats { mvin_count: (m.stats.mvin_count + 1) as u64, ..m.stats };
    if !m.configs[b as int].allocated {
        BemuModel { stats, ..m }
    } else {
        BemuModel {
            banks: mvin_banks(
                m.banks,
                m.memory,
                b as int,
                field_mem_addr(xs1) as int,
                field_stride(xs2) as int,
                field_depth(xs2) as int,
            ),
            stats,
            ..m
        }
    }
}

/// MVOUT: store the first `depth` words of an allocated bank, one per
/// 16-byte row of memory; a bank that is not allocated is left alone.
pub open spec fn mvout_step(m: BemuModel, xs1: u64, xs2: u64) -> BemuModel {
    let b = field_bank0(xs1);
    let stats = BemuStats { mvout_count: (m.stats.mvout_count + 1) as u64, ..m.stats };
    if !m.configs[b as int].allocated {
        BemuModel { stats, ..m }
    } else {
        BemuModel {
            memory: mvout_mem(
                m.memory,
                m.banks,
                b as int,
                field_mem_addr(xs1) as int,
                field_stride(xs2) as int,
                field_depth(xs2) as nat,
            ),
            stats,
            ..m
        }
    }
}

/// MUL_WARP16: bank `BANK2` receives the product of the matrices in banks
/// `BANK0` and `BANK1`.
pub open spec fn mul_warp16_step(m: BemuModel, xs1: u64, xs2: u64) -> BemuModel {
    BemuModel {
        banks: write_matrix(
            m.banks,
            field_bank2(xs1) as int,
            matmul(
                read_matrix(m.banks, field_bank0(xs1) as int),
                read_matrix(m.banks, field_bank1(xs1) as int),
            ),
        ),
        stats: BemuStats { matmul_count: (m.stats.matmul_count + 1) as u64, ..m.stats },
        ..m
    }
}

/// TRANSPOSE: bank `BANK2` receives the transpose of the matrix in bank
/// `BANK0`.
pub open spec fn transpose_step(m: BemuModel, xs1: u64, xs2: u64) -> BemuModel {
    BemuModel {
        banks: write_matrix(
            m.banks,
            field_bank2(xs1) as int,
            transpose(read_matrix(m.banks, field_bank0(xs1) as int)),
        ),
        stats: BemuStats { transpose_count: (m.stats.transpose_count + 1) as u64, ..m.stats },
        ..m
    }
}

/// One custom instruction: count it, then apply the instruction that
/// `funct` names; an unknown `funct` changes nothing else.
pub open spec fn execute_step(m: BemuModel, funct: u32, xs1: u64, xs2: u64) -> BemuModel {
    let m1 = BemuModel {
        stats: BemuStats {
            instructions_executed: (m.stats.instructions_executed + 1) as u64,
            ..m.stats
        },
        ..m
    };
    if funct == 23 {
        mset_step(m1, xs1, xs2)
    } else if funct == 24 {
        mvin_step(m1, xs1, xs2)
    } else if funct == 25 {
        mvout_step(m1, xs1, xs2)
    } else if funct == 32 {
        mul_warp16_step(m1, xs1, xs2)
    } else if funct == 34 {
        transpose_step(m1, xs1, xs2)
    } else {
        m1
    }
}

/// An instruction that the memory domain decodes as a move-in is counted
/// as a move-in, and one it decodes as a move-out as a move-out; each
/// counts once as an instruction.
pub proof fn lemma_execute_counts_memory(m: BemuModel, funct: u32, xs1: u64, xs2: u64)
    requires
        mem_inst_of(funct, xs1, xs2) is Some,
        counters_have_room(m.stats, funct),
    ensures
        execute_step(m, funct, xs1, xs2).stats.instructions_executed == m.stats.instructions_executed + 1,
        mem_inst_of(funct, xs1, xs2)->Some_0.inst_type == MemInstType::Mvin ==> {
            &&& execute_step(m, funct, xs1, xs2).stats.mvin_count == m.stats.mvin_count + 1
            &&& execute_step(m, funct, xs1, xs2).stats.mvout_count == m.stats.mvout_count
        },
        mem_inst_of(funct, xs1, xs2)->Some_0.inst_type == MemInstType::Mvout ==> {
            &&& execute_step(m, funct, xs1, xs2).stats.mvout_count == m.stats.mvout_count + 1
            &&& execute_step(m, funct, xs1, xs2).stats.mvin_count == m.stats.mvin_count
        },
{
}

/// The counter that `funct` bumps has room for one more.
pub open spec fn counters_have_room(s: BemuStats, funct: u32) -> bool {
    &&& s.instructions_executed < u64::MAX
    &&& funct == 23 ==> s.mset_count < u64::MAX
    &&& funct == 24 ==> s.mvin_count < u64::MAX
    &&& funct == 25 ==> s.mvout_count < u64::MAX
    &&& funct == 32 ==> s.matmul_count < u64::MAX
    &&& funct == 34 ==> s.transpose_count < u64::MAX
}

/// Bemu: main memory, banks and their configuration.
pub struct Bemu {
    memory: Vec<u8>,
    banks: Vec<u8>,
    result_ptr: u64,
    stats: BemuStats,
    bank_configs: Vec<BankConfig>,
}

/// Memory `m` after `data` is written from `addr`: the bytes that fall
/// inside it take the data, every other byte stays, and what falls past the
/// end is dropped.
pub open spec fn memory_after_write(m: Seq<u8>, addr: int, data: Seq<u8>) -> Seq<u8> {
    Seq::new(m.len(), |p: int| if addr <= p < addr + data.len() { data[p - addr] } else { m[p] })
}

/// Reading back bytes just written inside memory gives the data; the bytes
/// elsewhere are as they were.
pub proof fn lemma_memory_round_trip(m: Seq<u8>, addr: int, data: Seq<u8>)
    requires
        0 <= addr,
        addr + data.len() <= m.len(),
    ensures
        memory_after_write(m, addr, data).subrange(addr, addr + data.len()) == data,
        forall|p: int|
            0 <= p < m.len() && !(addr <= p < addr + data.len()) ==> #[trigger] memory_after_write(
                m,
                addr,
                data,
            )[p] == m[p],
        memory_after_write(m, addr, data).len() == m.len(),
{
    assert(memory_after_write(m, addr, data).subrange(addr, addr + data.len()) =~= data);
}

impl View for Bemu {
    type V = BemuModel;

    closed spec fn view(&self) -> BemuModel {
        BemuModel {
            memory: self.memory@,
            banks: self.banks@,
            configs: self.bank_configs@,
            stats: self.stats,
            result_ptr: self.result_ptr,
        }
    }
}

impl Bemu {
    /// The sizes that a Bemu keeps: the memory, the banks and one
    /// configuration per bank.
    pub closed spec fn wf(&self) -> bool {
        &&& self.memory.len() == TOTAL_MEMORY_SIZE
        &&& self.banks.len() == BANK_NUM * BANK_SIZE
        &&& self.bank_configs.len() == BANK_NUM
    }

    /// A consistent Bemu has `TOTAL_MEMORY_SIZE` bytes of memory,
    /// `BANK_NUM * BANK_SIZE` bytes of banks and one configuration per bank.
    pub proof fn lemma_sizes(&self)
        requires
            self.wf(),
        ensures
            self@.memory.len() == TOTAL_MEMORY_SIZE,
            self@.banks.len() == BANK_NUM * BANK_SIZE,
            self@.configs.len() == BANK_NUM,
    {
    }

    /// A new Bemu: zeroed memory and banks, no bank allocated, zero counters,
    /// the result pointer at 0x1000.
    pub fn new() -> (b: Self)
        ensures
            b.wf(),
            b@.memory == Seq::new(TOTAL_MEMORY_SIZE as nat, |p: int| 0u8),
            b@.banks == Seq::new((BANK_NUM * BANK_SIZE) as nat, |p: int| 0u8),
            b@.configs == Seq::new(BANK_NUM as nat, |i: int| BankConfig::zero()),
            b@.stats == BemuStats::zero(),
            b@.result_ptr == 0x1000,
    {
        let mut memory: Vec<u8> = Vec::new();
        let mut i: usize = 0;
        while i < TOTAL_MEMORY_SIZE
            invariant
                i <= TOTAL_MEMORY_SIZE,
                memory@ == Seq::new(i as nat, |p: int| 0u8),
            decreases TOTAL_MEMORY_SIZE - i,
        {
            memory.push(0u8);
            i = i + 1;
        }
        let mut banks: Vec<u8> = Vec::new();
        let mut i: usize = 0;
        while i < BANK_NUM * BANK_SIZE
            invariant
                i <= BANK_NUM * BANK_SIZE,
                banks@ == Seq::new(i as nat, |p: int| 0u8),
            decreases BANK_NUM * BANK_SIZE - i,
        {
            banks.push(0u8);
            i = i + 1;
        }
        let mut bank_configs: Vec<BankConfig> = Vec::new();
        let mut i: usize = 0;
        while i < BANK_NUM
            invariant
                i <= BANK_NUM,
                bank_configs@ == Seq::new(i as nat, |p: int| BankConfig::zero()),
            decreases BANK_NUM - i,
        {
            bank_configs.push(BankConfig::default());
            i = i + 1;
        }
        Bemu { memory, banks, result_ptr: 0x1000, stats: BemuStats::default(), bank_configs }
    }

    /// Executes one custom instruction and returns its result, which is
    /// always zero.
    pub fn execute(&mut self, funct: u32, xs1: u64, xs2: u64) -> (r: u64)
        requires
            old(self).wf(),
            counters_have_room(old(self)@.stats, funct),
        ensures
            final(self).wf(),
            r == 0,
            final(self)@ == execute_step(old(self)@, funct, xs1, xs2),
    {
        self.stats.instructions_executed = self.stats.instructions_executed + 1;
        if funct == 23 {
            self.execute_mset(xs1, xs2)
        } else if funct == 24 {
            self.execute_mvin(xs1, xs2)
        } else if funct == 25 {
            self.execute_mvout(xs1, xs2)
        } else if funct == 32 {
            self.execute_mul_warp16(xs1, xs2)
        } else if funct == 34 {
            self.execute_transpose(xs1, xs2)
        } else {
            0
        }
    }

    /// MSET (funct 23): records the configuration of a bank; allocating
    /// clears the bank.
    pub fn execute_mset(&mut self, xs1: u64, xs2: u64) -> (r: u64)
        requires
            old(self).wf(),
            old(self)@.stats.mset_count < u64::MAX,
        ensures
            final(self).wf(),
            r == 0,
            final(self)@ == mset_step(old(self)@, xs1, xs2),
    {
        proof {
            lemma_fields_bounded(xs1, xs2);
        }
        self.stats.mset_count = self.stats.mset_count + 1;
        let bank_id = xs1 & 0x1F;
        let row = xs2 & 0x1F;
        let col = (xs2 >> 5u64) & 0x1F;
        let alloc = (xs2 >> 10u64) & 0x1;
        let b = bank_id as usize;
        self.bank_configs.set(
            b,
            BankConfig { allocated: alloc == 1, rows: row, cols: col, bank_id },
        );
        if alloc == 1 {
            let base = b * BANK_SIZE;
            let ghost before = self.banks@;
            let ghost cfgs = self.bank_configs@;
            let ghost st = self.stats;
            let mut o: usize = 0;
            while o < BANK_SIZE
                invariant
                    self.wf(),
                    self.memory@ == old(self).memory@,
                    self.bank_configs@ == cfgs,
                    self.stats == st,
                    self.result_ptr == old(self).result_ptr,
                    o <= BANK_SIZE,
                    b < BANK_NUM,
                    base == b * BANK_SIZE,
                    self.banks@.len() == before.len(),
                    before.len() == BANK_NUM * BANK_SIZE,
                    forall|p: int|
                        0 <= p < before.len() ==> #[trigger] self.banks@[p] == if base <= p < base
                            + o {
                            0u8
                        } else {
                            before[p]
                        },
                decreases BANK_SIZE - o,
            {
                self.banks.set(base + o, 0u8);
                o = o + 1;
            }
            assert(self.banks@ =~= clear_bank(before, b as int));
        }
        0
    }

    /// MVIN (funct 24): loads `depth` words from memory into an allocated
    /// bank, word `i` from the 16-byte row `i` of the transfer.
    pub fn execute_mvin(&mut self, xs1: u64, xs2: u64) -> (r: u64)
        requires
            old(self).wf(),
            old(self)@.stats.mvin_count < u64::MAX,
        ensures
            final(self).wf(),
            r == 0,
            final(self)@ == mvin_step(old(self)@, xs1, xs2),
    {
        proof {
            lemma_fields_bounded(xs1, xs2);
        }
        self.stats.mvin_count = self.stats.mvin_count + 1;
        let bank_id = xs1 & 0x1F;
        let mem_addr = (xs1 >> 27u64) & 0xFFFFFFFF;
        let depth = xs2 & 0x3FF;
        let stride = (xs2 >> 10u64) & 0x7FFFF;
        let b = bank_id as usize;
        if !self.bank_configs[b].allocated {
            return 0;
        }
        let actual_stride = if stride == 0 {
            1
        } else {
            stride
        };
        let base = b * BANK_SIZE;
        let ghost before = self.banks@;
        let ghost mem = self.memory@;
        let ghost st = self.stats;
        let mut i: u64 = 0;
        while i < depth
            invariant
                self.wf(),
                self.bank_configs@ == old(self).bank_configs@,
                self.stats == st,
                self.result_ptr == old(self).result_ptr,
                i <= depth,
                depth < 1024,
                b < BANK_NUM,
                base == b * BANK_SIZE,
                mem_addr <= 0xFFFFFFFF,
                1 <= actual_stride < 0x80000,
                self.memory@ == mem,
                self.banks@ == mvin_banks(
                    before,
                    mem,
                    b as int,
                    mem_addr as int,
                    actual_stride as int,
                    i as int,
                ),
                before.len() == BANK_NUM * BANK_SIZE,
            decreases depth - i,
        {
            proof {
                assert(i * 16 * actual_stride <= 1024 * 16 * 0x80000) by (nonlinear_arith)
                    requires
                        i < 1024,
                        actual_stride < 0x80000,
                ;
            }
            let addr = mem_addr + i * 16 * actual_stride;
            let value = self.read_u64(addr);
            let bank_offset = (i * 8) as usize;
            let ghost prev = self.banks@;
            write_le_u64(&mut self.banks, base + bank_offset, value);
            proof {
                let next = mvin_banks(
                    before,
                    mem,
                    b as int,
                    mem_addr as int,
                    actual_stride as int,
                    i + 1,
                );
                assert forall|p: int| 0 <= p < before.len() implies #[trigger] self.banks@[p]
                    == next[p] by {
                    if base + i * 8 <= p < base + i * 8 + 8 {
                        assert((p - base) / 8 == i) by (nonlinear_arith)
                            requires
                                base + i * 8 <= p < base + i * 8 + 8,
                        ;
                        assert((p - base) % 8 == p - base - i * 8) by (nonlinear_arith)
                            requires
                                base + i * 8 <= p < base + i * 8 + 8,
                        ;
                    }
                }
                assert(self.banks@ =~= next);
            }
            i = i + 1;
        }
        0
    }

    /// MVOUT (funct 25): stores the first `depth` words of an allocated bank
    /// into memory, word `i` at the 16-byte row `i` of the transfer.
    pub fn execute_mvout(&mut self, xs1: u64, xs2: u64) -> (r: u64)
        requires
            old(self).wf(),
            old(self)@.stats.mvout_count < u64::MAX,
        ensures
            final(self).wf(),
            r == 0,
            final(self)@ == mvout_step(old(self)@, xs1, xs2),
    {
        proof {
            lemma_fields_bounded(xs1, xs2);
        }
        self.stats.mvout_count = self.stats.mvout_count + 1;
        let bank_id = xs1 & 0x1F;
        let mem_addr = (xs1 >> 27u64) & 0xFFFFFFFF;
        let depth = xs2 & 0x3FF;
        let stride = (xs2 >> 10u64) & 0x7FFFF;
        let b = bank_id as usize;
        if !self.bank_configs[b].allocated {
            return 0;
        }
        let actual_stride = if stride == 0 {
            1
        } else {
            stride
        };
        let base = b * BANK_SIZE;
        let ghost mem = self.memory@;
        let ghost st = self.stats;
        let mut i: u64 = 0;
        while i < depth
            invariant
                self.wf(),
                self.bank_configs@ == old(self).bank_configs@,
                self.stats == st,
                self.result_ptr == old(self).result_ptr,
                self.banks@ == old(self).banks@,
                i <= depth,
                depth < 1024,
                b < BANK_NUM,
                base == b * BANK_SIZE,
                mem_addr <= 0xFFFFFFFF,
                1 <= actual_stride < 0x80000,
                self.memory@ == mvout_mem(
                    mem,
                    self.banks@,
                    b as int,
                    mem_addr as int,
                    actual_stride as int,
                    i as nat,
                ),
            decreases depth - i,
        {
            let bank_offset = (i * 8) as usize;
            let value = read_le_u64(&self.banks, base + bank_offset);
            proof {
                assert(i * 16 * actual_stride <= 1024 * 16 * 0x80000) by (nonlinear_arith)
                    requires
                        i < 1024,
                        actual_stride < 0x80000,
                ;
            }
            let addr = mem_addr + i * 16 * actual_stride;
            self.write_u64(addr, value);
            i = i + 1;
        }
        0
    }

    /// MUL_WARP16 (funct 32): bank BANK2 receives the product, modulo 2^64,
    /// of the 16x16 matrices in banks BANK0 and BANK1.
    pub fn execute_mul_warp16(&mut self, xs1: u64, xs2: u64) -> (r: u64)
        requires
            old(self).wf(),
            old(self)@.stats.matmul_count < u64::MAX,
        ensures
            final(self).wf(),
            r == 0,
            final(self)@ == mul_warp16_step(old(self)@, xs1, xs2),
    {
        proof {
            lemma_fields_bounded(xs1, xs2);
        }
        self.stats.matmul_count = self.stats.matmul_count + 1;
        let op1_bank_id = xs1 & 0x1F;
        let op2_bank_id = (xs1 >> 5u64) & 0x1F;
        let wr_bank_id = (xs1 >> 10u64) & 0x1F;
        let matrix_a = self.read_matrix_from_bank(op1_bank_id);
        let matrix_b = self.read_matrix_from_bank(op2_bank_id);
        let result = multiply(&matrix_a, &matrix_b);
        self.write_matrix_to_bank(wr_bank_id, &result);
        0
    }

    /// TRANSPOSE (funct 34): bank BANK2 receives the transpose of the 16x16
    /// matrix in bank BANK0.
    pub fn execute_transpose(&mut self, xs1: u64, xs2: u64) -> (r: u64)
        requires
            old(self).wf(),
            old(self)@.stats.transpose_count < u64::MAX,
        ensures
            final(self).wf(),
            r == 0,
            final(self)@ == transpose_step(old(self)@, xs1, xs2),
    {
        proof {
            lemma_fields_bounded(xs1, xs2);
        }
        self.stats.transpose_count = self.stats.transpose_count + 1;
        let op1_bank_id = xs1 & 0x1F;
        let wr_bank_id = (xs1 >> 10u64) & 0x1F;
        let matrix = self.read_matrix_from_bank(op1_bank_id);
        let mut transposed: Vec<u64> = Vec::new();
        let mut w: usize = 0;
        while w < MATRIX_WORDS
            invariant
                w <= MATRIX_WORDS,
                matrix@.len() == MATRIX_WORDS,
                transposed@.len() == w,
                forall|v: int| 0 <= v < w ==> #[trigger] transposed@[v] == transpose(matrix@)[v],
            decreases MATRIX_WORDS - w,
        {
            transposed.push(matrix[(w % 16) * 16 + w / 16]);
            w = w + 1;
        }
        assert(transposed@ =~= transpose(matrix@));
        self.write_matrix_to_bank(wr_bank_id, &transposed);
        0
    }

    /// Reads the 16x16 matrix at the start of a bank, row by row.
    fn read_matrix_from_bank(&self, bank_id: u64) -> (m: Vec<u64>)
        requires
            self.wf(),
            bank_id < BANK_NUM,
        ensures
            m@ == read_matrix(self@.banks, bank_id as int),
    {
        let base = (bank_id as usize) * BANK_SIZE;
        let mut m: Vec<u64> = Vec::new();
        let mut w: usize = 0;
        while w < MATRIX_WORDS
            invariant
                self.wf(),
                w <= MATRIX_WORDS,
                bank_id < BANK_NUM,
                base == bank_id * BANK_SIZE,
                m@.len() == w,
                forall|v: int| 0 <= v < w ==> #[trigger] m@[v] == bank_word(self.banks@, bank_id as int, v),
            decreases MATRIX_WORDS - w,
        {
            m.push(read_le_u64(&self.banks, base + w * 8));
            w = w + 1;
        }
        assert(m@ =~= read_matrix(self@.banks, bank_id as int));
        m
    }

    /// Writes a 16x16 matrix at the start of a bank, row by row.
    fn write_matrix_to_bank(&mut self, bank_id: u64, matrix: &Vec<u64>)
        requires
            old(self).wf(),
            bank_id < BANK_NUM,
            matrix@.len() == MATRIX_WORDS,
        ensures
            final(self).wf(),
            final(self)@ == (BemuModel {
                banks: write_matrix(old(self)@.banks, bank_id as int, matrix@),
                ..old(self)@
            }),
    {
        let base = (bank_id as usize) * BANK_SIZE;
        let ghost before = self.banks@;
        let mut w: usize = 0;
        while w < MATRIX_WORDS
            invariant
                self.wf(),
                w <= MATRIX_WORDS,
                bank_id < BANK_NUM,
                base == bank_id * BANK_SIZE,
                matrix@.len() == MATRIX_WORDS,
                before.len() == BANK_NUM * BANK_SIZE,
                self.memory@ == old(self).memory@,
                self.bank_configs@ == old(self).bank_configs@,
                self.stats == old(self).stats,
                self.result_ptr == old(self).result_ptr,
                forall|p: int|
                    0 <= p < before.len() ==> #[trigger] self.banks@[p] == if base <= p < base + w
                        * 8 {
                        u64_byte(matrix@[(p - base) / 8], (p - base) % 8)
                    } else {
                        before[p]
                    },
            decreases MATRIX_WORDS - w,
        {
            let ghost prev = self.banks@;
            write_le_u64(&mut self.banks, base + w * 8, matrix[w]);
            proof {
                assert forall|p: int| 0 <= p < before.len() implies #[trigger] self.banks@[p]
                    == if base <= p < base + (w + 1) * 8 {
                    u64_byte(matrix@[(p - base) / 8], (p - base) % 8)
                } else {
                    before[p]
                } by {
                    if base + w * 8 <= p < base + w * 8 + 8 {
                        assert((p - base) / 8 == w) by (nonlinear_arith)
                            requires
                                base + w * 8 <= p < base + w * 8 + 8,
                        ;
                        assert((p - base) % 8 == p - base - w * 8) by (nonlinear_arith)
                            requires
                                base + w * 8 <= p < base + w * 8 + 8,
                        ;
                    }
                }
            }
            w = w + 1;
        }
        assert(self.banks@ =~= write_matrix(before, bank_id as int, matrix@));
    }

    /// Reads the little-endian word at `addr` of main memory; zero when the
    /// word does not lie inside memory.
    pub fn read_u64(&self, addr: u64) -> (r: u64)
        requires
            self.wf(),
        ensures
            r == mem_word(self@.memory, addr as int),
    {
        if addr > (self.memory.len() - 8) as u64 {
            return 0;
        }
        read_le_u64(&self.memory, addr as usize)
    }

    /// Writes a little-endian word at `addr` of main memory; nothing happens
    /// when the word does not lie inside memory.
    pub fn write_u64(&mut self, addr: u64, value: u64)
        requires
            old(self).wf(),
        ensures
            final(self).wf(),
            final(self)@ == (BemuModel {
                memory: mem_store(old(self)@.memory, addr as int, value),
                ..old(self)@
            }),
    {
        if addr > (self.memory.len() - 8) as u64 {
            return ;
        }
        write_le_u64(&mut self.memory, addr as usize, value);
    }

    /// Hands out `size` bytes of the result area and returns their address;
    /// the pointer wraps back to 0x1000 when it reaches the end of memory.
    fn allocate_result(&mut self, size: usize) -> (addr: u64)
        requires
            old(self).wf(),
            old(self)@.result_ptr + size <= u64::MAX,
        ensures
            final(self).wf(),
            addr == old(self)@.result_ptr,
            final(self)@ == (BemuModel {
                result_ptr: if old(self)@.result_ptr + size >= TOTAL_MEMORY_SIZE {
                    0x1000
                } else {
                    (old(self)@.result_ptr + size) as u64
                },
                ..old(self)@
            }),
    {
        let addr = self.result_ptr;
        self.result_ptr = self.result_ptr + size as u64;
        if self.result_ptr >= self.memory.len() as u64 {
            self.result_ptr = 0x1000;
        }
        addr
    }

    /// The instruction counters.
    pub fn get_stats(&self) -> (s: &BemuStats)
        requires
            self.wf(),
        ensures
            *s == self@.stats,
    {
        &self.stats
    }

    /// Sets every instruction counter back to zero.
    pub fn reset_stats(&mut self)
        requires
            old(self).wf(),
        ensures
            final(self).wf(),
            final(self)@ == (BemuModel { stats: BemuStats::zero(), ..old(self)@ }),
    {
        self.stats = BemuStats::default();
    }

    /// The configuration of a bank, or `None` for a bank id out of range.
    pub fn get_bank_config(&self, bank_id: u64) -> (c: Option<&BankConfig>)
        requires
            self.wf(),
        ensures
            bank_id < BANK_NUM ==> c == Some(&self@.configs[bank_id as int]),
            bank_id >= BANK_NUM ==> c is None,
    {
        if bank_id < BANK_NUM as u64 {
            Some(&self.bank_configs[bank_id as usize])
        } else {
            None
        }
    }

    /// Copies `data` into main memory from `addr` on; the bytes that fall
    /// outside memory are dropped.
    pub fn write_memory(&mut self, addr: u64, data: &[u8])
        requires
            old(self).wf(),
            data@.len() == 0 || addr + data@.len() - 1 <= u64::MAX,
        ensures
            final(self).wf(),
            final(self)@ == (BemuModel {
                memory: memory_after_write(old(self)@.memory, addr as int, data@),
                ..old(self)@
            }),
    {
        let ghost before = self.memory@;
        let len = self.memory.len();
        let mut i: usize = 0;
        while i < data.len()
            invariant
                self.wf(),
                i <= data@.len(),
                len == before.len(),
                len == TOTAL_MEMORY_SIZE,
                data@.len() == 0 || addr + data@.len() - 1 <= u64::MAX,
                self.banks@ == old(self).banks@,
                self.bank_configs@ == old(self).bank_configs@,
                self.stats == old(self).stats,
                self.result_ptr == old(self).result_ptr,
                forall|p: int|
                    0 <= p < len ==> #[trigger] self.memory@[p] == if addr <= p < addr + i {
                        data@[p - addr]
                    } else {
                        before[p]
                    },
            decreases data@.len() - i,
        {
            if addr < len as u64 && (i as u64) < (len as u64) - addr {
                let a64 = addr + i as u64;
                assert(a64 < len);
                let a = a64 as usize;
                assert(a == addr + i);
                self.memory.set(a, data[i]);
            }
            i = i + 1;
        }
        assert(self.memory@ =~= Seq::new(
            before.len(),
            |p: int| if addr <= p < addr + data@.len() { data@[p - addr] } else { before[p] },
        ));
    }

    /// The `size` bytes of main memory from `addr` on.
    pub fn read_memory(&self, addr: u64, size: usize) -> (r: &[u8])
        requires
            self.wf(),
            addr + size <= TOTAL_MEMORY_SIZE,
        ensures
            r@ == self@.memory.subrange(addr as int, addr + size),
    {
        let a = addr as usize;
        slice_of(&self.memory, a, a + size)
    }

    /// The word at `offset` bytes into a bank.
    pub fn read_bank_u64(&self, bank_id: u64, offset: usize) -> (r: u64)
        requires
            self.wf(),
            bank_id < BANK_NUM,
            offset + 8 <= BANK_SIZE,
        ensures
            r == le_u64(self@.banks, bank_base(bank_id as int) + offset),
    {
        read_le_u64(&self.banks, (bank_id as usize) * BANK_SIZE + offset)
    }

    /// Stores a word at `offset` bytes into a bank.
    pub fn write_bank_u64(&mut self, bank_id: u64, offset: usize, value: u64)
        requires
            old(self).wf(),
            bank_id < BANK_NUM,
            offset + 8 <= BANK_SIZE,
        ensures
            final(self).wf(),
            final(self)@ == (BemuModel {
                banks: put_u64(old(self)@.banks, bank_base(bank_id as int) + offset, value),
                ..old(self)@
            }),
    {
        write_le_u64(&mut self.banks, (bank_id as usize) * BANK_SIZE + offset, value);
    }
}

impl Default for Bemu {
    fn default() -> (b: Self)
        ensures
            b.wf(),
            b@.memory == Seq::new(TOTAL_MEMORY_SIZE as nat, |p: int| 0u8),
            b@.banks == Seq::new((BANK_NUM * BANK_SIZE) as nat, |p: int| 0u8),
            b@.configs == Seq::new(BANK_NUM as nat, |i: int| BankConfig::zero()),
            b@.stats == BemuStats::zero(),
            b@.result_ptr == 0x1000,
    {
        Self::new()
    }
}

/// The sub-slice `v[start..end]`.
fn slice_of(v: &Vec<u8>, start: usize, end: usize) -> (r: &[u8])
    requires
        start <= end <= v.len(),
    ensures
        r@ == v@.subrange(start as int, end as int),
{
    &v.as_slice()[start..end]
}

/// The product of two 16x16 matrices with wrapping arithmetic.
fn multiply(a: &Vec<u64>, b: &Vec<u64>) -> (c: Vec<u64>)
    requires
        a@.len() == MATRIX_WORDS,
        b@.len() == MATRIX_WORDS,
    ensures
        c@ == matmul(a@, b@),
{
    let mut c: Vec<u64> = Vec::new();
    let mut w: usize = 0;
    while w < MATRIX_WORDS
        invariant
            w <= MATRIX_WORDS,
            a@.len() == MATRIX_WORDS,
            b@.len() == MATRIX_WORDS,
            c@.len() == w,
            forall|v: int| 0 <= v < w ==> #[trigger] c@[v] == matmul(a@, b@)[v],
        decreases MATRIX_WORDS - w,
    {
        let i = w / 16;
        let j = w % 16;
        let mut acc: u64 = 0;
        let mut k: usize = 0;
        while k < MATRIX_SIZE
            invariant
                k <= MATRIX_SIZE,
                i < 16,
                j < 16,
                a@.len() == MATRIX_WORDS,
                b@.len() == MATRIX_WORDS,
                acc == dot(a@, b@, i as int, j as int, k as nat) % 0x1_0000_0000_0000_0000,
            decreases MATRIX_SIZE - k,
        {
            let x = a[i * 16 + k];
            let y = b[k * 16 + j];
            proof {
                lemma_wrapping_mac(acc, x, y, dot(a@, b@, i as int, j as int, k as nat));
            }
            acc = acc.wrapping_add(x.wrapping_mul(y));
            k = k + 1;
        }
        c.push(acc);
        w = w + 1;
    }
    assert(c@ =~= matmul(a@, b@));
    c
}

proof fn lemma_wrapping_mac(acc: u64, x: u64, y: u64, s: int)
    requires
        acc == s % 0x1_0000_0000_0000_0000,
    ensures
        vstd::wrapping::u64_specs::wrapping_add(acc, vstd::wrapping::u64_specs::wrapping_mul(x, y))
            == (s + x * y) % 0x1_0000_0000_0000_0000,
{
    let m: int = 0x1_0000_0000_0000_0000;
    let p = vstd::wrapping::u64_specs::wrapping_mul(x, y);
    assert(p == (x * y) % m);
    vstd::arithmetic::div_mod::lemma_add_mod_noop(s, x * y, m);
    vstd::arithmetic::div_mod::lemma_mod_twice(s, m);
    vstd::arithmetic::div_mod::lemma_mod_twice(x * y, m);
    assert((acc + p) % m == (s + x * y) % m);
}


// ---------------------------------------------------------------------------
// Laws of the golden model
// ---------------------------------------------------------------------------

/// A memory word stored and read back at the same address gives the word,
/// when the word lies inside memory.
pub proof fn lemma_mem_store_then_word(mem: Seq<u8>, addr: int, v: u64)
    requires
        0 <= addr,
        addr + 8 <= mem.len(),
    ensures
        mem_word(mem_store(mem, addr, v), addr) == v,
{
    lemma_le_u64_put_u64(mem, addr, v);
}

/// After MVIN of `n` words into bank `b`, word `i < n` of the bank is the
/// memory word at row `i` of the transfer.
pub proof fn lemma_mvin_loads_rows(
    banks: Seq<u8>,
    mem: Seq<u8>,
    b: int,
    addr: int,
    stride: int,
    n: int,
    i: int,
)
    requires
        0 <= b < BANK_NUM,
        banks.len() == BANK_NUM * BANK_SIZE,
        0 <= i < n,
        n * 8 <= BANK_SIZE,
    ensures
        bank_word(mvin_banks(banks, mem, b, addr, stride, n), b, i) == mem_word(
            mem,
            row_addr(addr, i, stride),
        ),
{
    let t = mvin_banks(banks, mem, b, addr, stride, n);
    let base = bank_base(b);
    let v = mem_word(mem, row_addr(addr, i, stride));
    assert(base + i * 8 + 8 <= banks.len()) by (nonlinear_arith)
        requires
            0 <= b < BANK_NUM,
            base == b * BANK_SIZE,
            0 <= i,
            i * 8 + 8 <= BANK_SIZE,
            banks.len() == BANK_NUM * BANK_SIZE,
    ;
    assert forall|k: int| 0 <= k < 8 implies #[trigger] t[base + i * 8 + k] == u64_byte(v, k) by {
        let p = base + i * 8 + k;
        assert((p - base) / 8 == i) by (nonlinear_arith)
            requires
                p == base + i * 8 + k,
                0 <= k < 8,
        ;
        assert((p - base) % 8 == k) by (nonlinear_arith)
            requires
                p == base + i * 8 + k,
                0 <= k < 8,
        ;
    }
    lemma_le_u64_of_bytes(t, base + i * 8, v);
}

/// After MVOUT of `n` words of bank `b`, the memory word at row `i < n` of
/// the transfer is word `i` of the bank, when that row lies inside memory.
pub proof fn lemma_mvout_stores_rows(
    mem: Seq<u8>,
    banks: Seq<u8>,
    b: int,
    addr: int,
    stride: int,
    n: nat,
    i: int,
)
    requires
        0 <= addr,
        1 <= stride,
        0 <= i < n,
        row_addr(addr, i, stride) + 8 <= mem.len(),
    ensures
        mem_word(mvout_mem(mem, banks, b, addr, stride, n), row_addr(addr, i, stride))
            == bank_word(banks, b, i),
    decreases n,
{
    let prev = mvout_mem(mem, banks, b, addr, stride, (n - 1) as nat);
    lemma_mvout_mem_len(mem, banks, b, addr, stride, (n - 1) as nat);
    let at = row_addr(addr, i, stride);
    let last = row_addr(addr, n - 1, stride);
    assert(0 <= at) by (nonlinear_arith)
        requires
            at == addr + i * 16 * stride,
            0 <= addr,
            0 <= i,
            1 <= stride,
    ;
    if i == n - 1 {
        lemma_le_u64_put_u64(prev, at, bank_word(banks, b, i));
    } else {
        lemma_mvout_stores_rows(mem, banks, b, addr, stride, (n - 1) as nat, i);
        assert(at + 16 <= last) by (nonlinear_arith)
            requires
                at == addr + i * 16 * stride,
                last == addr + (n - 1) * 16 * stride,
                i < n - 1,
                1 <= stride,
        ;
        if 0 <= last && last + 8 <= prev.len() {
            lemma_le_u64_put_u64_disjoint(prev, at, last, bank_word(banks, b, n - 1));
        }
    }
}

/// MVOUT never changes the size of memory.
pub proof fn lemma_mvout_mem_len(
    mem: Seq<u8>,
    banks: Seq<u8>,
    b: int,
    addr: int,
    stride: int,
    n: nat,
)
    ensures
        mvout_mem(mem, banks, b, addr, stride, n).len() == mem.len(),
    decreases n,
{
    if n > 0 {
        lemma_mvout_mem_len(mem, banks, b, addr, stride, (n - 1) as nat);
    }
}

/// A matrix written into a bank reads back unchanged.
pub proof fn lemma_read_matrix_after_write(banks: Seq<u8>, b: int, m: Seq<u64>)
    requires
        0 <= b < BANK_NUM,
        banks.len() == BANK_NUM * BANK_SIZE,
        m.len() == MATRIX_WORDS,
    ensures
        read_matrix(write_matrix(banks, b, m), b) == m,
{
    let t = write_matrix(banks, b, m);
    let base = bank_base(b);
    assert forall|w: int| 0 <= w < MATRIX_WORDS implies #[trigger] read_matrix(t, b)[w] == m[w] by {
        assert(base + w * 8 + 8 <= banks.len()) by (nonlinear_arith)
            requires
                0 <= b < BANK_NUM,
                base == b * BANK_SIZE,
                0 <= w < MATRIX_WORDS,
                banks.len() == BANK_NUM * BANK_SIZE,
        ;
        assert forall|k: int| 0 <= k < 8 implies #[trigger] t[base + w * 8 + k] == u64_byte(
            m[w],
            k,
        ) by {
            let p = base + w * 8 + k;
            assert((p - base) / 8 == w) by (nonlinear_arith)
                requires
                    p == base + w * 8 + k,
                    0 <= k < 8,
            ;
            assert((p - base) % 8 == k) by (nonlinear_arith)
                requires
                    p == base + w * 8 + k,
                    0 <= k < 8,
            ;
        }
        lemma_le_u64_of_bytes(t, base + w * 8, m[w]);
    }
    assert(read_matrix(t, b) =~= m);
}

/// Transposing twice gives back the matrix.
pub proof fn lemma_transpose_twice(m: Seq<u64>)
    requires
        m.len() == MATRIX_WORDS,
    ensures
        transpose(transpose(m)) == m,
{
    assert forall|w: int| 0 <= w < MATRIX_WORDS implies #[trigger] transpose(transpose(m))[w]
        == m[w] by {
        let v = (w % 16) * 16 + w / 16;
        assert(0 <= v < 256 && (v % 16) * 16 + v / 16 == w) by (nonlinear_arith)
            requires
                0 <= w < 256,
                v == (w % 16) * 16 + w / 16,
        ;
    }
    assert(transpose(transpose(m)) =~= m);
}

/// After TRANSPOSE, bank BANK2 holds the transpose of the matrix that bank
/// BANK0 held.
pub proof fn lemma_transpose_step_result(m: BemuModel, xs1: u64, xs2: u64)
    requires
        m.banks.len() == BANK_NUM * BANK_SIZE,
    ensures
        read_matrix(transpose_step(m, xs1, xs2).banks, field_bank2(xs1) as int) == transpose(
            read_matrix(m.banks, field_bank0(xs1) as int),
        ),
{
    lemma_fields_bounded(xs1, xs2);
    lemma_read_matrix_after_write(
        m.banks,
        field_bank2(xs1) as int,
        transpose(read_matrix(m.banks, field_bank0(xs1) as int)),
    );
}

/// After MUL_WARP16, bank BANK2 holds the product, modulo 2^64, of the
/// matrices that banks BANK0 and BANK1 held.
pub proof fn lemma_mul_warp16_step_result(m: BemuModel, xs1: u64, xs2: u64)
    requires
        m.banks.len() == BANK_NUM * BANK_SIZE,
    ensures
        read_matrix(mul_warp16_step(m, xs1, xs2).banks, field_bank2(xs1) as int) == matmul(
            read_matrix(m.banks, field_bank0(xs1) as int),
            read_matrix(m.banks, field_bank1(xs1) as int),
        ),
{
    lemma_fields_bounded(xs1, xs2);
    lemma_read_matrix_after_write(
        m.banks,
        field_bank2(xs1) as int,
        matmul(
            read_matrix(m.banks, field_bank0(xs1) as int),
            read_matrix(m.banks, field_bank1(xs1) as int),
        ),
    );
}

/// MSET with the allocate bit clears the bank: every word of it reads zero.
pub proof fn lemma_mset_alloc_clears(m: BemuModel, xs1: u64, xs2: u64, w: int)
    requires
        m.banks.len() == BANK_NUM * BANK_SIZE,
        m.configs.len() == BANK_NUM,
        field_mset_alloc(xs2),
        0 <= w,
        w * 8 + 8 <= BANK_SIZE,
    ensures
        bank_word(mset_step(m, xs1, xs2).banks, field_bank0(xs1) as int, w) == 0,
        mset_step(m, xs1, xs2).configs[field_bank0(xs1) as int].allocated,
{
    lemma_fields_bounded(xs1, xs2);
    let b = field_bank0(xs1) as int;
    let t = mset_step(m, xs1, xs2).banks;
    let base = bank_base(b);
    assert(base + w * 8 + 8 <= m.banks.len()) by (nonlinear_arith)
        requires
            0 <= b < BANK_NUM,
            base == b * BANK_SIZE,
            0 <= w,
            w * 8 + 8 <= BANK_SIZE,
            m.banks.len() == BANK_NUM * BANK_SIZE,
    ;
    assert forall|k: int| 0 <= k < 8 implies #[trigger] t[base + w * 8 + k] == u64_byte(0, k) by {
        assert(u64_byte(0, k) == 0) by {
            assert(0u64 & 0xff == 0) by (bit_vector);
            assert((0u64 >> 8u64) & 0xff == 0) by (bit_vector);
            assert((0u64 >> 16u64) & 0xff == 0) by (bit_vector);
            assert((0u64 >> 24u64) & 0xff == 0) by (bit_vector);
            assert((0u64 >> 32u64) & 0xff == 0) by (bit_vector);
            assert((0u64 >> 40u64) & 0xff == 0) by (bit_vector);
            assert((0u64 >> 48u64) & 0xff == 0) by (bit_vector);
            assert((0u64 >> 56u64) & 0xff == 0) by (bit_vector);
        }
    }
    lemma_le_u64_of_bytes(t, base + w * 8, 0);
}

} // verus!

