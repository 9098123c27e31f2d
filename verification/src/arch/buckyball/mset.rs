//! The MSET unit: it allocates physical banks to a virtual bank, or gives
//! them back, as an MSET instruction asks.
//!
//! `xs1`: bit 0 asks for a release, bits 1 to 13 name the virtual bank.
//! `xs2`: bit 0 asks for an allocation, bits 1 to 5 give the rows and bits
//! 6 to 13 the columns; rows times columns physical banks are allocated.
use crate::buckyball::bmt::{
    allocate_bank,
    allocate_model,
    bmt_wf,
    can_allocate,
    free_bank,
    free_model,
    BankMapTable,
    BmtModel,
};
use vstd::prelude::*;

verus! {

/// An MSET instruction waiting for the unit.
#[derive(Clone, Copy, PartialEq, Eq, Structural)]
pub struct MsetInst {
    pub xs1: u64,
    pub xs2: u64,
    pub rob_id: u64,
}

/// The unit's issue slot: whether a new instruction may be issued and the
/// instruction that waits.
pub struct MsetSlot {
    pub can_issue: bool,
    pub inst: Option<MsetInst>,
}

impl MsetSlot {
    /// An open slot with no instruction.
    pub fn new() -> (s: Self)
        ensures
            s.can_issue,
            s.inst is None,
    {
        MsetSlot { can_issue: true, inst: None }
    }
}

/// The fields of an MSET instruction: `(release_en, vbank_id, alloc_en,
/// row, col)`.
pub open spec fn mset_fields(xs1: u64, xs2: u64) -> (bool, u64, bool, u64, u64) {
    (
        xs1 % 2 == 1,
        ((xs1 / 2) % 8192) as u64,
        xs2 % 2 == 1,
        ((xs2 / 2) % 32) as u64,
        ((xs2 / 64) % 256) as u64,
    )
}

/// Decodes an MSET instruction into `(release_en, vbank_id, alloc_en, row,
/// col)`.
pub fn decode_mset(xs1: u64, xs2: u64) -> (r: (bool, u64, bool, u64, u64))
    ensures
        r == mset_fields(xs1, xs2),
{
    let release_en = (xs1 & 0x1) != 0;
    let bank_id = (xs1 >> 1) & 0x1FFF;
    let alloc_en = (xs2 & 0x1) != 0;
    let row = (xs2 >> 1) & 0x1F;
    let col = (xs2 >> 6) & 0xFF;
    assert(((xs1 & 0x1) != 0) == (xs1 % 2 == 1)) by (bit_vector);
    assert((xs1 >> 1) & 0x1FFF == (xs1 / 2) % 8192) by (bit_vector);
    assert(((xs2 & 0x1) != 0) == (xs2 % 2 == 1)) by (bit_vector);
    assert((xs2 >> 1) & 0x1F == (xs2 / 2) % 32) by (bit_vector);
    assert((xs2 >> 6) & 0xFF == (xs2 / 64) % 256) by (bit_vector);
    (release_en, bank_id, alloc_en, row, col)
}

/// Hands the unit an MSET instruction and closes the slot. The caller
/// checks first that the slot is open.
pub fn receive_mset_inst(slot: &mut MsetSlot, xs1: u64, xs2: u64, rob_id: u64)
    ensures
        final(slot).inst == Some(MsetInst { xs1, xs2, rob_id }),
        !final(slot).can_issue,
{
    slot.inst = Some(MsetInst { xs1, xs2, rob_id });
    slot.can_issue = false;
}

/// What the unit did with an instruction.
#[derive(Clone, Copy, PartialEq, Eq, Structural)]
pub struct MsetOutcome {
    pub rob_id: u64,
    pub release: bool,
    pub vbank_id: u64,
    pub bank_num: u64,
    pub success: bool,
}

/// The bank map after an MSET instruction, and whether it succeeded: a
/// release gives back the virtual bank's banks; otherwise an allocation of
/// rows times columns banks; with neither bit set nothing happens.
pub open spec fn mset_effect(m: BmtModel, xs1: u64, xs2: u64) -> (BmtModel, bool) {
    let (release_en, vbank_id, alloc_en, row, col) = mset_fields(xs1, xs2);
    let n = (row * col) as u64;
    if release_en {
        if m.vbank_to_pbanks.contains_key(vbank_id) {
            (free_model(m, vbank_id), true)
        } else {
            (m, false)
        }
    } else if alloc_en {
        if can_allocate(m, vbank_id, n) {
            (allocate_model(m, vbank_id, n), true)
        } else {
            (m, false)
        }
    } else {
        (m, false)
    }
}

/// Carries out the waiting instruction, if any: the bank map changes as
/// [`mset_effect`] says, the slot opens again, and the outcome comes back
/// for the ROB. `None`, with nothing changed, when no instruction waits.
pub fn process_mset(slot: &mut MsetSlot, bmt: &mut BankMapTable) -> (r: Option<MsetOutcome>)
    requires
        bmt_wf(old(bmt)@),
    ensures
        bmt_wf(final(bmt)@),
        match old(slot).inst {
            None => r is None && *final(slot) == *old(slot) && final(bmt)@ == old(bmt)@,
            Some(inst) => {
                let (release_en, vbank_id, alloc_en, row, col) = mset_fields(inst.xs1, inst.xs2);
                let (m, ok) = mset_effect(old(bmt)@, inst.xs1, inst.xs2);
                &&& r == Some(
                    MsetOutcome {
                        rob_id: inst.rob_id,
                        release: release_en,
                        vbank_id,
                        bank_num: (row * col) as u64,
                        success: ok,
                    },
                )
                &&& final(bmt)@ == m
                &&& final(slot).inst is None
                &&& final(slot).can_issue
            },
        },
{
    match slot.inst.take() {
        None => None,
        Some(inst) => {
            let (release_en, vbank_id, alloc_en, row, col) = decode_mset(inst.xs1, inst.xs2);
            assert(row * col <= 31 * 255) by (nonlinear_arith)
                requires
                    row < 32,
                    col < 256,
            ;
            let num_pbanks = row * col;
            let success = if release_en {
                free_bank(bmt, vbank_id)
            } else if alloc_en {
                if num_pbanks == 0 {
                    false
                } else {
                    allocate_bank(bmt, vbank_id, num_pbanks).is_some()
                }
            } else {
                false
            };
            slot.can_issue = true;
            Some(
                MsetOutcome {
                    rob_id: inst.rob_id,
                    release: release_en,
                    vbank_id,
                    bank_num: num_pbanks,
                    success,
                },
            )
        },
    }
}

} // verus!
