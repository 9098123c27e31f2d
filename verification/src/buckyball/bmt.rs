//! The bank map table: which physical banks back each virtual bank.
//!
//! Physical banks are handed out from a free list, oldest freed first; every
//! physical bank is at any time either free or owned by exactly one virtual
//! bank.
use std::collections::HashMap;
use std::collections::VecDeque;
use vstd::prelude::*;

verus! {

broadcast use vstd::std_specs::hash::group_hash_axioms;

/// The state of the bank map table.
pub ghost struct BmtModel {
    /// The physical banks of each allocated virtual bank, in allocation order.
    pub vbank_to_pbanks: Map<u64, Seq<u64>>,
    /// The virtual bank that owns each allocated physical bank.
    pub pbank_to_vbank: Map<u64, u64>,
    /// The free physical banks, in the order they are handed out.
    pub free: Seq<u64>,
    pub num_pbanks: u64,
    pub num_vbanks: u64,
}

/// The bank map table.
pub struct BankMapTable {
    vbank_to_pbanks: HashMap<u64, Vec<u64>>,
    pbank_to_vbank: HashMap<u64, u64>,
    free_pbank_list: VecDeque<u64>,
    num_pbanks: u64,
    num_vbanks: u64,
}

impl View for BankMapTable {
    type V = BmtModel;

    closed spec fn view(&self) -> BmtModel {
        BmtModel {
            vbank_to_pbanks: self.vbank_to_pbanks@.map_values(|v: Vec<u64>| v@),
            pbank_to_vbank: self.pbank_to_vbank@,
            free: self.free_pbank_list@,
            num_pbanks: self.num_pbanks,
            num_vbanks: self.num_vbanks,
        }
    }
}

/// The table is consistent: the free list holds distinct banks that nobody
/// owns; each owned bank appears in the list of its owner; each list holds
/// distinct banks owned by its virtual bank; and every physical bank is
/// free or owned.
pub open spec fn bmt_wf(m: BmtModel) -> bool {
    &&& m.free.no_duplicates()
    &&& forall|i: int|
        0 <= i < m.free.len() ==> #[trigger] m.free[i] < m.num_pbanks
            && !m.pbank_to_vbank.contains_key(m.free[i])
    &&& forall|p: u64|
        #[trigger] m.pbank_to_vbank.contains_key(p) ==> p < m.num_pbanks
            && m.vbank_to_pbanks.contains_key(m.pbank_to_vbank[p])
            && m.vbank_to_pbanks[m.pbank_to_vbank[p]].contains(p)
    &&& forall|v: u64|
        #[trigger] m.vbank_to_pbanks.contains_key(v) ==> m.vbank_to_pbanks[v].no_duplicates()
            && m.vbank_to_pbanks[v].len() > 0 && forall|k: int|
            0 <= k < m.vbank_to_pbanks[v].len() ==> m.pbank_to_vbank.contains_key(
                #[trigger] m.vbank_to_pbanks[v][k],
            ) && m.pbank_to_vbank[m.vbank_to_pbanks[v][k]] == v
    &&& forall|p: u64| p < m.num_pbanks ==> #[trigger] m.pbank_to_vbank.contains_key(p) || m.free.contains(p)
}

/// The free banks in order `0, 1, .., n - 1`.
pub open spec fn first_banks(n: u64) -> Seq<u64> {
    Seq::new(n as nat, |i: int| i as u64)
}

/// A fresh table: every physical bank free, in increasing order.
pub open spec fn init_model(num_vbanks: u64, num_pbanks: u64) -> BmtModel {
    BmtModel {
        vbank_to_pbanks: Map::empty(),
        pbank_to_vbank: Map::empty(),
        free: first_banks(num_pbanks),
        num_pbanks,
        num_vbanks,
    }
}

/// Whether allocating `n` physical banks to `vbank_id` succeeds: enough
/// banks are free, the virtual bank holds none yet, and `n` is not zero.
pub open spec fn can_allocate(m: BmtModel, vbank_id: u64, n: u64) -> bool {
    &&& n <= m.free.len()
    &&& !m.vbank_to_pbanks.contains_key(vbank_id)
    &&& n > 0
}

/// The table after the first `n` free banks went to `vbank_id`.
pub open spec fn allocate_model(m: BmtModel, vbank_id: u64, n: u64) -> BmtModel {
    let taken = m.free.take(n as int);
    BmtModel {
        vbank_to_pbanks: m.vbank_to_pbanks.insert(vbank_id, taken),
        pbank_to_vbank: Map::new(
            |p: u64| m.pbank_to_vbank.contains_key(p) || taken.contains(p),
            |p: u64|
                if taken.contains(p) {
                    vbank_id
                } else {
                    m.pbank_to_vbank[p]
                },
        ),
        free: m.free.skip(n as int),
        ..m
    }
}

/// The table after `vbank_id` gave back its banks, which join the end of
/// the free list in their order.
pub open spec fn free_model(m: BmtModel, vbank_id: u64) -> BmtModel {
    let given = m.vbank_to_pbanks[vbank_id];
    BmtModel {
        vbank_to_pbanks: m.vbank_to_pbanks.remove(vbank_id),
        pbank_to_vbank: Map::new(
            |p: u64| m.pbank_to_vbank.contains_key(p) && !given.contains(p),
            |p: u64| m.pbank_to_vbank[p],
        ),
        free: m.free + given,
        ..m
    }
}

// ---------------------------------------------------------------------------
// The table stays consistent
// ---------------------------------------------------------------------------

/// Allocation keeps the table consistent.
pub proof fn lemma_allocate_keeps_wf(m: BmtModel, vbank_id: u64, n: u64)
    requires
        bmt_wf(m),
        can_allocate(m, vbank_id, n),
    ensures
        bmt_wf(allocate_model(m, vbank_id, n)),
{
    let taken = m.free.take(n as int);
    let r = allocate_model(m, vbank_id, n);
    assert(r.free.no_duplicates()) by {
        assert forall|i: int, j: int|
            0 <= i < r.free.len() && 0 <= j < r.free.len() && i != j implies r.free[i]
            != r.free[j] by {
            assert(r.free[i] == m.free[i + n]);
            assert(r.free[j] == m.free[j + n]);
        }
    }
    assert forall|i: int| 0 <= i < taken.len() && 0 <= i < m.free.len() implies taken[i] == m.free[i] by {}
    assert forall|i: int| 0 <= i < r.free.len() implies #[trigger] r.free[i] < r.num_pbanks
        && !r.pbank_to_vbank.contains_key(r.free[i]) by {
        assert(r.free[i] == m.free[i + n]);
        if taken.contains(r.free[i]) {
            let k = choose|k: int| 0 <= k < taken.len() && taken[k] == r.free[i];
            assert(m.free[k] == m.free[i + n]);
        }
    }
    assert forall|p: u64| #[trigger] r.pbank_to_vbank.contains_key(p) implies p < r.num_pbanks
        && r.vbank_to_pbanks.contains_key(r.pbank_to_vbank[p])
        && r.vbank_to_pbanks[r.pbank_to_vbank[p]].contains(p) by {
        if taken.contains(p) {
            let k = choose|k: int| 0 <= k < taken.len() && taken[k] == p;
            assert(m.free[k] == p);
        } else {
            assert(m.pbank_to_vbank.contains_key(p));
            assert(m.pbank_to_vbank[p] != vbank_id);
        }
    }
    assert forall|v: u64| #[trigger] r.vbank_to_pbanks.contains_key(v) implies r.vbank_to_pbanks[v].no_duplicates()
        && r.vbank_to_pbanks[v].len() > 0 && forall|k: int|
        0 <= k < r.vbank_to_pbanks[v].len() ==> r.pbank_to_vbank.contains_key(
            #[trigger] r.vbank_to_pbanks[v][k],
        ) && r.pbank_to_vbank[r.vbank_to_pbanks[v][k]] == v by {
        if v == vbank_id {
            assert(r.vbank_to_pbanks[v] == taken);
            assert forall|k: int| 0 <= k < taken.len() implies r.pbank_to_vbank.contains_key(
                #[trigger] taken[k],
            ) && r.pbank_to_vbank[taken[k]] == v by {
                assert(taken.contains(taken[k]));
            }
        } else {
            assert(r.vbank_to_pbanks[v] == m.vbank_to_pbanks[v]);
            assert forall|k: int| 0 <= k < m.vbank_to_pbanks[v].len() implies r.pbank_to_vbank.contains_key(
                #[trigger] m.vbank_to_pbanks[v][k],
            ) && r.pbank_to_vbank[m.vbank_to_pbanks[v][k]] == v by {
                let p = m.vbank_to_pbanks[v][k];
                assert(m.pbank_to_vbank.contains_key(p));
                if taken.contains(p) {
                    let j = choose|j: int| 0 <= j < taken.len() && taken[j] == p;
                    assert(m.free[j] == p);
                }
            }
        }
    }
    assert forall|p: u64| p < r.num_pbanks implies #[trigger] r.pbank_to_vbank.contains_key(p)
        || r.free.contains(p) by {
        if !m.pbank_to_vbank.contains_key(p) {
            assert(m.free.contains(p));
            let i = choose|i: int| 0 <= i < m.free.len() && m.free[i] == p;
            if i < n {
                assert(taken[i] == p);
                assert(taken.contains(p));
            } else {
                assert(r.free[i - n] == p);
            }
        }
    }
}

/// Giving back the banks of an allocated virtual bank keeps the table
/// consistent.
pub proof fn lemma_free_keeps_wf(m: BmtModel, vbank_id: u64)
    requires
        bmt_wf(m),
        m.vbank_to_pbanks.contains_key(vbank_id),
    ensures
        bmt_wf(free_model(m, vbank_id)),
{
    let given = m.vbank_to_pbanks[vbank_id];
    let r = free_model(m, vbank_id);
    assert(r.free.no_duplicates()) by {
        assert forall|i: int, j: int|
            0 <= i < r.free.len() && 0 <= j < r.free.len() && i != j implies r.free[i]
            != r.free[j] by {
            if i < m.free.len() && j >= m.free.len() {
                let p = given[j - m.free.len()];
                assert(m.pbank_to_vbank.contains_key(p));
            } else if j < m.free.len() && i >= m.free.len() {
                let p = given[i - m.free.len()];
                assert(m.pbank_to_vbank.contains_key(p));
            }
        }
    }
    assert forall|i: int| 0 <= i < r.free.len() implies #[trigger] r.free[i] < r.num_pbanks
        && !r.pbank_to_vbank.contains_key(r.free[i]) by {
        if i >= m.free.len() {
            let p = given[i - m.free.len()];
            assert(m.pbank_to_vbank.contains_key(p));
            assert(given.contains(p));
        }
    }
    assert forall|p: u64| #[trigger] r.pbank_to_vbank.contains_key(p) implies p < r.num_pbanks
        && r.vbank_to_pbanks.contains_key(r.pbank_to_vbank[p])
        && r.vbank_to_pbanks[r.pbank_to_vbank[p]].contains(p) by {
        assert(m.pbank_to_vbank.contains_key(p));
        if m.pbank_to_vbank[p] == vbank_id {
            assert(given.contains(p));
        }
    }
    assert forall|v: u64| #[trigger] r.vbank_to_pbanks.contains_key(v) implies r.vbank_to_pbanks[v].no_duplicates()
        && r.vbank_to_pbanks[v].len() > 0 && forall|k: int|
        0 <= k < r.vbank_to_pbanks[v].len() ==> r.pbank_to_vbank.contains_key(
            #[trigger] r.vbank_to_pbanks[v][k],
        ) && r.pbank_to_vbank[r.vbank_to_pbanks[v][k]] == v by {
        assert(v != vbank_id);
        assert(m.vbank_to_pbanks.contains_key(v));
        assert forall|k: int| 0 <= k < m.vbank_to_pbanks[v].len() implies r.pbank_to_vbank.contains_key(
            #[trigger] m.vbank_to_pbanks[v][k],
        ) && r.pbank_to_vbank[m.vbank_to_pbanks[v][k]] == v by {
            let p = m.vbank_to_pbanks[v][k];
            if given.contains(p) {
                let j = choose|j: int| 0 <= j < given.len() && given[j] == p;
                assert(m.pbank_to_vbank[given[j]] == vbank_id);
            }
        }
    }
    assert forall|p: u64| p < r.num_pbanks implies #[trigger] r.pbank_to_vbank.contains_key(p)
        || r.free.contains(p) by {
        if m.pbank_to_vbank.contains_key(p) && given.contains(p) {
            let j = choose|j: int| 0 <= j < given.len() && given[j] == p;
            assert(r.free[m.free.len() + j] == p);
        } else if !m.pbank_to_vbank.contains_key(p) {
            let i = choose|i: int| 0 <= i < m.free.len() && m.free[i] == p;
            assert(r.free[i] == p);
        }
    }
}

// ---------------------------------------------------------------------------
// Operations
// ---------------------------------------------------------------------------

/// A table for `num_vbanks` virtual banks over `num_pbanks` physical banks,
/// all of them free.
pub fn init_bmt(num_vbanks: u64, num_pbanks: u64) -> (t: BankMapTable)
    ensures
        t@ == init_model(num_vbanks, num_pbanks),
        bmt_wf(t@),
{
    let mut free: VecDeque<u64> = VecDeque::new();
    let mut i: u64 = 0;
    while i < num_pbanks
        invariant
            i <= num_pbanks,
            free@ == first_banks(i),
        decreases num_pbanks - i,
    {
        free.push_back(i);
        i = i + 1;
        assert(free@ =~= first_banks(i));
    }
    let t = BankMapTable {
        vbank_to_pbanks: HashMap::new(),
        pbank_to_vbank: HashMap::new(),
        free_pbank_list: free,
        num_pbanks,
        num_vbanks,
    };
    assert(t@.vbank_to_pbanks =~= Map::empty());
    proof {
        assert forall|p: u64| p < num_pbanks implies #[trigger] t@.pbank_to_vbank.contains_key(p)
            || t@.free.contains(p) by {
            assert(t@.free[p as int] == p);
        }
    }
    t
}

/// Allocates `num_pbanks` physical banks to `vbank_id`: the first banks of
/// the free list, returned in that order. `None`, with the table unchanged,
/// when too few banks are free, when the virtual bank already holds banks,
/// or when `num_pbanks` is zero.
pub fn allocate_bank(t: &mut BankMapTable, vbank_id: u64, num_pbanks: u64) -> (r: Option<
    Vec<u64>,
>)
    requires
        bmt_wf(old(t)@),
    ensures
        bmt_wf(final(t)@),
        can_allocate(old(t)@, vbank_id, num_pbanks) ==> (r matches Some(v) && v@ == old(
            t,
        )@.free.take(num_pbanks as int) && final(t)@ == allocate_model(
            old(t)@,
            vbank_id,
            num_pbanks,
        )),
        !can_allocate(old(t)@, vbank_id, num_pbanks) ==> r is None && final(t)@ == old(t)@,
{
    if (t.free_pbank_list.len() as u64) < num_pbanks {
        return None;
    }
    if t.vbank_to_pbanks.contains_key(&vbank_id) {
        return None;
    }
    if num_pbanks == 0 {
        return None;
    }
    let ghost m = t@;
    let mut allocated: Vec<u64> = Vec::new();
    let mut k: u64 = 0;
    while k < num_pbanks
        invariant
            k <= num_pbanks,
            num_pbanks <= m.free.len(),
            t.free_pbank_list@ == m.free.skip(k as int),
            allocated@ == m.free.take(k as int),
            t.vbank_to_pbanks@ == old(t).vbank_to_pbanks@,
            t.num_pbanks == m.num_pbanks,
            t.num_vbanks == m.num_vbanks,
            t.pbank_to_vbank@ == Map::new(
                |p: u64| m.pbank_to_vbank.contains_key(p) || m.free.take(k as int).contains(p),
                |p: u64|
                    if m.free.take(k as int).contains(p) {
                        vbank_id
                    } else {
                        m.pbank_to_vbank[p]
                    },
            ),
        decreases num_pbanks - k,
    {
        let p = t.free_pbank_list.pop_front().unwrap();
        assert(p == m.free[k as int]);
        t.pbank_to_vbank.insert(p, vbank_id);
        allocated.push(p);
        proof {
            assert(m.free.take(k + 1) =~= m.free.take(k as int).push(p));
            assert(t.free_pbank_list@ =~= m.free.skip(k + 1));
            let t1 = m.free.take(k + 1);
            let t0 = m.free.take(k as int);
            assert forall|q: u64| t1.contains(q) <==> (t0.contains(q) || q == p) by {
                if t1.contains(q) {
                    let j = choose|j: int| 0 <= j < t1.len() && t1[j] == q;
                    if j < k {
                        assert(t0[j] == q);
                    }
                }
                if t0.contains(q) {
                    let j = choose|j: int| 0 <= j < t0.len() && t0[j] == q;
                    assert(t1[j] == q);
                }
                if q == p {
                    assert(t1[k as int] == q);
                }
            }
            assert(t.pbank_to_vbank@ =~= Map::new(
                |q: u64| m.pbank_to_vbank.contains_key(q) || m.free.take(k + 1).contains(q),
                |q: u64|
                    if m.free.take(k + 1).contains(q) {
                        vbank_id
                    } else {
                        m.pbank_to_vbank[q]
                    },
            ));
        }
        k = k + 1;
    }
    let result = allocated.clone();
    t.vbank_to_pbanks.insert(vbank_id, allocated);
    proof {
        let a = allocate_model(m, vbank_id, num_pbanks);
        assert(result@ =~= allocated@);
        assert(t@.vbank_to_pbanks =~= a.vbank_to_pbanks);
        assert(t@.pbank_to_vbank =~= a.pbank_to_vbank);
        assert(t@.free =~= a.free);
        assert(t@ == a);
        lemma_allocate_keeps_wf(m, vbank_id, num_pbanks);
    }
    Some(result)
}

/// Gives back the physical banks of `vbank_id`, which join the end of the
/// free list in their order; `false`, with the table unchanged, when the
/// virtual bank holds no banks.
pub fn free_bank(t: &mut BankMapTable, vbank_id: u64) -> (r: bool)
    requires
        bmt_wf(old(t)@),
    ensures
        bmt_wf(final(t)@),
        r == old(t)@.vbank_to_pbanks.contains_key(vbank_id),
        r ==> final(t)@ == free_model(old(t)@, vbank_id),
        !r ==> final(t)@ == old(t)@,
{
    let ghost m = t@;
    match t.vbank_to_pbanks.remove(&vbank_id) {
        None => {
            assert(t@.vbank_to_pbanks =~= m.vbank_to_pbanks);
            false
        },
        Some(pbank_ids) => {
            let ghost given = pbank_ids@;
            assert(given == m.vbank_to_pbanks[vbank_id]);
            let mut i: usize = 0;
            while i < pbank_ids.len()
                invariant
                    i <= given.len(),
                    pbank_ids@ == given,
                    given == m.vbank_to_pbanks[vbank_id],
                    t.vbank_to_pbanks@.map_values(|v: Vec<u64>| v@) == m.vbank_to_pbanks.remove(
                        vbank_id,
                    ),
                    t.num_pbanks == m.num_pbanks,
                    t.num_vbanks == m.num_vbanks,
                    t.free_pbank_list@ == m.free + given.take(i as int),
                    t.pbank_to_vbank@ == Map::new(
                        |p: u64| m.pbank_to_vbank.contains_key(p) && !given.take(i as int).contains(p),
                        |p: u64| m.pbank_to_vbank[p],
                    ),
                decreases given.len() - i,
            {
                let p = pbank_ids[i];
                t.pbank_to_vbank.remove(&p);
                t.free_pbank_list.push_back(p);
                proof {
                    assert(given.take(i + 1) =~= given.take(i as int).push(p));
                    assert(t.free_pbank_list@ =~= m.free + given.take(i + 1));
                    let t1 = given.take(i + 1);
                    let t0 = given.take(i as int);
                    assert forall|q: u64| t1.contains(q) <==> (t0.contains(q) || q == p) by {
                        if t1.contains(q) {
                            let j = choose|j: int| 0 <= j < t1.len() && t1[j] == q;
                            if j < i {
                                assert(t0[j] == q);
                            }
                        }
                        if t0.contains(q) {
                            let j = choose|j: int| 0 <= j < t0.len() && t0[j] == q;
                            assert(t1[j] == q);
                        }
                        if q == p {
                            assert(t1[i as int] == q);
                        }
                    }
                    assert(t.pbank_to_vbank@ =~= Map::new(
                        |q: u64|
                            m.pbank_to_vbank.contains_key(q) && !given.take(i + 1).contains(q),
                        |q: u64| m.pbank_to_vbank[q],
                    ));
                }
                i = i + 1;
            }
            proof {
                assert(given.take(given.len() as int) =~= given);
                assert(t@.vbank_to_pbanks =~= free_model(m, vbank_id).vbank_to_pbanks);
                assert(t@.pbank_to_vbank =~= free_model(m, vbank_id).pbank_to_vbank);
                lemma_free_keeps_wf(m, vbank_id);
            }
            true
        },
    }
}

/// The physical banks of `vbank_id`, in allocation order, or `None` when it
/// holds none.
pub fn get_pbank_ids(t: &BankMapTable, vbank_id: u64) -> (r: Option<Vec<u64>>)
    ensures
        t@.vbank_to_pbanks.contains_key(vbank_id) ==> (r matches Some(v) && v@
            == t@.vbank_to_pbanks[vbank_id]),
        !t@.vbank_to_pbanks.contains_key(vbank_id) ==> r is None,
{
    match t.vbank_to_pbanks.get(&vbank_id) {
        Some(v) => Some(v.clone()),
        None => None,
    }
}

/// The virtual bank that owns `pbank_id`, or `None` when it is free.
pub fn get_vbank_id(t: &BankMapTable, pbank_id: u64) -> (r: Option<u64>)
    ensures
        t@.pbank_to_vbank.contains_key(pbank_id) ==> r == Some(t@.pbank_to_vbank[pbank_id]),
        !t@.pbank_to_vbank.contains_key(pbank_id) ==> r is None,
{
    match t.pbank_to_vbank.get(&pbank_id) {
        Some(v) => Some(*v),
        None => None,
    }
}

// ---------------------------------------------------------------------------
// Laws
// ---------------------------------------------------------------------------

/// After a successful allocation, the virtual bank's banks are the ones
/// handed out, and each of them is owned by it.
pub proof fn lemma_allocate_then_lookup(m: BmtModel, vbank_id: u64, n: u64, k: int)
    requires
        bmt_wf(m),
        can_allocate(m, vbank_id, n),
        0 <= k < n,
    ensures
        allocate_model(m, vbank_id, n).vbank_to_pbanks[vbank_id] == m.free.take(n as int),
        allocate_model(m, vbank_id, n).pbank_to_vbank[m.free[k]] == vbank_id,
        allocate_model(m, vbank_id, n).pbank_to_vbank.contains_key(m.free[k]),
{
    assert(m.free.take(n as int)[k] == m.free[k]);
}

/// Allocating banks to a virtual bank that held none and then freeing it
/// brings back the same owners and the same free banks, the banks handed
/// out now at the end of the free list.
pub proof fn lemma_allocate_then_free(m: BmtModel, vbank_id: u64, n: u64)
    requires
        bmt_wf(m),
        can_allocate(m, vbank_id, n),
    ensures
        free_model(allocate_model(m, vbank_id, n), vbank_id).vbank_to_pbanks
            == m.vbank_to_pbanks,
        free_model(allocate_model(m, vbank_id, n), vbank_id).pbank_to_vbank
            == m.pbank_to_vbank,
        free_model(allocate_model(m, vbank_id, n), vbank_id).free == m.free.skip(n as int)
            + m.free.take(n as int),
        free_model(allocate_model(m, vbank_id, n), vbank_id).free.to_multiset()
            == m.free.to_multiset(),
{
    let a = allocate_model(m, vbank_id, n);
    let f = free_model(a, vbank_id);
    let taken = m.free.take(n as int);
    assert(f.vbank_to_pbanks =~= m.vbank_to_pbanks);
    assert forall|p: u64| #[trigger] f.pbank_to_vbank.contains_key(p) == m.pbank_to_vbank.contains_key(p) by {
        if m.pbank_to_vbank.contains_key(p) && taken.contains(p) {
            let j = choose|j: int| 0 <= j < taken.len() && taken[j] == p;
            assert(m.free[j] == p);
        }
    }
    assert(f.pbank_to_vbank =~= m.pbank_to_vbank);
    let rest = m.free.skip(n as int);
    vstd::seq_lib::lemma_multiset_commutative(rest, taken);
    vstd::seq_lib::lemma_multiset_commutative(taken, rest);
    assert(taken + rest =~= m.free);
    assert(rest.to_multiset().add(taken.to_multiset()) =~= taken.to_multiset().add(
        rest.to_multiset(),
    )) by {
        broadcast use vstd::multiset::group_multiset_axioms;
    }
}

} // verus!
