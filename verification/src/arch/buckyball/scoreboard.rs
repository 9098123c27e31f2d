//! The scoreboard of the memory controller: it holds the bank writes and
//! reads that must wait for an older request on the same physical bank, and
//! the request that each physical bank is serving.
//!
//! Requests are ordered by their ROB id: a request may go ahead only when no
//! older one on its bank is pending or in flight, and a free bank always
//! serves its oldest waiting request first.
use std::collections::HashMap;
use vstd::prelude::*;

verus! {

broadcast use vstd::std_specs::hash::group_hash_axioms;

/// A bank write that waits in the scoreboard.
pub struct PendingRequest {
    pub rob_id: u64,
    pub pbank_id: u64,
    pub source: String,
    pub json_content: String,
}

/// A bank read that waits in the scoreboard.
pub struct PendingReadRequest {
    pub rob_id: u64,
    pub pbank_id: u64,
    pub start_addr: u64,
    pub count: u64,
    pub source: String,
}

/// The source that marks a write reserved before its data has arrived.
pub open spec fn reserved_source() -> Seq<char> {
    seq!['r', 'e', 's', 'e', 'r', 'v', 'e', 'd']
}

/// The state of the scoreboard.
pub ghost struct ScoreboardModel {
    /// Waiting writes, oldest first.
    pub writes: Seq<PendingRequest>,
    /// Waiting reads, oldest first.
    pub reads: Seq<PendingReadRequest>,
    /// For each busy physical bank, the ROB id of the request it serves.
    pub in_flight: Map<u64, u64>,
}

/// The scoreboard.
pub struct Scoreboard {
    writes: Vec<PendingRequest>,
    reads: Vec<PendingReadRequest>,
    in_flight: HashMap<u64, u64>,
}

impl View for Scoreboard {
    type V = ScoreboardModel;

    closed spec fn view(&self) -> ScoreboardModel {
        ScoreboardModel { writes: self.writes@, reads: self.reads@, in_flight: self.in_flight@ }
    }
}

pub open spec fn empty_model() -> ScoreboardModel {
    ScoreboardModel {
        writes: Seq::empty(),
        reads: Seq::empty(),
        in_flight: Map::empty(),
    }
}

// ---------------------------------------------------------------------------
// Which request a free bank serves next
// ---------------------------------------------------------------------------

/// Write `i` waits on a bank that is free.
pub open spec fn write_ready(m: ScoreboardModel, i: int) -> bool {
    0 <= i < m.writes.len() && !m.in_flight.contains_key(m.writes[i].pbank_id)
}

/// Write `i` is the oldest ready write (the first one among equals).
pub open spec fn is_next_write(m: ScoreboardModel, i: int) -> bool {
    &&& write_ready(m, i)
    &&& forall|j: int|
        #![trigger write_ready(m, j)]
        write_ready(m, j) ==> m.writes[j].rob_id > m.writes[i].rob_id || (m.writes[j].rob_id
            == m.writes[i].rob_id && j >= i)
}

/// The index of the write that goes next, if any write is ready.
pub open spec fn next_write(m: ScoreboardModel) -> Option<int> {
    if exists|i: int| is_next_write(m, i) {
        Some(choose|i: int| is_next_write(m, i))
    } else {
        None
    }
}

/// The writes left once every write of `rob_id` on `pbank_id` has gone.
pub open spec fn drop_writes(
    writes: Seq<PendingRequest>,
    rob_id: u64,
    pbank_id: u64,
) -> Seq<PendingRequest> {
    writes.filter(keep_write(rob_id, pbank_id))
}

/// Keeps the writes that are not of `rob_id` on `pbank_id`.
pub open spec fn keep_write(rob_id: u64, pbank_id: u64) -> spec_fn(PendingRequest) -> bool {
    |r: PendingRequest| !(r.rob_id == rob_id && r.pbank_id == pbank_id)
}

/// The scoreboard once the next write has gone, and what it hands out.
pub open spec fn take_write(m: ScoreboardModel) -> (ScoreboardModel, Option<
    (u64, u64, String, String),
>) {
    match next_write(m) {
        None => (m, None),
        Some(i) => {
            let w = m.writes[i];
            (
                ScoreboardModel { writes: drop_writes(m.writes, w.rob_id, w.pbank_id), ..m },
                Some((w.rob_id, w.pbank_id, w.source, w.json_content)),
            )
        },
    }
}

/// Every write that goes, one after the other, until none is ready.
pub open spec fn drain_writes(m: ScoreboardModel) -> Seq<(u64, u64, String, String)>
    decreases m.writes.len(),
{
    let (m2, r) = take_write(m);
    match r {
        None => Seq::empty(),
        Some(t) => if m2.writes.len() < m.writes.len() {
            seq![t] + drain_writes(m2)
        } else {
            seq![t]
        },
    }
}

/// Read `i` waits on a bank that is free.
pub open spec fn read_ready(m: ScoreboardModel, i: int) -> bool {
    0 <= i < m.reads.len() && !m.in_flight.contains_key(m.reads[i].pbank_id)
}

/// Read `i` is the oldest ready read (the first one among equals).
pub open spec fn is_next_read(m: ScoreboardModel, i: int) -> bool {
    &&& read_ready(m, i)
    &&& forall|j: int|
        #![trigger read_ready(m, j)]
        read_ready(m, j) ==> m.reads[j].rob_id > m.reads[i].rob_id || (m.reads[j].rob_id
            == m.reads[i].rob_id && j >= i)
}

/// The index of the read that goes next, if any read is ready.
pub open spec fn next_read(m: ScoreboardModel) -> Option<int> {
    if exists|i: int| is_next_read(m, i) {
        Some(choose|i: int| is_next_read(m, i))
    } else {
        None
    }
}

/// The reads left once every read of `rob_id` on `pbank_id` has gone.
pub open spec fn drop_reads(
    reads: Seq<PendingReadRequest>,
    rob_id: u64,
    pbank_id: u64,
) -> Seq<PendingReadRequest> {
    reads.filter(keep_read(rob_id, pbank_id))
}

/// Keeps the reads that are not of `rob_id` on `pbank_id`.
pub open spec fn keep_read(rob_id: u64, pbank_id: u64) -> spec_fn(PendingReadRequest) -> bool {
    |r: PendingReadRequest| !(r.rob_id == rob_id && r.pbank_id == pbank_id)
}

/// The scoreboard once the next read has gone, and what it hands out.
pub open spec fn take_read(m: ScoreboardModel) -> (ScoreboardModel, Option<
    (u64, u64, u64, u64, String),
>) {
    match next_read(m) {
        None => (m, None),
        Some(i) => {
            let r = m.reads[i];
            (
                ScoreboardModel { reads: drop_reads(m.reads, r.rob_id, r.pbank_id), ..m },
                Some((r.rob_id, r.pbank_id, r.start_addr, r.count, r.source)),
            )
        },
    }
}

/// Every read that goes, one after the other, until none is ready.
pub open spec fn drain_reads(m: ScoreboardModel) -> Seq<(u64, u64, u64, u64, String)>
    decreases m.reads.len(),
{
    let (m2, r) = take_read(m);
    match r {
        None => Seq::empty(),
        Some(t) => if m2.reads.len() < m.reads.len() {
            seq![t] + drain_reads(m2)
        } else {
            seq![t]
        },
    }
}

/// The scoreboard once every write that can go has gone.
pub open spec fn drained_writes(m: ScoreboardModel) -> ScoreboardModel
    decreases m.writes.len(),
{
    let (m2, r) = take_write(m);
    match r {
        None => m,
        Some(_) => if m2.writes.len() < m.writes.len() {
            drained_writes(m2)
        } else {
            m2
        },
    }
}

/// The scoreboard once every read that can go has gone.
pub open spec fn drained_reads(m: ScoreboardModel) -> ScoreboardModel
    decreases m.reads.len(),
{
    let (m2, r) = take_read(m);
    match r {
        None => m,
        Some(_) => if m2.reads.len() < m.reads.len() {
            drained_reads(m2)
        } else {
            m2
        },
    }
}

/// No two waiting writes share a ROB id.
pub open spec fn write_robs_distinct(m: ScoreboardModel) -> bool {
    forall|i: int, j: int|
        0 <= i < m.writes.len() && 0 <= j < m.writes.len() && i != j ==> #[trigger] m.writes[i].rob_id
            != #[trigger] m.writes[j].rob_id
}

/// No two waiting reads share a ROB id.
pub open spec fn read_robs_distinct(m: ScoreboardModel) -> bool {
    forall|i: int, j: int|
        0 <= i < m.reads.len() && 0 <= j < m.reads.len() && i != j ==> #[trigger] m.reads[i].rob_id
            != #[trigger] m.reads[j].rob_id
}

/// What the scoreboard hands out for a write.
pub open spec fn write_tuple(w: PendingRequest) -> (u64, u64, String, String) {
    (w.rob_id, w.pbank_id, w.source, w.json_content)
}

/// What the scoreboard hands out for a read.
pub open spec fn read_tuple(r: PendingReadRequest) -> (u64, u64, u64, u64, String) {
    (r.rob_id, r.pbank_id, r.start_addr, r.count, r.source)
}

/// Keeps the writes that wait on a busy bank.
pub open spec fn write_on_busy_bank(busy: Map<u64, u64>) -> spec_fn(PendingRequest) -> bool {
    |w: PendingRequest| busy.contains_key(w.pbank_id)
}

/// Keeps the reads that wait on a busy bank.
pub open spec fn read_on_busy_bank(busy: Map<u64, u64>) -> spec_fn(PendingReadRequest) -> bool {
    |r: PendingReadRequest| busy.contains_key(r.pbank_id)
}

/// A request of `rob_id` on `pbank_id` may go ahead: no older request on that
/// bank is in flight or waits as a write.
pub open spec fn may_proceed(m: ScoreboardModel, pbank_id: u64, rob_id: u64) -> bool {
    &&& !(m.in_flight.contains_key(pbank_id) && m.in_flight[pbank_id] < rob_id)
    &&& !(exists|i: int|
        0 <= i < m.writes.len() && #[trigger] m.writes[i].pbank_id == pbank_id
            && m.writes[i].rob_id < rob_id)
}

// ---------------------------------------------------------------------------
// Lemmas
// ---------------------------------------------------------------------------

proof fn lemma_next_write_unique(m: ScoreboardModel, i: int, j: int)
    requires
        is_next_write(m, i),
        is_next_write(m, j),
    ensures
        i == j,
{
    assert(write_ready(m, i) && write_ready(m, j));
}

proof fn lemma_next_read_unique(m: ScoreboardModel, i: int, j: int)
    requires
        is_next_read(m, i),
        is_next_read(m, j),
    ensures
        i == j,
{
    assert(read_ready(m, i) && read_ready(m, j));
}

/// Filtering out an element that fails the predicate makes the sequence
/// shorter.
proof fn lemma_filter_shorter<A>(s: Seq<A>, p: spec_fn(A) -> bool, i: int)
    requires
        0 <= i < s.len(),
        !p(s[i]),
    ensures
        s.filter(p).len() < s.len(),
    decreases s.len(),
{
    reveal(Seq::filter);
    if i == s.len() - 1 {
        s.drop_last().lemma_filter_len(p);
    } else {
        lemma_filter_shorter(s.drop_last(), p, i);
    }
}

proof fn lemma_filter_step<A>(s: Seq<A>, p: spec_fn(A) -> bool, i: int)
    requires
        0 <= i < s.len(),
    ensures
        s.take(i + 1).filter(p) == if p(s[i]) {
            s.take(i).filter(p).push(s[i])
        } else {
            s.take(i).filter(p)
        },
{
    reveal(Seq::filter);
    assert(s.take(i + 1).drop_last() =~= s.take(i));
}

// ---------------------------------------------------------------------------
// Operations
// ---------------------------------------------------------------------------

fn tag_reserved() -> (s: String)
    ensures
        s@ == reserved_source(),
{
    let s = "reserved".to_string();
    proof {
        reveal_strlit("reserved");
    }
    assert(s@ =~= reserved_source());
    s
}

impl Scoreboard {
    /// An empty scoreboard.
    pub fn new() -> (sb: Self)
        ensures
            sb@ == empty_model(),
    {
        Scoreboard { writes: Vec::new(), reads: Vec::new(), in_flight: HashMap::new() }
    }
}


/// Empties the scoreboard: no waiting request and no bank in flight.
pub fn init_scoreboard(sb: &mut Scoreboard)
    ensures
        final(sb)@ == empty_model(),
{
    *sb = Scoreboard::new();
}

/// Whether a request of `rob_id` on `pbank_id` may go ahead: no older
/// request on that bank is in flight, and no older write on it waits.
pub fn check_dependency(sb: &Scoreboard, pbank_id: u64, rob_id: u64) -> (r: bool)
    ensures
        r == may_proceed(sb@, pbank_id, rob_id),
{
    match sb.in_flight.get(&pbank_id) {
        Some(pending_rob_id) => {
            if *pending_rob_id < rob_id {
                return false;
            }
        },
        None => {},
    }
    let mut i: usize = 0;
    while i < sb.writes.len()
        invariant
            i <= sb.writes@.len(),
            !(sb@.in_flight.contains_key(pbank_id) && sb@.in_flight[pbank_id] < rob_id),
            forall|j: int|
                0 <= j < i ==> !(#[trigger] sb.writes@[j].pbank_id == pbank_id
                    && sb.writes@[j].rob_id < rob_id),
        decreases sb.writes@.len() - i,
    {
        if sb.writes[i].pbank_id == pbank_id && sb.writes[i].rob_id < rob_id {
            assert(sb@.writes[i as int].pbank_id == pbank_id && sb@.writes[i as int].rob_id
                < rob_id);
            return false;
        }
        i = i + 1;
    }
    true
}

/// Reserves a place for a write of `rob_id` on `pbank_id` before its data
/// arrives, so that younger reads of the bank wait for it.
pub fn reserve_write_request(sb: &mut Scoreboard, rob_id: u64, pbank_id: u64)
    ensures
        final(sb)@.writes.len() == old(sb)@.writes.len() + 1,
        final(sb)@.writes.drop_last() == old(sb)@.writes,
        final(sb)@.writes.last().rob_id == rob_id,
        final(sb)@.writes.last().pbank_id == pbank_id,
        final(sb)@.writes.last().source@ == reserved_source(),
        final(sb)@.writes.last().json_content@ == Seq::<char>::empty(),
        final(sb)@.reads == old(sb)@.reads,
        final(sb)@.in_flight == old(sb)@.in_flight,
{
    let req = PendingRequest {
        rob_id,
        pbank_id,
        source: tag_reserved(),
        json_content: String::new(),
    };
    sb.writes.push(req);
}

/// The first waiting write of `rob_id` on `pbank_id` that is still a
/// reservation.
pub open spec fn reserved_slot(m: ScoreboardModel, rob_id: u64, pbank_id: u64, i: int) -> bool {
    &&& 0 <= i < m.writes.len()
    &&& m.writes[i].rob_id == rob_id
    &&& m.writes[i].pbank_id == pbank_id
    &&& m.writes[i].source@ == reserved_source()
    &&& forall|j: int|
        0 <= j < i ==> !(#[trigger] m.writes[j].rob_id == rob_id && m.writes[j].pbank_id
            == pbank_id && m.writes[j].source@ == reserved_source())
}

/// Adds a write that must wait: it fills the reservation of the same ROB id
/// on the same bank when there is one, and waits at the end otherwise.
pub fn add_to_scoreboard(
    sb: &mut Scoreboard,
    rob_id: u64,
    pbank_id: u64,
    source: String,
    json_content: String,
)
    ensures
        final(sb)@.reads == old(sb)@.reads,
        final(sb)@.in_flight == old(sb)@.in_flight,
        (exists|i: int| reserved_slot(old(sb)@, rob_id, pbank_id, i)) ==> (exists|i: int|
            reserved_slot(old(sb)@, rob_id, pbank_id, i) && final(sb)@.writes
                == old(sb)@.writes.update(
                i,
                PendingRequest { rob_id, pbank_id, source, json_content },
            )),
        !(exists|i: int| reserved_slot(old(sb)@, rob_id, pbank_id, i)) ==> final(sb)@.writes
            == old(sb)@.writes.push(PendingRequest { rob_id, pbank_id, source, json_content }),
{
    let reserved = tag_reserved();
    let mut i: usize = 0;
    while i < sb.writes.len()
        invariant
            i <= sb.writes@.len(),
            sb@ == old(sb)@,
            reserved@ == reserved_source(),
            forall|j: int|
                0 <= j < i ==> !(#[trigger] sb.writes@[j].rob_id == rob_id
                    && sb.writes@[j].pbank_id == pbank_id && sb.writes@[j].source@
                    == reserved_source()),
        decreases sb.writes@.len() - i,
    {
        if sb.writes[i].rob_id == rob_id && sb.writes[i].pbank_id == pbank_id
            && sb.writes[i].source == reserved {
            assert(reserved_slot(old(sb)@, rob_id, pbank_id, i as int));
            sb.writes.set(i, PendingRequest { rob_id, pbank_id, source, json_content });
            return ;
        }
        i = i + 1;
    }
    assert(!(exists|i: int| reserved_slot(old(sb)@, rob_id, pbank_id, i)));
    sb.writes.push(PendingRequest { rob_id, pbank_id, source, json_content });
}

/// Records that `pbank_id` now serves the request of `rob_id`.
pub fn mark_in_flight(sb: &mut Scoreboard, pbank_id: u64, rob_id: u64)
    ensures
        final(sb)@ == (ScoreboardModel {
            in_flight: old(sb)@.in_flight.insert(pbank_id, rob_id),
            ..old(sb)@
        }),
{
    sb.in_flight.insert(pbank_id, rob_id);
}

/// Adds a read that must wait, at the end.
pub fn add_read_to_scoreboard(
    sb: &mut Scoreboard,
    rob_id: u64,
    pbank_id: u64,
    start_addr: u64,
    count: u64,
    source: String,
)
    ensures
        final(sb)@ == (ScoreboardModel {
            reads: old(sb)@.reads.push(
                PendingReadRequest { rob_id, pbank_id, start_addr, count, source },
            ),
            ..old(sb)@
        }),
{
    sb.reads.push(PendingReadRequest { rob_id, pbank_id, start_addr, count, source });
}

fn find_next_write(sb: &Scoreboard) -> (r: Option<usize>)
    ensures
        r is None ==> forall|i: int| !write_ready(sb@, i),
        r matches Some(b) ==> is_next_write(sb@, b as int),
{
    let mut best: Option<usize> = None;
    let mut i: usize = 0;
    while i < sb.writes.len()
        invariant
            i <= sb.writes@.len(),
            best is None ==> forall|j: int| 0 <= j < i ==> !write_ready(sb@, j),
            best matches Some(b) ==> {
                &&& b < i
                &&& write_ready(sb@, b as int)
                &&& forall|j: int|
                    0 <= j < i && write_ready(sb@, j) ==> sb@.writes[j].rob_id
                        > sb@.writes[b as int].rob_id || (sb@.writes[j].rob_id
                        == sb@.writes[b as int].rob_id && j >= b)
            },
        decreases sb.writes@.len() - i,
    {
        if !sb.in_flight.contains_key(&sb.writes[i].pbank_id) {
            match best {
                None => {
                    best = Some(i);
                },
                Some(b) => {
                    if sb.writes[i].rob_id < sb.writes[b].rob_id {
                        best = Some(i);
                    }
                },
            }
        }
        i = i + 1;
    }
    best
}

fn find_next_read(sb: &Scoreboard) -> (r: Option<usize>)
    ensures
        r is None ==> forall|i: int| !read_ready(sb@, i),
        r matches Some(b) ==> is_next_read(sb@, b as int),
{
    let mut best: Option<usize> = None;
    let mut i: usize = 0;
    while i < sb.reads.len()
        invariant
            i <= sb.reads@.len(),
            best is None ==> forall|j: int| 0 <= j < i ==> !read_ready(sb@, j),
            best matches Some(b) ==> {
                &&& b < i
                &&& read_ready(sb@, b as int)
                &&& forall|j: int|
                    0 <= j < i && read_ready(sb@, j) ==> sb@.reads[j].rob_id
                        > sb@.reads[b as int].rob_id || (sb@.reads[j].rob_id
                        == sb@.reads[b as int].rob_id && j >= b)
            },
        decreases sb.reads@.len() - i,
    {
        if !sb.in_flight.contains_key(&sb.reads[i].pbank_id) {
            match best {
                None => {
                    best = Some(i);
                },
                Some(b) => {
                    if sb.reads[i].rob_id < sb.reads[b].rob_id {
                        best = Some(i);
                    }
                },
            }
        }
        i = i + 1;
    }
    best
}

fn clone_write(r: &PendingRequest) -> (c: PendingRequest)
    ensures
        c == *r,
{
    PendingRequest {
        rob_id: r.rob_id,
        pbank_id: r.pbank_id,
        source: r.source.clone(),
        json_content: r.json_content.clone(),
    }
}

fn clone_read(r: &PendingReadRequest) -> (c: PendingReadRequest)
    ensures
        c == *r,
{
    PendingReadRequest {
        rob_id: r.rob_id,
        pbank_id: r.pbank_id,
        start_addr: r.start_addr,
        count: r.count,
        source: r.source.clone(),
    }
}

fn remove_writes(writes: &mut Vec<PendingRequest>, rob_id: u64, pbank_id: u64)
    ensures
        final(writes)@ == drop_writes(old(writes)@, rob_id, pbank_id),
{
    let mut kept: Vec<PendingRequest> = Vec::new();
    let mut i: usize = 0;
    while i < writes.len()
        invariant
            i <= writes@.len(),
            writes@ == old(writes)@,
            kept@ == writes@.take(i as int).filter(keep_write(rob_id, pbank_id)),
        decreases writes@.len() - i,
    {
        proof {
            lemma_filter_step(writes@, keep_write(rob_id, pbank_id), i as int);
            assert(keep_write(rob_id, pbank_id)(writes@[i as int]) == !(writes@[i as int].rob_id == rob_id
                && writes@[i as int].pbank_id == pbank_id));
        }
        if !(writes[i].rob_id == rob_id && writes[i].pbank_id == pbank_id) {
            kept.push(clone_write(&writes[i]));
        }
        i = i + 1;
    }
    assert(writes@.take(writes@.len() as int) =~= writes@);
    *writes = kept;
}

fn remove_reads(reads: &mut Vec<PendingReadRequest>, rob_id: u64, pbank_id: u64)
    ensures
        final(reads)@ == drop_reads(old(reads)@, rob_id, pbank_id),
{
    let mut kept: Vec<PendingReadRequest> = Vec::new();
    let mut i: usize = 0;
    while i < reads.len()
        invariant
            i <= reads@.len(),
            reads@ == old(reads)@,
            kept@ == reads@.take(i as int).filter(keep_read(rob_id, pbank_id)),
        decreases reads@.len() - i,
    {
        proof {
            lemma_filter_step(reads@, keep_read(rob_id, pbank_id), i as int);
            assert(keep_read(rob_id, pbank_id)(reads@[i as int]) == !(reads@[i as int].rob_id == rob_id
                && reads@[i as int].pbank_id == pbank_id));
        }
        if !(reads[i].rob_id == rob_id && reads[i].pbank_id == pbank_id) {
            kept.push(clone_read(&reads[i]));
        }
        i = i + 1;
    }
    assert(reads@.take(reads@.len() as int) =~= reads@);
    *reads = kept;
}

/// Hands out the oldest write that waits on a free bank (the first one
/// among equal ROB ids), as (rob_id, pbank_id, source, json_content), and
/// removes every waiting write of that ROB id on that bank; `None` when no
/// write waits on a free bank.
pub fn get_one_ready_request(sb: &mut Scoreboard) -> (r: Option<(u64, u64, String, String)>)
    ensures
        (final(sb)@, r) == take_write(old(sb)@),
        r is None <==> forall|i: int| !write_ready(old(sb)@, i),
{
    match find_next_write(sb) {
        None => {
            assert(!(exists|i: int| is_next_write(sb@, i)));
            None
        },
        Some(b) => {
            proof {
                let c = choose|i: int| is_next_write(sb@, i);
                lemma_next_write_unique(sb@, c, b as int);
            }
            let w = clone_write(&sb.writes[b]);
            remove_writes(&mut sb.writes, w.rob_id, w.pbank_id);
            Some((w.rob_id, w.pbank_id, w.source, w.json_content))
        },
    }
}

/// Hands out the oldest read that waits on a free bank (the first one among
/// equal ROB ids), as (rob_id, pbank_id, start_addr, count, source), and
/// removes every waiting read of that ROB id on that bank; `None` when no
/// read waits on a free bank.
pub fn get_one_ready_read_request(sb: &mut Scoreboard) -> (r: Option<
    (u64, u64, u64, u64, String),
>)
    ensures
        (final(sb)@, r) == take_read(old(sb)@),
        r is None <==> forall|i: int| !read_ready(old(sb)@, i),
{
    match find_next_read(sb) {
        None => {
            assert(!(exists|i: int| is_next_read(sb@, i)));
            None
        },
        Some(b) => {
            proof {
                let c = choose|i: int| is_next_read(sb@, i);
                lemma_next_read_unique(sb@, c, b as int);
            }
            let rd = clone_read(&sb.reads[b]);
            remove_reads(&mut sb.reads, rd.rob_id, rd.pbank_id);
            Some((rd.rob_id, rd.pbank_id, rd.start_addr, rd.count, rd.source))
        },
    }
}

/// Hands out every write that can go, one after the other, until none waits
/// on a free bank.
pub fn get_ready_requests(sb: &mut Scoreboard) -> (ready: Vec<(u64, u64, String, String)>)
    ensures
        ready@ == drain_writes(old(sb)@),
        final(sb)@ == drained_writes(old(sb)@),
        forall|i: int| !write_ready(final(sb)@, i),
{
    let mut ready: Vec<(u64, u64, String, String)> = Vec::new();
    loop
        invariant
            ready@ + drain_writes(sb@) == drain_writes(old(sb)@),
            drained_writes(sb@) == drained_writes(old(sb)@),
        decreases sb@.writes.len(),
    {
        let ghost before = sb@;
        match get_one_ready_request(sb) {
            None => {
                assert(drain_writes(before) =~= Seq::empty());
                assert(ready@ + Seq::empty() =~= ready@);
                return ready;
            },
            Some(t) => {
                proof {
                    let i = next_write(before)->Some_0;
                    lemma_filter_shorter(
                        before.writes,
                        keep_write(before.writes[i].rob_id, before.writes[i].pbank_id),
                        i,
                    );
                    assert(drain_writes(before) == seq![t] + drain_writes(sb@));
                    assert(drained_writes(before) == drained_writes(sb@));
                    assert(ready@.push(t) + drain_writes(sb@) =~= ready@ + (seq![t]
                        + drain_writes(sb@)));
                }
                ready.push(t);
            },
        }
    }
}

/// Hands out every read that can go, one after the other, until none waits
/// on a free bank.
pub fn get_ready_read_requests(sb: &mut Scoreboard) -> (ready: Vec<
    (u64, u64, u64, u64, String),
>)
    ensures
        ready@ == drain_reads(old(sb)@),
        final(sb)@ == drained_reads(old(sb)@),
        forall|i: int| !read_ready(final(sb)@, i),
{
    let mut ready: Vec<(u64, u64, u64, u64, String)> = Vec::new();
    loop
        invariant
            ready@ + drain_reads(sb@) == drain_reads(old(sb)@),
            drained_reads(sb@) == drained_reads(old(sb)@),
        decreases sb@.reads.len(),
    {
        let ghost before = sb@;
        match get_one_ready_read_request(sb) {
            None => {
                assert(drain_reads(before) =~= Seq::empty());
                assert(ready@ + Seq::empty() =~= ready@);
                return ready;
            },
            Some(t) => {
                proof {
                    let i = next_read(before)->Some_0;
                    lemma_filter_shorter(
                        before.reads,
                        keep_read(before.reads[i].rob_id, before.reads[i].pbank_id),
                        i,
                    );
                    assert(drain_reads(before) == seq![t] + drain_reads(sb@));
                    assert(drained_reads(before) == drained_reads(sb@));
                    assert(ready@.push(t) + drain_reads(sb@) =~= ready@ + (seq![t]
                        + drain_reads(sb@)));
                }
                ready.push(t);
            },
        }
    }
}

/// Frees `pbank_id`: it serves no request any more.
pub fn mark_completed(sb: &mut Scoreboard, pbank_id: u64)
    ensures
        final(sb)@ == (ScoreboardModel {
            in_flight: old(sb)@.in_flight.remove(pbank_id),
            ..old(sb)@
        }),
{
    sb.in_flight.remove(&pbank_id);
}

/// The table of busy banks is finite, so its size is a count.
pub proof fn lemma_in_flight_finite(sb: &Scoreboard)
    ensures
        sb@.in_flight.dom().finite(),
{
    broadcast use vstd::std_specs::hash::axiom_hashmap_view_finite_dom;
    assert(sb.in_flight@.dom().finite());
}

/// Marking bank `p` busy adds one to the busy count unless `p` was already
/// busy; marking it complete takes one off if it was busy.
pub proof fn lemma_in_flight_counts(m: ScoreboardModel, p: u64, rob_id: u64)
    requires
        m.in_flight.dom().finite(),
    ensures
        m.in_flight.insert(p, rob_id).len() == m.in_flight.len() + if m.in_flight.contains_key(p) {
            0int
        } else {
            1int
        },
        m.in_flight.remove(p).len() == m.in_flight.len() - if m.in_flight.contains_key(p) {
            1int
        } else {
            0int
        },
        m.in_flight.insert(p, rob_id).dom().finite(),
        m.in_flight.remove(p).dom().finite(),
{
    broadcast use vstd::set::group_set_axioms;
    assert(m.in_flight.insert(p, rob_id).dom() =~= m.in_flight.dom().insert(p));
    assert(m.in_flight.remove(p).dom() =~= m.in_flight.dom().remove(p));
}

/// Filtering keeps a sequence whose every element passes.
proof fn lemma_filter_keeps_all<A>(s: Seq<A>, pred: spec_fn(A) -> bool)
    requires
        forall|i: int| 0 <= i < s.len() ==> pred(#[trigger] s[i]),
    ensures
        s.filter(pred) == s,
    decreases s.len(),
{
    reveal(Seq::filter);
    if s.len() > 0 {
        assert forall|i: int| 0 <= i < s.drop_last().len() implies pred(#[trigger] s.drop_last()[i]) by {
            assert(s.drop_last()[i] == s[i]);
        }
        lemma_filter_keeps_all(s.drop_last(), pred);
        assert(pred(s[s.len() - 1]));
        assert(s.drop_last().push(s.last()) =~= s);
    }
}

/// A read added on a free bank, older than every read that may go, is the
/// next read handed out, and handing it out leaves the reads as they were
/// before it was added.
pub proof fn lemma_added_read_goes_next(m: ScoreboardModel, r: PendingReadRequest)
    requires
        !m.in_flight.contains_key(r.pbank_id),
        forall|i: int| #[trigger] read_ready(m, i) ==> m.reads[i].rob_id > r.rob_id,
    ensures
        ({
            let m2 = ScoreboardModel { reads: m.reads.push(r), ..m };
            &&& take_read(m2).1 == Some((r.rob_id, r.pbank_id, r.start_addr, r.count, r.source))
            &&& take_read(m2).0 == m
        }),
{
    let m2 = ScoreboardModel { reads: m.reads.push(r), ..m };
    let n = m.reads.len() as int;
    assert forall|j: int| #[trigger] read_ready(m2, j) implies m2.reads[j].rob_id > m2.reads[n].rob_id || (
    m2.reads[j].rob_id == m2.reads[n].rob_id && j >= n) by {
        if j < n {
            assert(read_ready(m, j));
        }
    }
    assert(is_next_read(m2, n));
    let i = choose|i: int| is_next_read(m2, i);
    if i != n {
        assert(read_ready(m, i));
        assert(read_ready(m2, n));
    }
    assert(next_read(m2) == Some(n));
    assert forall|k: int| 0 <= k < m.reads.len() implies (keep_read(r.rob_id, r.pbank_id))(#[trigger] m.reads[k]) by {
        if m.reads[k].pbank_id == r.pbank_id {
            assert(read_ready(m, k));
        }
    }
    lemma_filter_keeps_all(m.reads, keep_read(r.rob_id, r.pbank_id));
    assert(m2.reads.drop_last() =~= m.reads);
    reveal(Seq::filter);
    assert(!(keep_read(r.rob_id, r.pbank_id))(m2.reads.last()));
    assert(m2.reads.filter(keep_read(r.rob_id, r.pbank_id)) == m.reads.filter(keep_read(r.rob_id, r.pbank_id)));
    assert(drop_reads(m2.reads, r.rob_id, r.pbank_id) =~= m.reads);
}

/// Every read that `drain_reads` hands out was a read that could go: it
/// carries the ROB id of a read waiting on a free bank.
pub proof fn lemma_drain_reads_ready(m: ScoreboardModel)
    ensures
        forall|x: int|
            0 <= x < drain_reads(m).len() ==> exists|k: int|
                #[trigger] read_ready(m, k) && m.reads[k].rob_id == (#[trigger] drain_reads(m)[x]).0,
    decreases m.reads.len(),
{
    let (m2, r) = take_read(m);
    if let Some(t) = r {
        let i = next_read(m)->Some_0;
        assert(is_next_read(m, i));
        assert(read_ready(m, i) && m.reads[i].rob_id == t.0);
        if m2.reads.len() < m.reads.len() {
            lemma_drain_reads_ready(m2);
            assert(drain_reads(m) == seq![t] + drain_reads(m2));
            assert forall|x: int| 0 <= x < drain_reads(m).len() implies exists|k: int|
                #[trigger] read_ready(m, k) && m.reads[k].rob_id == (#[trigger] drain_reads(m)[x]).0 by {
                if x == 0 {
                    assert(read_ready(m, i) && m.reads[i].rob_id == drain_reads(m)[x].0);
                } else {
                    let e = drain_reads(m2)[x - 1];
                    assert(drain_reads(m)[x] == e);
                    let k2 = choose|k2: int| #[trigger] read_ready(m2, k2) && m2.reads[k2].rob_id == e.0;
                    let rd = m2.reads[k2];
                    assert(m2.reads.contains(rd));
                    m.reads.lemma_filter_contains_rev(keep_read(t.0, t.1), rd);
                    let k = choose|k: int| 0 <= k < m.reads.len() && m.reads[k] == rd;
                    assert(read_ready(m, k) && m.reads[k].rob_id == drain_reads(m)[x].0);
                }
            }
        } else {
            assert(drain_reads(m) == seq![t]);
        }
    }
}

/// The reads that `drain_reads` hands out come oldest first: their ROB ids
/// never decrease.
pub proof fn lemma_drain_reads_sorted(m: ScoreboardModel)
    ensures
        forall|x: int, y: int|
            0 <= x < y < drain_reads(m).len() ==> (#[trigger] drain_reads(m)[x]).0 <= (
            #[trigger] drain_reads(m)[y]).0,
    decreases m.reads.len(),
{
    let (m2, r) = take_read(m);
    if let Some(t) = r {
        let i = next_read(m)->Some_0;
        assert(is_next_read(m, i));
        if m2.reads.len() < m.reads.len() {
            lemma_drain_reads_sorted(m2);
            lemma_drain_reads_ready(m);
            assert(drain_reads(m) == seq![t] + drain_reads(m2));
            assert forall|x: int, y: int| 0 <= x < y < drain_reads(m).len() implies (
            #[trigger] drain_reads(m)[x]).0 <= (#[trigger] drain_reads(m)[y]).0 by {
                if x == 0 {
                    let k = choose|k: int| #[trigger] read_ready(m, k) && m.reads[k].rob_id == drain_reads(m)[y].0;
                    assert(read_ready(m, k));
                } else {
                    assert(drain_reads(m)[x] == drain_reads(m2)[x - 1]);
                    assert(drain_reads(m)[y] == drain_reads(m2)[y - 1]);
                }
            }
        } else {
            assert(drain_reads(m) == seq![t]);
        }
    }
}

/// Filtering out the one element that fails the predicate is removing it.
proof fn lemma_filter_removes_one<A>(s: Seq<A>, p: spec_fn(A) -> bool, i: int)
    requires
        0 <= i < s.len(),
        !p(s[i]),
        forall|k: int| 0 <= k < s.len() && k != i ==> p(#[trigger] s[k]),
    ensures
        s.filter(p) == s.remove(i),
    decreases s.len(),
{
    reveal(Seq::filter);
    if i == s.len() - 1 {
        assert forall|k: int| 0 <= k < s.drop_last().len() implies p(#[trigger] s.drop_last()[k]) by {
            assert(s.drop_last()[k] == s[k]);
        }
        lemma_filter_keeps_all(s.drop_last(), p);
        assert(s.remove(i) =~= s.drop_last());
    } else {
        let d = s.drop_last();
        assert forall|k: int| 0 <= k < d.len() && k != i implies p(#[trigger] d[k]) by {
            assert(d[k] == s[k]);
        }
        lemma_filter_removes_one(d, p, i);
        assert(p(s[s.len() - 1]));
        assert(d.remove(i).push(s.last()) =~= s.remove(i));
    }
}

/// Removing an element that fails the predicate leaves the filtered
/// sequence as it was.
proof fn lemma_filter_remove_failing<A>(s: Seq<A>, p: spec_fn(A) -> bool, i: int)
    requires
        0 <= i < s.len(),
        !p(s[i]),
    ensures
        s.remove(i).filter(p) == s.filter(p),
    decreases s.len(),
{
    reveal(Seq::filter);
    if i == s.len() - 1 {
        assert(s.remove(i) =~= s.drop_last());
    } else {
        let d = s.drop_last();
        lemma_filter_remove_failing(d, p, i);
        let r = s.remove(i);
        assert(r.drop_last() =~= d.remove(i));
        assert(r.last() == s.last());
    }
}

/// With no two waiting reads of one ROB id, taking the next read removes
/// exactly that read.
proof fn lemma_take_read_removes_one(m: ScoreboardModel)
    requires
        read_robs_distinct(m),
        take_read(m).1 is Some,
    ensures
        ({
            let i = next_read(m)->Some_0;
            &&& is_next_read(m, i)
            &&& take_read(m).1 == Some(read_tuple(m.reads[i]))
            &&& take_read(m).0 == ScoreboardModel { reads: m.reads.remove(i), ..m }
        }),
{
    let i = next_read(m)->Some_0;
    assert(is_next_read(m, i));
    let rd = m.reads[i];
    assert forall|k: int| 0 <= k < m.reads.len() && k != i implies (keep_read(rd.rob_id, rd.pbank_id))(
        #[trigger] m.reads[k]) by {
        assert(m.reads[k].rob_id != m.reads[i].rob_id);
    }
    lemma_filter_removes_one(m.reads, keep_read(rd.rob_id, rd.pbank_id), i);
}

/// With no two waiting writes of one ROB id, taking the next write removes
/// exactly that write.
proof fn lemma_take_write_removes_one(m: ScoreboardModel)
    requires
        write_robs_distinct(m),
        take_write(m).1 is Some,
    ensures
        ({
            let i = next_write(m)->Some_0;
            &&& is_next_write(m, i)
            &&& take_write(m).1 == Some(write_tuple(m.writes[i]))
            &&& take_write(m).0 == ScoreboardModel { writes: m.writes.remove(i), ..m }
        }),
{
    let i = next_write(m)->Some_0;
    assert(is_next_write(m, i));
    let w = m.writes[i];
    assert forall|k: int| 0 <= k < m.writes.len() && k != i implies (keep_write(w.rob_id, w.pbank_id))(
        #[trigger] m.writes[k]) by {
        assert(m.writes[k].rob_id != m.writes[i].rob_id);
    }
    lemma_filter_removes_one(m.writes, keep_write(w.rob_id, w.pbank_id), i);
}

/// Each of `d` is what a ready read of `m` hands out.
#[verifier::opaque]
pub open spec fn reads_sound(m: ScoreboardModel, d: Seq<(u64, u64, u64, u64, String)>) -> bool {
    forall|x: int|
        0 <= x < d.len() ==> exists|k: int| #[trigger] read_ready(m, k) && #[trigger] d[x] == read_tuple(m.reads[k])
}

/// What each ready read of `m` hands out is in `d`.
#[verifier::opaque]
pub open spec fn reads_complete(m: ScoreboardModel, d: Seq<(u64, u64, u64, u64, String)>) -> bool {
    forall|k: int|
        #[trigger] read_ready(m, k) ==> exists|x: int| 0 <= x < d.len() && #[trigger] d[x] == read_tuple(m.reads[k])
}

/// The ROB ids in `d` rise strictly, so nothing in `d` comes twice.
#[verifier::opaque]
pub open spec fn read_robs_rise(d: Seq<(u64, u64, u64, u64, String)>) -> bool {
    forall|x: int, y: int| 0 <= x < y < d.len() ==> (#[trigger] d[x]).0 < (#[trigger] d[y]).0
}

/// The reads of `m2` are those of `m` without read `i`, which is the next
/// read of `m`, and `d` is what it hands out followed by `d2`.
spec fn read_step(
    m: ScoreboardModel,
    m2: ScoreboardModel,
    i: int,
    d: Seq<(u64, u64, u64, u64, String)>,
    d2: Seq<(u64, u64, u64, u64, String)>,
) -> bool {
    &&& is_next_read(m, i)
    &&& read_robs_distinct(m)
    &&& m2 == ScoreboardModel { reads: m.reads.remove(i), ..m }
    &&& d == seq![read_tuple(m.reads[i])] + d2
}

proof fn lemma_read_step_sound(
    m: ScoreboardModel,
    m2: ScoreboardModel,
    i: int,
    d: Seq<(u64, u64, u64, u64, String)>,
    d2: Seq<(u64, u64, u64, u64, String)>,
)
    requires
        read_step(m, m2, i, d, d2),
        reads_sound(m2, d2),
    ensures
        reads_sound(m, d),
{
    reveal(reads_sound);
    assert forall|x: int| 0 <= x < d.len() implies exists|k: int|
        #[trigger] read_ready(m, k) && #[trigger] d[x] == read_tuple(m.reads[k]) by {
        if x == 0 {
            assert(read_ready(m, i) && d[x] == read_tuple(m.reads[i]));
        } else {
            assert(d[x] == d2[x - 1]);
            let k2 = choose|k2: int| #[trigger] read_ready(m2, k2) && d2[x - 1] == read_tuple(m2.reads[k2]);
            let k = if k2 < i { k2 } else { k2 + 1 };
            assert(m2.reads[k2] == m.reads[k]);
            assert(read_ready(m, k));
        }
    }
}

proof fn lemma_read_step_complete(
    m: ScoreboardModel,
    m2: ScoreboardModel,
    i: int,
    d: Seq<(u64, u64, u64, u64, String)>,
    d2: Seq<(u64, u64, u64, u64, String)>,
)
    requires
        read_step(m, m2, i, d, d2),
        reads_complete(m2, d2),
    ensures
        reads_complete(m, d),
{
    reveal(reads_complete);
    assert forall|k: int| #[trigger] read_ready(m, k) implies exists|x: int|
        0 <= x < d.len() && #[trigger] d[x] == read_tuple(m.reads[k]) by {
        if k == i {
            assert(d[0] == read_tuple(m.reads[k]));
        } else {
            let k2 = if k < i { k } else { k - 1 };
            assert(m2.reads[k2] == m.reads[k]);
            assert(read_ready(m2, k2));
            let x2 = choose|x2: int| 0 <= x2 < d2.len() && #[trigger] d2[x2] == read_tuple(m2.reads[k2]);
            assert(d[x2 + 1] == d2[x2]);
        }
    }
}

proof fn lemma_read_step_rises(
    m: ScoreboardModel,
    m2: ScoreboardModel,
    i: int,
    d: Seq<(u64, u64, u64, u64, String)>,
    d2: Seq<(u64, u64, u64, u64, String)>,
)
    requires
        read_step(m, m2, i, d, d2),
        reads_sound(m2, d2),
        read_robs_rise(d2),
    ensures
        read_robs_rise(d),
{
    reveal(reads_sound);
    reveal(read_robs_rise);
    assert forall|x: int, y: int| 0 <= x < y < d.len() implies (#[trigger] d[x]).0 < (#[trigger] d[y]).0 by {
        if x == 0 {
            assert(d[y] == d2[y - 1]);
            let k2 = choose|k2: int| #[trigger] read_ready(m2, k2) && d2[y - 1] == read_tuple(m2.reads[k2]);
            let k = if k2 < i { k2 } else { k2 + 1 };
            assert(m2.reads[k2] == m.reads[k]);
            assert(read_ready(m, k));
            assert(m.reads[k].rob_id != m.reads[i].rob_id);
        } else {
            assert(d[x] == d2[x - 1]);
            assert(d[y] == d2[y - 1]);
        }
    }
}

/// With no two waiting reads of one ROB id, handing out every read that can
/// go gives each read that waits on a free bank exactly once, in rising ROB
/// id order; the reads on busy banks stay, and the writes and the busy banks
/// are left as they were.
pub proof fn lemma_drain_reads_exact(m: ScoreboardModel)
    requires
        read_robs_distinct(m),
    ensures
        reads_sound(m, drain_reads(m)),
        reads_complete(m, drain_reads(m)),
        read_robs_rise(drain_reads(m)),
        drained_reads(m).reads == m.reads.filter(read_on_busy_bank(m.in_flight)),
        drained_reads(m).writes == m.writes,
        drained_reads(m).in_flight == m.in_flight,
    decreases m.reads.len(),
{
    let (m2, r) = take_read(m);
    let busy = read_on_busy_bank(m.in_flight);
    match r {
        None => {
            lemma_no_read_ready(m);
            reveal(reads_sound);
            reveal(reads_complete);
            reveal(read_robs_rise);
            assert(drain_reads(m) =~= Seq::empty());
        },
        Some(t) => {
            lemma_take_read_removes_one(m);
            let i = next_read(m)->Some_0;
            lemma_remove_read_keeps_distinct(m, i);
            lemma_drain_reads_exact(m2);
            let d = drain_reads(m);
            let d2 = drain_reads(m2);
            assert(d == seq![t] + d2);
            assert(drained_reads(m) == drained_reads(m2));
            assert(read_step(m, m2, i, d, d2));
            lemma_read_step_sound(m, m2, i, d, d2);
            lemma_read_step_complete(m, m2, i, d, d2);
            lemma_read_step_rises(m, m2, i, d, d2);
            lemma_filter_remove_failing(m.reads, busy, i);
        },
    }
}

/// When no read goes next, no read is ready: every read waits on a busy
/// bank.
proof fn lemma_no_read_ready(m: ScoreboardModel)
    requires
        next_read(m) is None,
    ensures
        forall|k: int| !read_ready(m, k),
        m.reads.filter(read_on_busy_bank(m.in_flight)) == m.reads,
{
    let busy = read_on_busy_bank(m.in_flight);
    assert forall|k: int| !read_ready(m, k) by {
        if read_ready(m, k) {
            lemma_some_read_is_next(m, k);
        }
    }
    assert forall|k: int| 0 <= k < m.reads.len() implies busy(#[trigger] m.reads[k]) by {
        assert(!read_ready(m, k));
    }
    lemma_filter_keeps_all(m.reads, busy);
}

/// Removing a read keeps the ROB ids of the reads distinct.
proof fn lemma_remove_read_keeps_distinct(m: ScoreboardModel, i: int)
    requires
        read_robs_distinct(m),
        0 <= i < m.reads.len(),
    ensures
        read_robs_distinct(ScoreboardModel { reads: m.reads.remove(i), ..m }),
{
    let m2 = ScoreboardModel { reads: m.reads.remove(i), ..m };
    assert forall|a: int, b: int|
        0 <= a < m2.reads.len() && 0 <= b < m2.reads.len() && a != b implies #[trigger] m2.reads[a].rob_id
            != #[trigger] m2.reads[b].rob_id by {
        let a2 = if a < i { a } else { a + 1 };
        let b2 = if b < i { b } else { b + 1 };
        assert(m2.reads[a] == m.reads[a2]);
        assert(m2.reads[b] == m.reads[b2]);
    }
}

/// Read `j` does not come before read `i`.
spec fn read_not_before(m: ScoreboardModel, i: int, j: int) -> bool {
    m.reads[j].rob_id > m.reads[i].rob_id || (m.reads[j].rob_id == m.reads[i].rob_id && j >= i)
}

/// Read `i` is the first ready read among those before `n`.
spec fn first_ready_read_below(m: ScoreboardModel, i: int, n: int) -> bool {
    &&& 0 <= i < n
    &&& read_ready(m, i)
    &&& forall|j: int| 0 <= j < n && #[trigger] read_ready(m, j) ==> read_not_before(m, i, j)
}

/// Among the ready reads before `n`, one comes first.
proof fn lemma_first_ready_read(m: ScoreboardModel, n: int)
    requires
        0 <= n <= m.reads.len(),
        exists|k: int| 0 <= k < n && #[trigger] read_ready(m, k),
    ensures
        exists|i: int| #[trigger] first_ready_read_below(m, i, n),
    decreases n,
{
    let last = n - 1;
    if exists|k: int| 0 <= k < last && #[trigger] read_ready(m, k) {
        lemma_first_ready_read(m, last);
        let i = choose|i: int| #[trigger] first_ready_read_below(m, i, last);
        if read_ready(m, last) && m.reads[last].rob_id < m.reads[i].rob_id {
            assert forall|j: int| 0 <= j < n && #[trigger] read_ready(m, j) implies read_not_before(m, last, j) by {
                if j < last {
                    assert(read_not_before(m, i, j));
                }
            }
            assert(first_ready_read_below(m, last, n));
        } else {
            assert forall|j: int| 0 <= j < n && #[trigger] read_ready(m, j) implies read_not_before(m, i, j) by {
                if j < last {
                    assert(read_not_before(m, i, j));
                }
            }
            assert(first_ready_read_below(m, i, n));
        }
    } else {
        let k = choose|k: int| 0 <= k < n && #[trigger] read_ready(m, k);
        assert(k == last);
        assert forall|j: int| 0 <= j < n && #[trigger] read_ready(m, j) implies read_not_before(m, last, j) by {
            if j < last {
                assert(!read_ready(m, j));
            }
        }
        assert(first_ready_read_below(m, last, n));
    }
}

/// A ready read means some read goes next.
proof fn lemma_some_read_is_next(m: ScoreboardModel, k: int)
    requires
        read_ready(m, k),
    ensures
        exists|i: int| is_next_read(m, i),
{
    let n = m.reads.len() as int;
    assert(0 <= k < n && read_ready(m, k));
    lemma_first_ready_read(m, n);
    let i = choose|i: int| #[trigger] first_ready_read_below(m, i, n);
    assert forall|j: int| #[trigger] read_ready(m, j) implies m.reads[j].rob_id > m.reads[i].rob_id || (
    m.reads[j].rob_id == m.reads[i].rob_id && j >= i) by {
        assert(read_not_before(m, i, j));
    }
    assert(is_next_read(m, i));
}

/// Each of `d` is what a ready write of `m` hands out.
#[verifier::opaque]
pub open spec fn writes_sound(m: ScoreboardModel, d: Seq<(u64, u64, String, String)>) -> bool {
    forall|x: int|
        0 <= x < d.len() ==> exists|k: int| #[trigger] write_ready(m, k) && #[trigger] d[x] == write_tuple(m.writes[k])
}

/// What each ready write of `m` hands out is in `d`.
#[verifier::opaque]
pub open spec fn writes_complete(m: ScoreboardModel, d: Seq<(u64, u64, String, String)>) -> bool {
    forall|k: int|
        #[trigger] write_ready(m, k) ==> exists|x: int| 0 <= x < d.len() && #[trigger] d[x] == write_tuple(m.writes[k])
}

/// The ROB ids in `d` rise strictly, so nothing in `d` comes twice.
#[verifier::opaque]
pub open spec fn write_robs_rise(d: Seq<(u64, u64, String, String)>) -> bool {
    forall|x: int, y: int| 0 <= x < y < d.len() ==> (#[trigger] d[x]).0 < (#[trigger] d[y]).0
}

/// The writes of `m2` are those of `m` without write `i`, which is the next
/// write of `m`, and `d` is what it hands out followed by `d2`.
spec fn write_step(
    m: ScoreboardModel,
    m2: ScoreboardModel,
    i: int,
    d: Seq<(u64, u64, String, String)>,
    d2: Seq<(u64, u64, String, String)>,
) -> bool {
    &&& is_next_write(m, i)
    &&& write_robs_distinct(m)
    &&& m2 == ScoreboardModel { writes: m.writes.remove(i), ..m }
    &&& d == seq![write_tuple(m.writes[i])] + d2
}

proof fn lemma_write_step_sound(
    m: ScoreboardModel,
    m2: ScoreboardModel,
    i: int,
    d: Seq<(u64, u64, String, String)>,
    d2: Seq<(u64, u64, String, String)>,
)
    requires
        write_step(m, m2, i, d, d2),
        writes_sound(m2, d2),
    ensures
        writes_sound(m, d),
{
    reveal(writes_sound);
    assert forall|x: int| 0 <= x < d.len() implies exists|k: int|
        #[trigger] write_ready(m, k) && #[trigger] d[x] == write_tuple(m.writes[k]) by {
        if x == 0 {
            assert(write_ready(m, i) && d[x] == write_tuple(m.writes[i]));
        } else {
            assert(d[x] == d2[x - 1]);
            let k2 = choose|k2: int| #[trigger] write_ready(m2, k2) && d2[x - 1] == write_tuple(m2.writes[k2]);
            let k = if k2 < i { k2 } else { k2 + 1 };
            assert(m2.writes[k2] == m.writes[k]);
            assert(write_ready(m, k));
        }
    }
}

proof fn lemma_write_step_complete(
    m: ScoreboardModel,
    m2: ScoreboardModel,
    i: int,
    d: Seq<(u64, u64, String, String)>,
    d2: Seq<(u64, u64, String, String)>,
)
    requires
        write_step(m, m2, i, d, d2),
        writes_complete(m2, d2),
    ensures
        writes_complete(m, d),
{
    reveal(writes_complete);
    assert forall|k: int| #[trigger] write_ready(m, k) implies exists|x: int|
        0 <= x < d.len() && #[trigger] d[x] == write_tuple(m.writes[k]) by {
        if k == i {
            assert(d[0] == write_tuple(m.writes[k]));
        } else {
            let k2 = if k < i { k } else { k - 1 };
            assert(m2.writes[k2] == m.writes[k]);
            assert(write_ready(m2, k2));
            let x2 = choose|x2: int| 0 <= x2 < d2.len() && #[trigger] d2[x2] == write_tuple(m2.writes[k2]);
            assert(d[x2 + 1] == d2[x2]);
        }
    }
}

proof fn lemma_write_step_rises(
    m: ScoreboardModel,
    m2: ScoreboardModel,
    i: int,
    d: Seq<(u64, u64, String, String)>,
    d2: Seq<(u64, u64, String, String)>,
)
    requires
        write_step(m, m2, i, d, d2),
        writes_sound(m2, d2),
        write_robs_rise(d2),
    ensures
        write_robs_rise(d),
{
    reveal(writes_sound);
    reveal(write_robs_rise);
    assert forall|x: int, y: int| 0 <= x < y < d.len() implies (#[trigger] d[x]).0 < (#[trigger] d[y]).0 by {
        if x == 0 {
            assert(d[y] == d2[y - 1]);
            let k2 = choose|k2: int| #[trigger] write_ready(m2, k2) && d2[y - 1] == write_tuple(m2.writes[k2]);
            let k = if k2 < i { k2 } else { k2 + 1 };
            assert(m2.writes[k2] == m.writes[k]);
            assert(write_ready(m, k));
            assert(m.writes[k].rob_id != m.writes[i].rob_id);
        } else {
            assert(d[x] == d2[x - 1]);
            assert(d[y] == d2[y - 1]);
        }
    }
}

/// With no two waiting writes of one ROB id, handing out every write that can
/// go gives each write that waits on a free bank exactly once, in rising ROB
/// id order; the writes on busy banks stay, and the reads and the busy banks
/// are left as they were.
pub proof fn lemma_drain_writes_exact(m: ScoreboardModel)
    requires
        write_robs_distinct(m),
    ensures
        writes_sound(m, drain_writes(m)),
        writes_complete(m, drain_writes(m)),
        write_robs_rise(drain_writes(m)),
        drained_writes(m).writes == m.writes.filter(write_on_busy_bank(m.in_flight)),
        drained_writes(m).reads == m.reads,
        drained_writes(m).in_flight == m.in_flight,
    decreases m.writes.len(),
{
    let (m2, r) = take_write(m);
    let busy = write_on_busy_bank(m.in_flight);
    match r {
        None => {
            lemma_no_write_ready(m);
            reveal(writes_sound);
            reveal(writes_complete);
            reveal(write_robs_rise);
            assert(drain_writes(m) =~= Seq::empty());
        },
        Some(t) => {
            lemma_take_write_removes_one(m);
            let i = next_write(m)->Some_0;
            lemma_remove_write_keeps_distinct(m, i);
            lemma_drain_writes_exact(m2);
            let d = drain_writes(m);
            let d2 = drain_writes(m2);
            assert(d == seq![t] + d2);
            assert(drained_writes(m) == drained_writes(m2));
            assert(write_step(m, m2, i, d, d2));
            lemma_write_step_sound(m, m2, i, d, d2);
            lemma_write_step_complete(m, m2, i, d, d2);
            lemma_write_step_rises(m, m2, i, d, d2);
            lemma_filter_remove_failing(m.writes, busy, i);
        },
    }
}

/// When no write goes next, no write is ready: every write waits on a busy
/// bank.
proof fn lemma_no_write_ready(m: ScoreboardModel)
    requires
        next_write(m) is None,
    ensures
        forall|k: int| !write_ready(m, k),
        m.writes.filter(write_on_busy_bank(m.in_flight)) == m.writes,
{
    let busy = write_on_busy_bank(m.in_flight);
    assert forall|k: int| !write_ready(m, k) by {
        if write_ready(m, k) {
            lemma_some_write_is_next(m, k);
        }
    }
    assert forall|k: int| 0 <= k < m.writes.len() implies busy(#[trigger] m.writes[k]) by {
        assert(!write_ready(m, k));
    }
    lemma_filter_keeps_all(m.writes, busy);
}

/// Removing a write keeps the ROB ids of the writes distinct.
proof fn lemma_remove_write_keeps_distinct(m: ScoreboardModel, i: int)
    requires
        write_robs_distinct(m),
        0 <= i < m.writes.len(),
    ensures
        write_robs_distinct(ScoreboardModel { writes: m.writes.remove(i), ..m }),
{
    let m2 = ScoreboardModel { writes: m.writes.remove(i), ..m };
    assert forall|a: int, b: int|
        0 <= a < m2.writes.len() && 0 <= b < m2.writes.len() && a != b implies #[trigger] m2.writes[a].rob_id
            != #[trigger] m2.writes[b].rob_id by {
        let a2 = if a < i { a } else { a + 1 };
        let b2 = if b < i { b } else { b + 1 };
        assert(m2.writes[a] == m.writes[a2]);
        assert(m2.writes[b] == m.writes[b2]);
    }
}

/// Write `j` does not come before write `i`.
spec fn write_not_before(m: ScoreboardModel, i: int, j: int) -> bool {
    m.writes[j].rob_id > m.writes[i].rob_id || (m.writes[j].rob_id == m.writes[i].rob_id && j >= i)
}

/// Write `i` is the first ready write among those before `n`.
spec fn first_ready_write_below(m: ScoreboardModel, i: int, n: int) -> bool {
    &&& 0 <= i < n
    &&& write_ready(m, i)
    &&& forall|j: int| 0 <= j < n && #[trigger] write_ready(m, j) ==> write_not_before(m, i, j)
}

/// Among the ready writes before `n`, one comes first.
proof fn lemma_first_ready_write(m: ScoreboardModel, n: int)
    requires
        0 <= n <= m.writes.len(),
        exists|k: int| 0 <= k < n && #[trigger] write_ready(m, k),
    ensures
        exists|i: int| #[trigger] first_ready_write_below(m, i, n),
    decreases n,
{
    let last = n - 1;
    if exists|k: int| 0 <= k < last && #[trigger] write_ready(m, k) {
        lemma_first_ready_write(m, last);
        let i = choose|i: int| #[trigger] first_ready_write_below(m, i, last);
        if write_ready(m, last) && m.writes[last].rob_id < m.writes[i].rob_id {
            assert forall|j: int| 0 <= j < n && #[trigger] write_ready(m, j) implies write_not_before(m, last, j) by {
                if j < last {
                    assert(write_not_before(m, i, j));
                }
            }
            assert(first_ready_write_below(m, last, n));
        } else {
            assert forall|j: int| 0 <= j < n && #[trigger] write_ready(m, j) implies write_not_before(m, i, j) by {
                if j < last {
                    assert(write_not_before(m, i, j));
                }
            }
            assert(first_ready_write_below(m, i, n));
        }
    } else {
        let k = choose|k: int| 0 <= k < n && #[trigger] write_ready(m, k);
        assert(k == last);
        assert forall|j: int| 0 <= j < n && #[trigger] write_ready(m, j) implies write_not_before(m, last, j) by {
            if j < last {
                assert(!write_ready(m, j));
            }
        }
        assert(first_ready_write_below(m, last, n));
    }
}

/// A ready write means some write goes next.
proof fn lemma_some_write_is_next(m: ScoreboardModel, k: int)
    requires
        write_ready(m, k),
    ensures
        exists|i: int| is_next_write(m, i),
{
    let n = m.writes.len() as int;
    assert(0 <= k < n && write_ready(m, k));
    lemma_first_ready_write(m, n);
    let i = choose|i: int| #[trigger] first_ready_write_below(m, i, n);
    assert forall|j: int| #[trigger] write_ready(m, j) implies m.writes[j].rob_id > m.writes[i].rob_id || (
    m.writes[j].rob_id == m.writes[i].rob_id && j >= i) by {
        assert(write_not_before(m, i, j));
    }
    assert(is_next_write(m, i));
}

/// Number of waiting writes.
pub fn get_pending_count(sb: &Scoreboard) -> (n: usize)
    ensures
        n == sb@.writes.len(),
{
    sb.writes.len()
}

/// Number of waiting reads.
pub fn get_pending_read_count(sb: &Scoreboard) -> (n: usize)
    ensures
        n == sb@.reads.len(),
{
    sb.reads.len()
}

/// Number of busy banks.
pub fn get_in_flight_count(sb: &Scoreboard) -> (n: usize)
    ensures
        n == sb@.in_flight.len(),
{
    sb.in_flight.len()
}

/// No write or read waits and no bank is busy.
pub fn is_all_memory_complete(sb: &Scoreboard) -> (r: bool)
    ensures
        r == (sb@.writes.len() == 0 && sb@.reads.len() == 0 && sb@.in_flight.len() == 0),
{
    get_pending_count(sb) == 0 && get_pending_read_count(sb) == 0 && get_in_flight_count(sb)
        == 0
}

// ---------------------------------------------------------------------------
// Laws
// ---------------------------------------------------------------------------

/// Once a write of `rob_id` waits on `pbank_id` (reserved or added), every
/// younger request on that bank must wait.
pub proof fn lemma_waiting_write_blocks_younger(
    m: ScoreboardModel,
    i: int,
    younger: u64,
)
    requires
        0 <= i < m.writes.len(),
        m.writes[i].rob_id < younger,
    ensures
        !may_proceed(m, m.writes[i].pbank_id, younger),
{
    assert(m.writes[i].pbank_id == m.writes[i].pbank_id);
}

/// While a bank serves the request of `rob_id`, every younger request on that
/// bank must wait; once the bank is marked complete, only the waiting writes
/// can hold a request back.
pub proof fn lemma_in_flight_blocks_until_completed(
    m: ScoreboardModel,
    pbank_id: u64,
    rob_id: u64,
    younger: u64,
)
    requires
        rob_id < younger,
    ensures
        !may_proceed(
            ScoreboardModel { in_flight: m.in_flight.insert(pbank_id, rob_id), ..m },
            pbank_id,
            younger,
        ),
        may_proceed(
            ScoreboardModel { in_flight: m.in_flight.remove(pbank_id), ..m },
            pbank_id,
            younger,
        ) == !(exists|i: int|
            0 <= i < m.writes.len() && #[trigger] m.writes[i].pbank_id == pbank_id
                && m.writes[i].rob_id < younger),
{
    let m2 = ScoreboardModel { in_flight: m.in_flight.remove(pbank_id), ..m };
    assert(m2.writes == m.writes);
    assert(!m2.in_flight.contains_key(pbank_id));
    let m1 = ScoreboardModel { in_flight: m.in_flight.insert(pbank_id, rob_id), ..m };
    assert(m1.in_flight.contains_key(pbank_id) && m1.in_flight[pbank_id] == rob_id);
}

/// A write handed out by the scoreboard leaves no other write of the same
/// ROB id on the same bank behind, and no ready write is older than it.
pub proof fn lemma_take_write_is_oldest(m: ScoreboardModel)
    requires
        take_write(m).1 is Some,
    ensures
        ({
            let t = take_write(m).1->Some_0;
            &&& !m.in_flight.contains_key(t.1)
            &&& forall|j: int| #[trigger] write_ready(m, j) ==> m.writes[j].rob_id >= t.0
            &&& forall|k: int|
                0 <= k < take_write(m).0.writes.len() ==> !(#[trigger] take_write(
                    m,
                ).0.writes[k].rob_id == t.0 && take_write(m).0.writes[k].pbank_id == t.1)
        }),
{
    let i = next_write(m)->Some_0;
    assert(exists|i: int| is_next_write(m, i));
    let t = take_write(m).1->Some_0;
    let rest = take_write(m).0.writes;
    assert forall|k: int| 0 <= k < rest.len() implies !(#[trigger] rest[k].rob_id == t.0
        && rest[k].pbank_id == t.1) by {
        m.writes.lemma_filter_pred(keep_write(t.0, t.1), k);
    }
}

} // verus!
