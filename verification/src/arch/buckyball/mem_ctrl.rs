//! The memory controller: it maps virtual banks to physical ones, orders
//! bank requests through the scoreboard, forwards writes to the banks one
//! per cycle and routes read data back to the unit that asked.
use crate::arch::buckyball::bank::{
    read_request,
    request_read_bank,
    request_write_bank,
    write_request,
    BankStore,
    BankStoreModel,
};
use crate::arch::buckyball::scoreboard::{
    add_read_to_scoreboard,
    add_to_scoreboard,
    check_dependency,
    empty_model,
    get_one_ready_read_request,
    get_one_ready_request,
    get_pending_count,
    init_scoreboard,
    mark_completed,
    mark_in_flight,
    may_proceed,
    reserved_slot,
    take_read,
    take_write,
    PendingReadRequest,
    PendingRequest,
    Scoreboard,
    ScoreboardModel,
};
use crate::buckyball::bmt::{bmt_wf, get_pbank_ids, BankMapTable, BmtModel};
use crate::message::{decode_write_request, decode_words, json_write_request, json_words, MessageError};
use vstd::prelude::*;

verus! {

/// The name of the DMA unit as a request source.
pub open spec fn tdma_source() -> Seq<char> {
    seq!['t', 'd', 'm', 'a']
}

/// The name of the vector unit as a request source.
pub open spec fn vecball_source() -> Seq<char> {
    seq!['v', 'e', 'c', 'b', 'a', 'l', 'l']
}

/// The DMA unit's source name.
pub fn tdma_tag() -> (s: String)
    ensures
        s@ == tdma_source(),
{
    let s = "tdma".to_string();
    proof {
        reveal_strlit("tdma");
    }
    assert(s@ =~= tdma_source());
    s
}

/// The vector unit's source name.
pub fn vecball_tag() -> (s: String)
    ensures
        s@ == vecball_source(),
{
    let s = "vecball".to_string();
    proof {
        reveal_strlit("vecball");
    }
    assert(s@ =~= vecball_source());
    s
}

/// The physical bank that serves `vbank_id`: the first of its physical
/// banks, or the same number when it has none.
pub open spec fn pbank_of(m: BmtModel, vbank_id: u64) -> u64 {
    if m.vbank_to_pbanks.contains_key(vbank_id) && m.vbank_to_pbanks[vbank_id].len() > 0 {
        m.vbank_to_pbanks[vbank_id][0]
    } else {
        vbank_id
    }
}

/// The physical bank that serves `vbank_id`.
pub fn resolve_pbank(bmt: &BankMapTable, vbank_id: u64) -> (p: u64)
    ensures
        p == pbank_of(bmt@, vbank_id),
{
    match get_pbank_ids(bmt, vbank_id) {
        Some(pbank_ids) => {
            if pbank_ids.len() == 0 {
                vbank_id
            } else {
                pbank_ids[0]
            }
        },
        None => vbank_id,
    }
}

/// Every waiting read stays within the 64-bit address space.
pub open spec fn reads_fit(m: ScoreboardModel) -> bool {
    forall|i: int| 0 <= i < m.reads.len() ==> #[trigger] m.reads[i].start_addr + m.reads[i].count <= u64::MAX + 1
}

/// The memory system the units share: the bank map, the scoreboard, the
/// banks, the sources of the reads sent to the banks, and the read data
/// that waits to be forwarded.
pub struct MemSystem {
    pub bmt: BankMapTable,
    pub scoreboard: Scoreboard,
    pub banks: BankStore,
    /// The source of each read sent to the banks, in order of sending.
    pub read_sources: Vec<String>,
    /// Read data with its source, waiting to be forwarded.
    pub read_responses: Vec<(String, Vec<u128>)>,
}

impl MemSystem {
    /// The system is consistent: a consistent bank map and waiting reads
    /// within the address space.
    pub open spec fn wf(&self) -> bool {
        &&& bmt_wf(self.bmt@)
        &&& reads_fit(self.scoreboard@)
    }

    /// A system over the bank map `bmt`, with an empty scoreboard, no bank
    /// and nothing queued.
    pub fn new(bmt: BankMapTable) -> (s: Self)
        requires
            bmt_wf(bmt@),
        ensures
            s.wf(),
            s.bmt@ == bmt@,
            s.scoreboard@ == empty_model(),
            s.banks@.banks.len() == 0,
            s.banks@.responses.len() == 0,
            s.read_sources@.len() == 0,
            s.read_responses@.len() == 0,
    {
        MemSystem {
            bmt,
            scoreboard: Scoreboard::new(),
            banks: BankStore::new(),
            read_sources: Vec::new(),
            read_responses: Vec::new(),
        }
    }
}

/// Taking a read out of the scoreboard keeps the waiting reads within the
/// address space.
proof fn lemma_take_read_fits(m: ScoreboardModel)
    requires
        reads_fit(m),
    ensures
        reads_fit(take_read(m).0),
{
    match crate::arch::buckyball::scoreboard::next_read(m) {
        None => {},
        Some(i) => {
            let r = m.reads[i];
            let p = crate::arch::buckyball::scoreboard::keep_read(r.rob_id, r.pbank_id);
            let f = m.reads.filter(p);
            assert forall|k: int| 0 <= k < f.len() implies #[trigger] f[k].start_addr + f[k].count
                <= u64::MAX + 1 by {
                assert(f.contains(f[k]));
                m.reads.lemma_filter_contains_rev(p, f[k]);
                let j = choose|j: int| 0 <= j < m.reads.len() && m.reads[j] == f[k];
                assert(m.reads[j].start_addr + m.reads[j].count <= u64::MAX + 1);
            }
        },
    }
}

/// What a read of `count` words of `vbank_id` from `start_addr`, for
/// `rob_id`, does to the system: when no older request holds its physical
/// bank the read goes to the bank and its source is recorded; otherwise it
/// waits in the scoreboard.
pub open spec fn read_for(
    old_sys: MemSystem,
    new_sys: MemSystem,
    source: Seq<char>,
    vbank_id: u64,
    start_addr: u64,
    count: u64,
    rob_id: u64,
) -> bool {
    let p = pbank_of(old_sys.bmt@, vbank_id);
    &&& new_sys.bmt@ == old_sys.bmt@
    &&& new_sys.read_responses@ == old_sys.read_responses@
    &&& may_proceed(old_sys.scoreboard@, p, rob_id) ==> {
        &&& new_sys.scoreboard@ == old_sys.scoreboard@
        &&& new_sys.read_sources@.len() == old_sys.read_sources@.len() + 1
        &&& new_sys.read_sources@.drop_last() == old_sys.read_sources@
        &&& new_sys.read_sources@.last()@ == source
        &&& new_sys.banks@ == read_request(old_sys.banks@, p, start_addr, count)
    }
    &&& !may_proceed(old_sys.scoreboard@, p, rob_id) ==> {
        let reads = new_sys.scoreboard@.reads;
        &&& new_sys.scoreboard@.writes == old_sys.scoreboard@.writes
        &&& new_sys.scoreboard@.in_flight == old_sys.scoreboard@.in_flight
        &&& reads.len() == old_sys.scoreboard@.reads.len() + 1
        &&& reads.drop_last() == old_sys.scoreboard@.reads
        &&& reads.last().rob_id == rob_id
        &&& reads.last().pbank_id == p
        &&& reads.last().start_addr == start_addr
        &&& reads.last().count == count
        &&& reads.last().source@ == source
        &&& new_sys.read_sources@ == old_sys.read_sources@
        &&& new_sys.banks@ == old_sys.banks@
    }
}

fn request_read_for(
    sys: &mut MemSystem,
    source: String,
    vbank_id: u64,
    start_addr: u64,
    count: u64,
    rob_id: u64,
)
    requires
        old(sys).wf(),
        start_addr + count <= u64::MAX + 1,
    ensures
        final(sys).wf(),
        read_for(*old(sys), *final(sys), source@, vbank_id, start_addr, count, rob_id),
{
    let pbank_id = resolve_pbank(&sys.bmt, vbank_id);
    if check_dependency(&sys.scoreboard, pbank_id, rob_id) {
        sys.read_sources.push(source);
        request_read_bank(&mut sys.banks, pbank_id, start_addr, count);
        assert(sys.read_sources@.drop_last() =~= old(sys).read_sources@);
    } else {
        let ghost s = source@;
        add_read_to_scoreboard(&mut sys.scoreboard, rob_id, pbank_id, start_addr, count, source);
        assert(sys.scoreboard@.reads.drop_last() =~= old(sys).scoreboard@.reads);
        assert forall|i: int| 0 <= i < sys.scoreboard@.reads.len() implies #[trigger] sys.scoreboard@.reads[i].start_addr
            + sys.scoreboard@.reads[i].count <= u64::MAX + 1 by {
            if i < old(sys).scoreboard@.reads.len() {
                assert(sys.scoreboard@.reads[i] == old(sys).scoreboard@.reads[i]);
            }
        }
    }
}

/// A bank read for the DMA unit, ordered through the scoreboard.
pub fn request_read_bank_for_tdma(sys: &mut MemSystem, vbank_id: u64, start_addr: u64, count: u64, rob_id: u64)
    requires
        old(sys).wf(),
        start_addr + count <= u64::MAX + 1,
    ensures
        final(sys).wf(),
        read_for(*old(sys), *final(sys), tdma_source(), vbank_id, start_addr, count, rob_id),
{
    request_read_for(sys, tdma_tag(), vbank_id, start_addr, count, rob_id);
}

/// A bank read for the vector unit, ordered through the scoreboard.
pub fn request_read_bank_for_vecball(sys: &mut MemSystem, vbank_id: u64, start_addr: u64, count: u64, rob_id: u64)
    requires
        old(sys).wf(),
        start_addr + count <= u64::MAX + 1,
    ensures
        final(sys).wf(),
        read_for(*old(sys), *final(sys), vecball_source(), vbank_id, start_addr, count, rob_id),
{
    request_read_for(sys, vecball_tag(), vbank_id, start_addr, count, rob_id);
}

/// A direct bank write for the DMA unit: bank `vbank_id` is written as it
/// is numbered, with no mapping and no ordering.
pub fn request_write_bank_for_tdma(sys: &mut MemSystem, vbank_id: u64, start_addr: u64, data_vec: Vec<u128>) -> (r: bool)
    requires
        vbank_id < old(sys).banks@.banks.len() ==> start_addr + data_vec@.len() <= u64::MAX + 1,
    ensures
        r == (vbank_id < old(sys).banks@.banks.len()),
        final(sys).banks@ == write_request(old(sys).banks@, vbank_id, start_addr, data_vec@),
        final(sys).bmt@ == old(sys).bmt@,
        final(sys).scoreboard@ == old(sys).scoreboard@,
        final(sys).read_sources@ == old(sys).read_sources@,
        final(sys).read_responses@ == old(sys).read_responses@,
{
    request_write_bank(&mut sys.banks, vbank_id, start_addr, data_vec)
}

/// A direct bank write for the vector unit, as for the DMA unit.
pub fn request_write_bank_for_vecball(sys: &mut MemSystem, vbank_id: u64, start_addr: u64, data_vec: Vec<u128>) -> (r: bool)
    requires
        vbank_id < old(sys).banks@.banks.len() ==> start_addr + data_vec@.len() <= u64::MAX + 1,
    ensures
        r == (vbank_id < old(sys).banks@.banks.len()),
        final(sys).banks@ == write_request(old(sys).banks@, vbank_id, start_addr, data_vec@),
        final(sys).bmt@ == old(sys).bmt@,
        final(sys).scoreboard@ == old(sys).scoreboard@,
        final(sys).read_sources@ == old(sys).read_sources@,
        final(sys).read_responses@ == old(sys).read_responses@,
{
    request_write_bank(&mut sys.banks, vbank_id, start_addr, data_vec)
}

// ---------------------------------------------------------------------------
// The controller's cycle
// ---------------------------------------------------------------------------

/// A write the controller sends to the banks.
pub struct BankWrite {
    pub source: String,
    pub rob_id: u64,
    pub vbank_id: u64,
    pub pbank_id: u64,
    pub start_addr: u64,
    pub data: Vec<u64>,
}

/// What one cycle of the controller sends.
pub struct MemCtrlStep {
    /// Read data for the unit named, when some waited.
    pub read_response: Option<(String, Vec<u128>)>,
    /// A write for the banks.
    pub bank_write: Option<BankWrite>,
    /// Whether work remains for a later cycle.
    pub busy: bool,
}

/// The memory controller: its ports and the writes that may go to the
/// banks, oldest first, each with its source and its body.
#[derive(Clone)]
pub struct MemController {
    pub tdma_write_req_port: String,
    pub vball_write_req_port: String,
    pub bank_write_req_port: String,
    pub tdma_read_resp_port: String,
    pub vball_read_resp_port: String,
    pub bank_read_resp_port: String,
    write_request_queue: Vec<(String, String)>,
}

/// A write request that waits in the scoreboard, as the scoreboard takes
/// it: it fills the first reservation of its ROB id on its bank, or joins
/// the end.
pub open spec fn scoreboard_add(m: ScoreboardModel, n: ScoreboardModel, req: PendingRequest) -> bool {
    &&& n.reads == m.reads
    &&& n.in_flight == m.in_flight
    &&& (exists|i: int| reserved_slot(m, req.rob_id, req.pbank_id, i)) ==> (exists|i: int|
        reserved_slot(m, req.rob_id, req.pbank_id, i) && n.writes == m.writes.update(i, req))
    &&& !(exists|i: int| reserved_slot(m, req.rob_id, req.pbank_id, i)) ==> n.writes
        == m.writes.push(req)
}

impl MemController {
    /// The writes that may go to the banks, oldest first.
    pub closed spec fn queue(&self) -> Seq<(String, String)> {
        self.write_request_queue@
    }

    /// A controller with no write queued; the system's scoreboard and read
    /// queues are emptied.
    pub fn new(
        tdma_write_req_port: String,
        vball_write_req_port: String,
        tdma_read_resp_port: String,
        vball_read_resp_port: String,
        bank_write_req_port: String,
        bank_read_resp_port: String,
        sys: &mut MemSystem,
    ) -> (c: Self)
        requires
            old(sys).wf(),
        ensures
            c.queue().len() == 0,
            final(sys).wf(),
            final(sys).scoreboard@ == empty_model(),
            final(sys).read_sources@.len() == 0,
            final(sys).read_responses@.len() == 0,
            final(sys).bmt@ == old(sys).bmt@,
            final(sys).banks@ == old(sys).banks@,
    {
        sys.read_sources = Vec::new();
        sys.read_responses = Vec::new();
        init_scoreboard(&mut sys.scoreboard);
        MemController {
            tdma_write_req_port,
            vball_write_req_port,
            bank_write_req_port,
            tdma_read_resp_port,
            vball_read_resp_port,
            bank_read_resp_port,
            write_request_queue: Vec::new(),
        }
    }

    /// Takes a write request from `source`, with body `(rob_id, vbank_id,
    /// start_addr, data)`: it is queued when no older request holds its
    /// physical bank, and waits in the scoreboard otherwise. Gives back the
    /// ROB id, the virtual bank, the start address and the number of
    /// 128-bit words; an error, with nothing changed, for a body that does
    /// not decode.
    pub fn on_write_request(&mut self, sys: &mut MemSystem, source: String, content: &String) -> (r: Result<
        (u64, u64, u64, usize),
        MessageError,
    >)
        requires
            old(sys).wf(),
        ensures
            final(sys).wf(),
            final(sys).bmt@ == old(sys).bmt@,
            final(sys).banks@ == old(sys).banks@,
            final(sys).read_sources@ == old(sys).read_sources@,
            final(sys).read_responses@ == old(sys).read_responses@,
            match json_write_request(content@) {
                None => r == Err::<(u64, u64, u64, usize), MessageError>(MessageError::Malformed)
                    && final(self).queue() == old(self).queue() && final(sys).scoreboard@ == old(
                    sys,
                ).scoreboard@,
                Some((rob_id, vbank_id, start_addr, data)) => {
                    let p = pbank_of(old(sys).bmt@, vbank_id);
                    &&& r matches Ok((a, b, c, n)) && a == rob_id && b == vbank_id && c == start_addr
                        && n == data.len() / 2
                    &&& may_proceed(old(sys).scoreboard@, p, rob_id) ==> {
                        &&& final(self).queue() == old(self).queue().push((source, *content))
                        &&& final(sys).scoreboard@ == old(sys).scoreboard@
                    }
                    &&& !may_proceed(old(sys).scoreboard@, p, rob_id) ==> {
                        &&& final(self).queue() == old(self).queue()
                        &&& scoreboard_add(
                            old(sys).scoreboard@,
                            final(sys).scoreboard@,
                            PendingRequest { rob_id, pbank_id: p, source, json_content: *content },
                        )
                    }
                },
            },
    {
        let value = match decode_write_request(content) {
            Ok(v) => v,
            Err(e) => {
                return Err(e);
            },
        };
        let rob_id = value.0;
        let vbank_id = value.1;
        let start_addr = value.2;
        let data_count = value.3.len() / 2;
        let pbank_id = resolve_pbank(&sys.bmt, vbank_id);
        if check_dependency(&sys.scoreboard, pbank_id, rob_id) {
            self.write_request_queue.push((source, content.clone()));
        } else {
            let ghost req = PendingRequest { rob_id, pbank_id, source, json_content: *content };
            let body = content.clone();
            add_to_scoreboard(&mut sys.scoreboard, rob_id, pbank_id, source, body);
            proof {
                let m = old(sys).scoreboard@;
                if exists|i: int| reserved_slot(m, rob_id, pbank_id, i) {
                    let i = choose|i: int| reserved_slot(m, rob_id, pbank_id, i) && sys.scoreboard@.writes == m.writes.update(i, req);
                    assert(reserved_slot(m, req.rob_id, req.pbank_id, i));
                }
            }
            assert(scoreboard_add(old(sys).scoreboard@, sys.scoreboard@, req));
        }
        Ok((rob_id, vbank_id, start_addr, data_count))
    }

    /// Takes read data from the banks, with body a list of words: the banks
    /// answer reads in the order they were sent, so the data is matched with
    /// the source of the oldest read still unanswered and waits, behind the
    /// data already waiting, to be forwarded (`true`); `false` when no read
    /// is unanswered. An error, with
    /// nothing changed, for a body that does not decode.
    pub fn on_bank_read_response(&self, sys: &mut MemSystem, content: &String) -> (r: Result<bool, MessageError>)
        requires
            old(sys).wf(),
        ensures
            final(sys).wf(),
            final(sys).bmt@ == old(sys).bmt@,
            final(sys).banks@ == old(sys).banks@,
            final(sys).scoreboard@ == old(sys).scoreboard@,
            match json_words(content@) {
                None => r == Err::<bool, MessageError>(MessageError::Malformed)
                    && final(sys).read_sources@ == old(sys).read_sources@
                    && final(sys).read_responses@ == old(sys).read_responses@,
                Some(data) => {
                    &&& r is Ok
                    &&& old(sys).read_sources@.len() > 0 ==> {
                        &&& r == Ok::<bool, MessageError>(true)
                        &&& final(sys).read_sources@ == old(sys).read_sources@.drop_first()
                        &&& final(sys).read_responses@.len() == old(sys).read_responses@.len() + 1
                        &&& final(sys).read_responses@.drop_last() == old(sys).read_responses@
                        &&& final(sys).read_responses@.last().0 == old(sys).read_sources@[0]
                        &&& final(sys).read_responses@.last().1@ == data
                    }
                    &&& old(sys).read_sources@.len() == 0 ==> r == Ok::<bool, MessageError>(false)
                        && final(sys).read_sources@ == old(sys).read_sources@
                        && final(sys).read_responses@ == old(sys).read_responses@
                },
            },
    {
        let data_vec = match decode_words(content) {
            Ok(v) => v,
            Err(e) => {
                return Err(e);
            },
        };
        if sys.read_sources.len() > 0 {
            let source = sys.read_sources.remove(0);
            assert(sys.read_sources@ =~= old(sys).read_sources@.drop_first());
            sys.read_responses.push((source, data_vec));
            assert(sys.read_responses@.drop_last() =~= old(sys).read_responses@);
            Ok(true)
        } else {
            Ok(false)
        }
    }

    /// One cycle of the controller. Read data that waits is forwarded first
    /// (the oldest, so data leaves in the order it came); otherwise the oldest write that the scoreboard
    /// lets go joins the queue, the first queued write goes to the banks on
    /// its physical bank (busy, then free again), and the oldest read that
    /// may now go is sent to the banks. An error for a queued body that
    /// does not decode; it has then left the queue.
    pub fn internal_step(&mut self, sys: &mut MemSystem) -> (r: Result<MemCtrlStep, MessageError>)
        requires
            old(sys).wf(),
        ensures
            final(sys).wf(),
            final(sys).bmt@ == old(sys).bmt@,
            old(sys).read_responses@.len() > 0 ==> {
                let rest = old(sys).read_responses@.drop_first();
                &&& r matches Ok(step) && step.read_response == Some(old(sys).read_responses@[0])
                    && step.bank_write is None && step.busy == (rest.len() > 0 || old(self).queue().len() > 0
                    || old(sys).scoreboard@.writes.len() > 0)
                &&& final(sys).read_responses@ == rest
                &&& final(self).queue() == old(self).queue()
                &&& final(sys).scoreboard@ == old(sys).scoreboard@
                &&& final(sys).read_sources@ == old(sys).read_sources@
                &&& final(sys).banks@ == old(sys).banks@
            },
            old(sys).read_responses@.len() == 0 ==> {
                let (m1, taken) = take_write(old(sys).scoreboard@);
                let q1 = match taken {
                    Some((_, _, src, json)) => old(self).queue().push((src, json)),
                    None => old(self).queue(),
                };
                &&& final(sys).read_responses@ == old(sys).read_responses@
                &&& q1.len() == 0 ==> {
                    &&& r matches Ok(step) && step.read_response is None && step.bank_write is None
                        && step.busy == (m1.writes.len() > 0)
                    &&& final(self).queue() == q1
                    &&& final(sys).scoreboard@ == m1
                    &&& final(sys).read_sources@ == old(sys).read_sources@
                    &&& final(sys).banks@ == old(sys).banks@
                }
                &&& q1.len() > 0 ==> {
                    let head = q1[0];
                    &&& final(self).queue() == q1.drop_first()
                    &&& match json_write_request(head.1@) {
                        None => {
                            &&& r == Err::<MemCtrlStep, MessageError>(MessageError::Malformed)
                            &&& final(sys).scoreboard@ == m1
                            &&& final(sys).read_sources@ == old(sys).read_sources@
                            &&& final(sys).banks@ == old(sys).banks@
                        },
                        Some((rob_id, vbank_id, start_addr, data)) => {
                            let p = pbank_of(old(sys).bmt@, vbank_id);
                            let m2 = ScoreboardModel {
                                in_flight: m1.in_flight.insert(p, rob_id).remove(p),
                                ..m1
                            };
                            let (m3, rr) = take_read(m2);
                            &&& r matches Ok(step) && step.read_response is None && (step.bank_write matches Some(w)
                                && w.source == head.0 && w.rob_id == rob_id && w.vbank_id == vbank_id
                                && w.pbank_id == p && w.start_addr == start_addr && w.data@ == data)
                                && step.busy == (q1.len() > 1 || m3.writes.len() > 0)
                            &&& final(sys).scoreboard@ == m3
                            &&& match rr {
                                Some((_, rp, rs, rc, rsrc)) => {
                                    &&& final(sys).read_sources@ == old(sys).read_sources@.push(rsrc)
                                    &&& final(sys).banks@ == read_request(old(sys).banks@, rp, rs, rc)
                                },
                                None => {
                                    &&& final(sys).read_sources@ == old(sys).read_sources@
                                    &&& final(sys).banks@ == old(sys).banks@
                                },
                            }
                        },
                    }
                }
            },
    {
        if sys.read_responses.len() > 0 {
            let resp = sys.read_responses.remove(0);
            assert(sys.read_responses@ =~= old(sys).read_responses@.drop_first());
            let busy = sys.read_responses.len() > 0 || self.write_request_queue.len() > 0
                || get_pending_count(&sys.scoreboard) > 0;
            return Ok(MemCtrlStep { read_response: Some(resp), bank_write: None, busy });
        }
        let ready_request = get_one_ready_request(&mut sys.scoreboard);
        match ready_request {
            Some((_rob_id, _pbank_id, source, json_content)) => {
                self.write_request_queue.push((source, json_content));
            },
            None => {},
        }
        let ghost q1 = self.write_request_queue@;
        let mut bank_write: Option<BankWrite> = None;
        if self.write_request_queue.len() > 0 {
            let (source, json_content) = self.write_request_queue.remove(0);
            assert(self.write_request_queue@ =~= q1.drop_first());
            let value = match decode_write_request(&json_content) {
                Ok(v) => v,
                Err(e) => {
                    return Err(e);
                },
            };
            let rob_id = value.0;
            let vbank_id = value.1;
            let start_addr = value.2;
            let data_u64 = value.3;
            let pbank_id = resolve_pbank(&sys.bmt, vbank_id);
            mark_in_flight(&mut sys.scoreboard, pbank_id, rob_id);
            mark_completed(&mut sys.scoreboard, pbank_id);
            let ghost m2 = sys.scoreboard@;
            let ready_read = get_one_ready_read_request(&mut sys.scoreboard);
            proof {
                lemma_take_read_fits(m2);
            }
            match ready_read {
                Some((_read_rob_id, read_pbank_id, read_start_addr, read_count, read_source)) => {
                    proof {
                        let i = crate::arch::buckyball::scoreboard::next_read(m2)->Some_0;
                        assert(m2.reads[i].start_addr + m2.reads[i].count <= u64::MAX + 1);
                    }
                    sys.read_sources.push(read_source);
                    request_read_bank(&mut sys.banks, read_pbank_id, read_start_addr, read_count);
                },
                None => {},
            }
            bank_write = Some(BankWrite {
                source,
                rob_id,
                vbank_id,
                pbank_id,
                start_addr,
                data: data_u64,
            });
        }
        let pending_count = get_pending_count(&sys.scoreboard);
        let busy = self.write_request_queue.len() > 0 || pending_count > 0 || sys.read_responses.len() > 0;
        Ok(MemCtrlStep { read_response: None, bank_write, busy })
    }
}

} // verus!
