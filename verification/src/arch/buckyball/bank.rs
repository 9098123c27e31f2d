//! The scratchpad banks of the NPU and the shared bank store that the other
//! units read and write.
//!
//! A read or a write outside a bank's depth touches nothing: a read gives
//! zero there, a write drops the value. Reads do not answer at once: their
//! data is queued and handed out in order by the bank unit.
use vstd::prelude::*;

verus! {

/// One SRAM bank: a row of 128-bit words.
#[derive(Clone)]
pub struct SRAM {
    data: Vec<u128>,
}

impl View for SRAM {
    type V = Seq<u128>;

    closed spec fn view(&self) -> Seq<u128> {
        self.data@
    }
}

/// `depth` zero words.
pub open spec fn zero_words(depth: nat) -> Seq<u128> {
    Seq::new(depth, |i: int| 0u128)
}

/// The `count` words of `bank` from `start` on, zero past its end.
pub open spec fn read_window(bank: Seq<u128>, start: u64, count: u64) -> Seq<u128> {
    Seq::new(count as nat, |i: int| if start + i < bank.len() { bank[start + i] } else { 0u128 })
}

/// `bank` with `data` written from `start` on; words past its end are dropped.
pub open spec fn write_window(bank: Seq<u128>, start: u64, data: Seq<u128>) -> Seq<u128> {
    Seq::new(
        bank.len(),
        |a: int|
            if start <= a < start + data.len() {
                data[a - start]
            } else {
                bank[a]
            },
    )
}

/// `n` zero words, as a vector.
fn zero_vec(n: u64) -> (v: Vec<u128>)
    ensures
        v@ == zero_words(n as nat),
{
    let mut v: Vec<u128> = Vec::new();
    let mut i: u64 = 0;
    while i < n
        invariant
            i <= n,
            v@ == zero_words(i as nat),
        decreases n - i,
    {
        v.push(0);
        i = i + 1;
        assert(v@ =~= zero_words(i as nat));
    }
    v
}

/// The words of `bank` from `start_addr` on, zero past its end.
fn read_words(bank: &Vec<u128>, start_addr: u64, count: u64) -> (r: Vec<u128>)
    requires
        start_addr + count <= u64::MAX + 1,
    ensures
        r@ == read_window(bank@, start_addr, count),
{
    let mut result: Vec<u128> = Vec::new();
    let mut i: u64 = 0;
    while i < count
        invariant
            i <= count,
            start_addr + count <= u64::MAX + 1,
            result@ =~= read_window(bank@, start_addr, count).take(i as int),
        decreases count - i,
    {
        let addr = start_addr + i;
        if addr < bank.len() as u64 {
            result.push(bank[addr as usize]);
        } else {
            result.push(0);
        }
        i = i + 1;
        assert(result@ =~= read_window(bank@, start_addr, count).take(i as int));
    }
    assert(read_window(bank@, start_addr, count).take(count as int) =~= read_window(
        bank@,
        start_addr,
        count,
    ));
    result
}

/// Writes `data` into `bank` from `start_addr` on, dropping what falls past
/// its end.
fn write_words(bank: &mut Vec<u128>, start_addr: u64, data: &[u128])
    requires
        start_addr + data@.len() <= u64::MAX + 1,
    ensures
        final(bank)@ == write_window(old(bank)@, start_addr, data@),
{
    let ghost orig = bank@;
    let mut i: usize = 0;
    while i < data.len()
        invariant
            i <= data@.len(),
            start_addr + data@.len() <= u64::MAX + 1,
            bank@ == write_window(orig, start_addr, data@.take(i as int)),
        decreases data@.len() - i,
    {
        let addr = start_addr + i as u64;
        if addr < bank.len() as u64 {
            bank.set(addr as usize, data[i]);
        }
        i = i + 1;
        assert(bank@ =~= write_window(orig, start_addr, data@.take(i as int)));
    }
    assert(data@.take(data@.len() as int) =~= data@);
}

impl SRAM {
    /// A bank of `depth` zero words.
    pub fn new(depth: u64) -> (s: Self)
        ensures
            s@ == zero_words(depth as nat),
    {
        SRAM { data: zero_vec(depth) }
    }

    /// The `count` words from `start_addr` on, zero past the bank's end.
    pub fn read_batch(&self, start_addr: u64, count: u64) -> (r: Vec<u128>)
        requires
            start_addr + count <= u64::MAX + 1,
        ensures
            r@ == read_window(self@, start_addr, count),
    {
        read_words(&self.data, start_addr, count)
    }

    /// Writes `data` from `start_addr` on; words past the bank's end are
    /// dropped.
    pub fn write_batch(&mut self, start_addr: u64, data: &[u128])
        requires
            start_addr + data@.len() <= u64::MAX + 1,
        ensures
            final(self)@ == write_window(old(self)@, start_addr, data@),
    {
        write_words(&mut self.data, start_addr, data);
    }

    /// The words of the bank.
    pub fn words(&self) -> (r: &Vec<u128>)
        ensures
            r@ == self@,
    {
        &self.data
    }
}

/// The state of the bank store.
pub ghost struct BankStoreModel {
    /// The words of each bank.
    pub banks: Seq<Seq<u128>>,
    /// The read data that waits to be handed out, oldest first.
    pub responses: Seq<Seq<u128>>,
}

/// The bank store: the words of every bank, as the other units see them,
/// and the queue of read data.
pub struct BankStore {
    banks: Vec<Vec<u128>>,
    read_responses: Vec<Vec<u128>>,
}

impl View for BankStore {
    type V = BankStoreModel;

    closed spec fn view(&self) -> BankStoreModel {
        BankStoreModel {
            banks: Seq::new(self.banks@.len(), |i: int| self.banks@[i]@),
            responses: Seq::new(self.read_responses@.len(), |i: int| self.read_responses@[i]@),
        }
    }
}

/// The words of each of `banks`.
pub open spec fn bank_words(banks: Seq<SRAM>) -> Seq<Seq<u128>> {
    Seq::new(banks.len(), |i: int| banks[i]@)
}

/// The result of reading `count` words of bank `vbank_id` from `start`:
/// the read data joins the queue when the bank exists.
pub open spec fn read_request(m: BankStoreModel, vbank_id: u64, start: u64, count: u64) -> BankStoreModel {
    if vbank_id < m.banks.len() {
        BankStoreModel {
            responses: m.responses.push(read_window(m.banks[vbank_id as int], start, count)),
            ..m
        }
    } else {
        m
    }
}

/// The result of writing `data` into bank `vbank_id` from `start`.
pub open spec fn write_request(m: BankStoreModel, vbank_id: u64, start: u64, data: Seq<u128>) -> BankStoreModel {
    if vbank_id < m.banks.len() {
        BankStoreModel {
            banks: m.banks.update(vbank_id as int, write_window(m.banks[vbank_id as int], start, data)),
            ..m
        }
    } else {
        m
    }
}

impl BankStore {
    /// A store with no bank and no queued read.
    pub fn new() -> (s: Self)
        ensures
            s@.banks.len() == 0,
            s@.responses.len() == 0,
    {
        let s = BankStore { banks: Vec::new(), read_responses: Vec::new() };
        assert(s@.banks =~= Seq::<Seq<u128>>::empty());
        assert(s@.responses =~= Seq::<Seq<u128>>::empty());
        s
    }

    /// Takes the words of `banks` as the banks of the store and drops every
    /// queued read.
    pub fn install(&mut self, banks: &Vec<SRAM>)
        ensures
            final(self)@.banks == bank_words(banks@),
            final(self)@.responses.len() == 0,
    {
        let mut data: Vec<Vec<u128>> = Vec::new();
        let mut i: usize = 0;
        while i < banks.len()
            invariant
                i <= banks@.len(),
                data@.len() == i,
                forall|k: int| 0 <= k < i ==> #[trigger] data@[k]@ == banks@[k]@,
            decreases banks@.len() - i,
        {
            let w = banks[i].words().clone();
            assert(w@ =~= banks@[i as int]@);
            data.push(w);
            i = i + 1;
        }
        self.banks = data;
        self.read_responses = Vec::new();
        assert(self@.banks =~= bank_words(banks@));
        assert(self@.responses =~= Seq::<Seq<u128>>::empty());
    }

    /// Copies the words of `banks` into the store's banks of the same
    /// index; banks that the store lacks are skipped.
    pub fn sync_bank_data(&mut self, banks: &Vec<SRAM>)
        ensures
            final(self)@.banks.len() == old(self)@.banks.len(),
            forall|i: int|
                0 <= i < old(self)@.banks.len() ==> #[trigger] final(self)@.banks[i] == (if i
                    < banks@.len() {
                    banks@[i]@
                } else {
                    old(self)@.banks[i]
                }),
            final(self)@.responses == old(self)@.responses,
    {
        let ghost m = self@;
        let mut i: usize = 0;
        while i < banks.len() && i < self.banks.len()
            invariant
                i <= banks@.len(),
                self.banks@.len() == m.banks.len(),
                self@.responses == m.responses,
                forall|k: int|
                    0 <= k < m.banks.len() ==> #[trigger] self@.banks[k] == (if k < i {
                        banks@[k]@
                    } else {
                        m.banks[k]
                    }),
            decreases banks@.len() - i,
        {
            let w = banks[i].words().clone();
            assert(w@ =~= banks@[i as int]@);
            let ghost before = self@.banks;
            self.banks.set(i, w);
            assert forall|k: int| 0 <= k < m.banks.len() implies #[trigger] self@.banks[k] == (if k
                < i + 1 {
                banks@[k]@
            } else {
                m.banks[k]
            }) by {
                if k != i {
                    assert(self@.banks[k] == before[k]);
                }
            }
            i = i + 1;
        }
    }

    /// The number of queued reads.
    pub fn pending_read_responses(&self) -> (n: usize)
        ensures
            n == self@.responses.len(),
    {
        self.read_responses.len()
    }

    /// Hands out every queued read, oldest first, and empties the queue.
    pub fn take_read_responses(&mut self) -> (r: Vec<Vec<u128>>)
        ensures
            r@.len() == old(self)@.responses.len(),
            forall|i: int| 0 <= i < r@.len() ==> #[trigger] r@[i]@ == old(self)@.responses[i],
            final(self)@.banks == old(self)@.banks,
            final(self)@.responses.len() == 0,
    {
        let mut r: Vec<Vec<u128>> = Vec::new();
        std::mem::swap(&mut r, &mut self.read_responses);
        assert(self@.responses =~= Seq::<Seq<u128>>::empty());
        r
    }
}

/// Reads `count` words of bank `vbank_id` from `start_addr` and queues the
/// data; a bank that does not exist is not read.
pub fn request_read_bank(store: &mut BankStore, vbank_id: u64, start_addr: u64, count: u64)
    requires
        start_addr + count <= u64::MAX + 1,
    ensures
        final(store)@ == read_request(old(store)@, vbank_id, start_addr, count),
{
    if vbank_id < store.banks.len() as u64 {
        let data_vec = read_words(&store.banks[vbank_id as usize], start_addr, count);
        let ghost m = store@;
        store.read_responses.push(data_vec);
        assert(store@.responses =~= m.responses.push(read_window(m.banks[vbank_id as int], start_addr, count)));
        assert(store@.banks =~= m.banks);
    }
}

/// Writes `data_vec` into bank `vbank_id` from `start_addr`; `false`, with
/// nothing written, when the bank does not exist.
pub fn request_write_bank(store: &mut BankStore, vbank_id: u64, start_addr: u64, data_vec: Vec<u128>) -> (r: bool)
    requires
        vbank_id < old(store)@.banks.len() ==> start_addr + data_vec@.len() <= u64::MAX + 1,
    ensures
        r == (vbank_id < old(store)@.banks.len()),
        final(store)@ == write_request(old(store)@, vbank_id, start_addr, data_vec@),
{
    if vbank_id < store.banks.len() as u64 {
        let ghost m = store@;
        let mut bank: Vec<u128> = Vec::new();
        std::mem::swap(&mut bank, &mut store.banks[vbank_id as usize]);
        write_words(&mut bank, start_addr, data_vec.as_slice());
        store.banks.set(vbank_id as usize, bank);
        assert(store@.banks =~= m.banks.update(
            vbank_id as int,
            write_window(m.banks[vbank_id as int], start_addr, data_vec@),
        ));
        assert(store@.responses =~= m.responses);
        return true;
    }
    false
}

/// The read of the systolic array: as [`request_read_bank`]; the ROB id
/// plays no part.
pub fn request_read_bank_for_systolic(
    store: &mut BankStore,
    vbank_id: u64,
    start_addr: u64,
    count: u64,
    rob_id: u64,
)
    requires
        start_addr + count <= u64::MAX + 1,
    ensures
        final(store)@ == read_request(old(store)@, vbank_id, start_addr, count),
{
    request_read_bank(store, vbank_id, start_addr, count);
}

/// A write that reached the bank unit: `data` goes into bank `vbank_id`
/// from `start_addr`, and the store takes the new words of every bank.
/// `false`, with nothing changed, when the bank does not exist.
pub fn apply_bank_write(
    banks: &mut Vec<SRAM>,
    store: &mut BankStore,
    vbank_id: u64,
    start_addr: u64,
    data: &Vec<u128>,
) -> (r: bool)
    requires
        start_addr + data@.len() <= u64::MAX + 1,
    ensures
        r == (vbank_id < old(banks)@.len()),
        r ==> bank_words(final(banks)@) == bank_words(old(banks)@).update(
            vbank_id as int,
            write_window(old(banks)@[vbank_id as int]@, start_addr, data@),
        ),
        r ==> final(store)@.banks.len() == old(store)@.banks.len(),
        r ==> forall|i: int|
            0 <= i < old(store)@.banks.len() ==> #[trigger] final(store)@.banks[i] == (if i
                < final(banks)@.len() {
                final(banks)@[i]@
            } else {
                old(store)@.banks[i]
            }),
        r ==> final(store)@.responses == old(store)@.responses,
        !r ==> final(banks)@ == old(banks)@ && final(store)@ == old(store)@,
{
    if vbank_id < banks.len() as u64 {
        let ghost before = bank_words(banks@);
        let mut bank = SRAM::new(0);
        std::mem::swap(&mut bank, &mut banks[vbank_id as usize]);
        bank.write_batch(start_addr, data.as_slice());
        banks.set(vbank_id as usize, bank);
        assert(bank_words(banks@) =~= before.update(
            vbank_id as int,
            write_window(old(banks)@[vbank_id as int]@, start_addr, data@),
        ));
        store.sync_bank_data(banks);
        return true;
    }
    false
}

/// A read gives back what a write wrote: reading a bank where `data` was
/// just written, within the bank's depth, queues exactly `data`.
pub proof fn lemma_read_after_write(m: BankStoreModel, vbank_id: u64, start: u64, data: Seq<u128>)
    requires
        vbank_id < m.banks.len(),
        start + data.len() <= m.banks[vbank_id as int].len(),
        data.len() <= u64::MAX,
    ensures
        read_request(write_request(m, vbank_id, start, data), vbank_id, start, data.len() as u64).responses
            == m.responses.push(data),
{
    let w = write_request(m, vbank_id, start, data);
    let bank = w.banks[vbank_id as int];
    assert(read_window(bank, start, data.len() as u64) =~= data);
}

/// Writing a bank leaves every other bank as it was.
pub proof fn lemma_write_is_local(m: BankStoreModel, vbank_id: u64, start: u64, data: Seq<u128>, other: int)
    requires
        0 <= other < m.banks.len(),
        other != vbank_id,
    ensures
        write_request(m, vbank_id, start, data).banks[other] == m.banks[other],
{
}

} // verus!
