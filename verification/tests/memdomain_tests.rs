use bebop::buckyball::lib::operation::{ExternalOp, InternalOp};
use bebop::buckyball::memdomain::banks::Bank;
use bebop::buckyball::memdomain::memdomain::MemDomain;
use bebop::buckyball::memdomain::tdma_load::{load_read_addr, take_read_result, DmaInterface};
use bebop::buckyball::memdomain::tdma_store::{take_write_req, take_write_result, DmaWriteInterface};
use std::cell::RefCell;
use std::collections::HashMap;
use bebop::buckyball::memdomain::tdma_load::TDMALoad;
use bebop::buckyball::memdomain::tdma_store::TDMAStore;

#[test]
fn test_tdma_load_init() {
    let mut tdma = TDMALoad::new();
    assert!(!tdma.busy);
    tdma.mvin().execute(&Some((0x1000, 16, 10, 0)));
    assert!(tdma.busy);
    assert_eq!(tdma.current_depth, 10);
}

#[test]
fn test_tdma_store_init() {
    let mut tdma = TDMAStore::new();
    assert!(!tdma.busy);
    tdma.mvout().execute(&Some((0x2000, 16, 5, 1)));
    assert!(tdma.busy);
    assert_eq!(tdma.current_depth, 5);
}

#[test]
fn test_bank_read_write() {
    let mut bank = Bank::new(0, 128, 1024);
    bank.write_req().execute(&Some((10, 0x1234)));
    bank.read_req().execute(&Some(10));
    let data = bank.read_resp().output();
    assert_eq!(data, Some(0x1234));
}

#[test]
fn memdomain_bank_response_stays_until_the_next_read() {
    let mut bank = Bank::new(3, 128, 4);
    assert_eq!(bank.bank_data, vec![0u128; 4]);
    bank.write_req().execute(&Some((3, 7)));
    bank.write_req().execute(&None);
    bank.read_req().execute(&Some(3));
    assert!(bank.read_resp().has_output());
    assert_eq!(bank.read_resp().output(), Some(7));
    assert_eq!(bank.read_resp().output(), Some(7));
    bank.read_req().execute(&Some(0));
    assert_eq!(bank.read_resp().output(), Some(0));
}

struct Dram {
    words: RefCell<HashMap<u64, u128>>,
}

impl DmaInterface for Dram {
    fn dma_read(&self, addr: u64, _size: u32) -> std::io::Result<u128> {
        Ok(*self.words.borrow().get(&addr).unwrap_or(&0))
    }
}

impl DmaWriteInterface for Dram {
    fn dma_write(&self, addr: u64, data: u128, _size: u32) -> std::io::Result<()> {
        self.words.borrow_mut().insert(addr, data);
        Ok(())
    }
}

#[test]
fn memdomain_mvin_then_mvout_moves_words() {
    let dram = Dram { words: RefCell::new(HashMap::new()) };
    dram.words.borrow_mut().insert(0x100, 0xAA);
    dram.words.borrow_mut().insert(0x110, 0xBB);
    let mut m = MemDomain::new();
    assert_eq!(m.banks.len(), 16);
    assert_eq!(m.banks[3].bank_data.len(), 2048);
    // MVIN of two words, 16 bytes apart, into bank 1
    let mvin = (24u32, 0x100u64, (16u64 << 24) | (2 << 8) | 1, 7u32);
    assert!(m.load_op().can_input(true));
    m.load_op().execute(&Some(mvin));
    assert!(m.load_busy);
    assert!(!m.load_op().can_input(true));
    for _ in 0..3 {
        m.execute_load(&dram).update();
    }
    assert_eq!(m.banks[1].bank_data[0], 0xAA);
    assert_eq!(m.banks[1].bank_data[1], 0xBB);
    assert_eq!(m.banks[1].bank_data[2], 0);
    // the loader stops only on a failed read, so the load stays busy
    assert!(m.load_busy);
    assert_eq!(m.execute_load(&dram).output(), None);
    // MVOUT of the same two words to 0x200, 32 bytes apart
    let mvout = (25u32, 0x200u64, (32u64 << 24) | (2 << 8) | 1, 8u32);
    m.store_op().execute(&Some(mvout));
    assert!(m.store_busy);
    let mut steps = 0;
    while m.store_busy && steps < 10 {
        m.execute_store(&dram).update();
        steps += 1;
    }
    assert!(!m.store_busy);
    assert_eq!(steps, 3);
    // the storer asks for word i before it writes the word it holds, so
    // the second write carries the word asked for a step earlier
    assert_eq!(dram.words.borrow().get(&0x200), Some(&0xAA));
    assert_eq!(dram.words.borrow().get(&0x220), Some(&0xAA));
    assert_eq!(m.execute_store(&dram).output(), Some(mvout));
    assert_eq!(m.execute_store(&dram).output(), Some(mvout));
}

#[test]
fn memdomain_ignores_other_functions() {
    let mut m = MemDomain::new();
    m.load_op().execute(&Some((25, 0, 0, 1)));
    assert!(!m.load_busy);
    assert_eq!(m.received_inst, Some((25, 0, 0, 1)));
    m.store_op().execute(&Some((26, 0, 0, 2)));
    assert!(!m.store_busy);
    m.execute_load(&Dram { words: RefCell::new(HashMap::new()) }).update();
    assert_eq!(m.executed_inst, None);
}

#[test]
fn memdomain_dma_steps_take_the_answers() {
    let mut load = TDMALoad::new();
    load.mvin().execute(&Some((0x1000, 32, 3, 2)));
    assert_eq!(load_read_addr(&load), 0x1000);
    take_read_result(&mut load, Ok(0xCAFE));
    assert_eq!(load.dma_banks_write_req, Some((2, 0, 0xCAFE)));
    assert_eq!(load_read_addr(&load), 0x1020);
    take_read_result(&mut load, Err(std::io::Error::new(std::io::ErrorKind::Other, "down")));
    assert!(!load.busy);
    assert_eq!(load.current_index, 1);

    let mut store = TDMAStore::new();
    store.mvout().execute(&Some((0x2000, 16, 1, 0)));
    store.dma_write_req = Some((0x2000, 7));
    assert_eq!(take_write_req(&mut store), Some((0x2000, 7)));
    assert_eq!(store.dma_write_req, None);
    take_write_result(&mut store, Ok(()));
    assert_eq!(store.current_index, 1);
    assert!(!store.busy);
}
