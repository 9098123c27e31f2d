use bebop::arch::buckyball::bank::{apply_bank_write, request_read_bank, request_write_bank, BankStore, SRAM};
use bebop::arch::buckyball::mem_ctrl::{
    request_read_bank_for_tdma, request_read_bank_for_vecball, request_write_bank_for_tdma, resolve_pbank,
    MemController, MemSystem,
};
use bebop::arch::buckyball::scoreboard::{
    add_read_to_scoreboard, add_to_scoreboard, check_dependency, get_in_flight_count, get_one_ready_read_request,
    get_one_ready_request, get_pending_count, get_pending_read_count, get_ready_read_requests, get_ready_requests,
    is_all_memory_complete, mark_completed, mark_in_flight, reserve_write_request, Scoreboard,
};
use bebop::buckyball::bmt::{allocate_bank, free_bank, get_pbank_ids, get_vbank_id, init_bmt};
use bebop::message::{decode_u64, decode_u64s, decode_words, decode_write_request, MessageError};

fn system(num_banks: u64, depth: u64) -> MemSystem {
    let mut sys = MemSystem::new(init_bmt(num_banks, num_banks));
    let banks: Vec<SRAM> = (0..num_banks).map(|_| SRAM::new(depth)).collect();
    sys.banks.install(&banks);
    sys
}

#[test]
fn sram_reads_zero_past_its_depth() {
    let mut s = SRAM::new(4);
    s.write_batch(2, &[7, 8, 9]);
    assert_eq!(s.read_batch(0, 6), vec![0, 0, 7, 8, 0, 0]);
}

#[test]
fn bank_store_queues_reads_in_order() {
    let mut store = BankStore::new();
    let banks = vec![SRAM::new(4), SRAM::new(4)];
    store.install(&banks);
    assert!(request_write_bank(&mut store, 1, 1, vec![5, 6]));
    assert!(!request_write_bank(&mut store, 2, 0, vec![1]));
    request_read_bank(&mut store, 1, 0, 3);
    request_read_bank(&mut store, 0, 3, 2);
    request_read_bank(&mut store, 9, 0, 1);
    assert_eq!(store.pending_read_responses(), 2);
    let responses = store.take_read_responses();
    assert_eq!(responses, vec![vec![0, 5, 6], vec![0, 0]]);
    assert_eq!(store.pending_read_responses(), 0);
}

#[test]
fn bank_write_reaches_the_store() {
    let mut store = BankStore::new();
    let mut banks = vec![SRAM::new(2), SRAM::new(2)];
    store.install(&banks);
    assert!(apply_bank_write(&mut banks, &mut store, 1, 0, &vec![3, 4]));
    assert!(!apply_bank_write(&mut banks, &mut store, 5, 0, &vec![1]));
    request_read_bank(&mut store, 1, 0, 2);
    assert_eq!(store.take_read_responses(), vec![vec![3, 4]]);
}

#[test]
fn bmt_allocates_from_the_front_and_frees_to_the_back() {
    let mut bmt = init_bmt(4, 4);
    assert_eq!(allocate_bank(&mut bmt, 0, 2), Some(vec![0, 1]));
    assert_eq!(allocate_bank(&mut bmt, 0, 1), None);
    assert_eq!(allocate_bank(&mut bmt, 1, 3), None);
    assert_eq!(allocate_bank(&mut bmt, 1, 0), None);
    assert_eq!(get_vbank_id(&bmt, 1), Some(0));
    assert_eq!(get_vbank_id(&bmt, 3), None);
    assert!(free_bank(&mut bmt, 0));
    assert!(!free_bank(&mut bmt, 0));
    assert_eq!(get_pbank_ids(&bmt, 0), None);
    assert_eq!(allocate_bank(&mut bmt, 2, 3), Some(vec![2, 3, 0]));
    assert_eq!(get_pbank_ids(&bmt, 2), Some(vec![2, 3, 0]));
}

#[test]
fn scoreboard_orders_by_rob_id() {
    let mut sb = Scoreboard::new();
    assert!(check_dependency(&sb, 3, 10));
    mark_in_flight(&mut sb, 3, 5);
    assert!(!check_dependency(&sb, 3, 10));
    assert!(check_dependency(&sb, 3, 4));
    assert!(check_dependency(&sb, 2, 10));
    reserve_write_request(&mut sb, 6, 2);
    assert!(!check_dependency(&sb, 2, 7));
    add_to_scoreboard(&mut sb, 6, 2, "tdma".to_string(), "body".to_string());
    assert_eq!(get_pending_count(&sb), 1);
    add_read_to_scoreboard(&mut sb, 8, 3, 0, 4, "vecball".to_string());
    assert_eq!(get_pending_read_count(&sb), 1);
    assert_eq!(get_in_flight_count(&sb), 1);
    assert!(get_one_ready_read_request(&mut sb).is_none());
    let w = get_one_ready_request(&mut sb).unwrap();
    assert_eq!((w.0, w.1, w.2.as_str(), w.3.as_str()), (6, 2, "tdma", "body"));
    mark_completed(&mut sb, 3);
    let reads = get_ready_read_requests(&mut sb);
    assert_eq!(reads.len(), 1);
    assert_eq!(reads[0].1, 3);
    assert!(get_ready_requests(&mut sb).is_empty());
    assert!(is_all_memory_complete(&sb));
}

#[test]
fn oldest_ready_write_goes_first() {
    let mut sb = Scoreboard::new();
    add_to_scoreboard(&mut sb, 9, 1, "a".to_string(), "x".to_string());
    add_to_scoreboard(&mut sb, 4, 2, "b".to_string(), "y".to_string());
    mark_in_flight(&mut sb, 2, 1);
    let first = get_one_ready_request(&mut sb).unwrap();
    assert_eq!(first.0, 9);
    mark_completed(&mut sb, 2);
    let second = get_one_ready_request(&mut sb).unwrap();
    assert_eq!(second.0, 4);
}

#[test]
fn reads_go_to_the_mapped_bank_unless_blocked() {
    let mut sys = system(4, 8);
    assert_eq!(allocate_bank(&mut sys.bmt, 1, 1), Some(vec![0]));
    assert_eq!(resolve_pbank(&sys.bmt, 1), 0);
    assert_eq!(resolve_pbank(&sys.bmt, 3), 3);
    assert!(request_write_bank_for_tdma(&mut sys, 0, 0, vec![11, 12]));
    request_read_bank_for_tdma(&mut sys, 1, 0, 2, 5);
    assert_eq!(sys.read_sources, vec!["tdma".to_string()]);
    assert_eq!(sys.banks.take_read_responses(), vec![vec![11, 12]]);
    mark_in_flight(&mut sys.scoreboard, 0, 2);
    request_read_bank_for_vecball(&mut sys, 1, 0, 2, 7);
    assert_eq!(sys.read_sources.len(), 1);
    assert_eq!(get_pending_read_count(&sys.scoreboard), 1);
}

#[test]
fn controller_forwards_a_write_and_then_the_waiting_read() {
    let mut sys = system(4, 8);
    let mut ctrl = MemController::new(
        "tw".to_string(),
        "vw".to_string(),
        "tr".to_string(),
        "vr".to_string(),
        "bw".to_string(),
        "br".to_string(),
        &mut sys,
    );
    // a read of rob 7 on bank 2 waits behind the reserved write of rob 3
    reserve_write_request(&mut sys.scoreboard, 3, 2);
    request_read_bank_for_vecball(&mut sys, 2, 0, 1, 7);
    assert_eq!(sys.read_sources.len(), 0);
    let taken = ctrl.on_write_request(&mut sys, "tdma".to_string(), &"[3,2,0,[1,2,3,4]]".to_string());
    assert_eq!(taken, Ok((3, 2, 0, 2)));
    let step = ctrl.internal_step(&mut sys).unwrap();
    let w = step.bank_write.unwrap();
    assert_eq!((w.rob_id, w.vbank_id, w.pbank_id, w.start_addr), (3, 2, 2, 0));
    assert_eq!(w.data, vec![1, 2, 3, 4]);
    assert!(step.read_response.is_none());
    assert_eq!(sys.read_sources, vec!["vecball".to_string()]);
    assert!(ctrl.on_bank_read_response(&mut sys, &"[42]".to_string()).unwrap());
    let step = ctrl.internal_step(&mut sys).unwrap();
    assert_eq!(step.read_response, Some(("vecball".to_string(), vec![42])));
}

#[test]
fn controller_rejects_malformed_bodies() {
    let mut sys = system(2, 2);
    let mut ctrl = MemController::new(
        "tw".to_string(),
        "vw".to_string(),
        "tr".to_string(),
        "vr".to_string(),
        "bw".to_string(),
        "br".to_string(),
        &mut sys,
    );
    assert_eq!(
        ctrl.on_write_request(&mut sys, "tdma".to_string(), &"not json".to_string()),
        Err(MessageError::Malformed)
    );
    assert_eq!(ctrl.on_bank_read_response(&mut sys, &"{".to_string()), Err(MessageError::Malformed));
    assert_eq!(ctrl.on_bank_read_response(&mut sys, &"[1]".to_string()), Ok(false));
}

#[test]
fn message_bodies_decode() {
    assert_eq!(decode_u64s(&"[1,2,3]".to_string()), Ok(vec![1, 2, 3]));
    assert_eq!(decode_u64(&"17".to_string()), Ok(17));
    assert_eq!(decode_u64(&"-1".to_string()), Err(MessageError::Malformed));
    assert_eq!(decode_words(&"[340282366920938463463374607431768211455]".to_string()), Ok(vec![u128::MAX]));
    assert_eq!(decode_write_request(&"[1,2,3,[4]]".to_string()), Ok((1, 2, 3, vec![4])));
    assert_eq!(decode_write_request(&"[1,2,3]".to_string()), Err(MessageError::Malformed));
}

#[test]
fn controller_matches_bank_responses_in_request_order() {
    let mut sys = system(4, 8);
    let mut ctrl = MemController::new(
        "tw".to_string(),
        "vw".to_string(),
        "tr".to_string(),
        "vr".to_string(),
        "bw".to_string(),
        "br".to_string(),
        &mut sys,
    );
    // a DMA read, then a vector-unit read, both free to go
    request_read_bank_for_tdma(&mut sys, 1, 0, 1, 5);
    request_read_bank_for_vecball(&mut sys, 2, 0, 1, 6);
    assert_eq!(sys.read_sources, vec!["tdma".to_string(), "vecball".to_string()]);
    // the banks answer in request order: the first answer is the DMA's
    assert!(ctrl.on_bank_read_response(&mut sys, &"[10]".to_string()).unwrap());
    assert!(ctrl.on_bank_read_response(&mut sys, &"[20]".to_string()).unwrap());
    assert!(sys.read_sources.is_empty());
    let step = ctrl.internal_step(&mut sys).unwrap();
    assert_eq!(step.read_response, Some(("tdma".to_string(), vec![10])));
    let step = ctrl.internal_step(&mut sys).unwrap();
    assert_eq!(step.read_response, Some(("vecball".to_string(), vec![20])));
}

#[test]
fn direct_write_to_a_missing_bank_is_refused() {
    let mut sys = system(2, 4);
    assert!(!request_write_bank_for_tdma(&mut sys, 9, u64::MAX, vec![1, 2]));
}

#[test]
fn scoreboard_drains_ready_requests_in_rob_order() {
    let mut sb = Scoreboard::new();
    mark_in_flight(&mut sb, 1, 2);
    add_read_to_scoreboard(&mut sb, 9, 0, 10, 1, "a".to_string());
    add_read_to_scoreboard(&mut sb, 4, 1, 20, 2, "b".to_string());
    add_read_to_scoreboard(&mut sb, 7, 2, 30, 3, "c".to_string());
    add_read_to_scoreboard(&mut sb, 3, 0, 40, 4, "d".to_string());
    let reads = get_ready_read_requests(&mut sb);
    let ids: Vec<u64> = reads.iter().map(|r| r.0).collect();
    assert_eq!(ids, vec![3, 7, 9]);
    assert_eq!((reads[0].2, reads[0].3, reads[0].4.as_str()), (40, 4, "d"));
    // only the read on the busy bank is left
    assert_eq!(get_pending_read_count(&sb), 1);
    assert_eq!(get_in_flight_count(&sb), 1);

    add_to_scoreboard(&mut sb, 12, 1, "w".to_string(), "x".to_string());
    add_to_scoreboard(&mut sb, 11, 5, "w".to_string(), "y".to_string());
    add_to_scoreboard(&mut sb, 10, 6, "w".to_string(), "z".to_string());
    let writes = get_ready_requests(&mut sb);
    let ids: Vec<u64> = writes.iter().map(|w| w.0).collect();
    assert_eq!(ids, vec![10, 11]);
    assert_eq!(writes[1].3, "y");
    assert_eq!(get_pending_count(&sb), 1);
    assert_eq!(get_pending_read_count(&sb), 1);
}
