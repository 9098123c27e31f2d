use bebop::arch::buckyball::mem_ctrl::MemSystem;
use bebop::arch::buckyball::mset::{decode_mset, process_mset, receive_mset_inst, MsetSlot};
use bebop::arch::buckyball::rs::{push_to_buffer, Inst, IssueSlots, Rs, RsError};
use bebop::arch::buckyball::tdma_loader::{
    self, is_tdma_loader_idle, receive_mvin_inst, LoaderAction, MvinSlot, TdmaLoader, TdmaLoaderState,
};
use bebop::arch::buckyball::tdma_storer::{
    self, receive_mvout_inst, MvoutSlot, StorerAction, StorerError, TdmaStorer, TdmaStorerState,
};
use bebop::arch::buckyball::vecball::{
    self, compute_warp, is_vecball_idle, receive_vecball_inst, VecBallState, VecballAction, VecballError,
    VecballResponse, VecballSlot, VectorBall,
};
use bebop::arch::buckyball::scoreboard::get_pending_count;
use bebop::buckyball::bmt::{get_pbank_ids, init_bmt};

#[test]
fn mset_fields_and_effect() {
    assert_eq!(decode_mset(0b101, (3 << 6) | (2 << 1) | 1), (true, 2, true, 2, 3));
    let mut slot = MsetSlot::new();
    let mut bmt = init_bmt(8, 8);
    // allocate 2 x 3 banks to virtual bank 5
    receive_mset_inst(&mut slot, 5 << 1, (3 << 6) | (2 << 1) | 1, 9);
    assert!(!slot.can_issue);
    let o = process_mset(&mut slot, &mut bmt).unwrap();
    assert!(o.success && !o.release);
    assert_eq!((o.rob_id, o.vbank_id, o.bank_num), (9, 5, 6));
    assert_eq!(get_pbank_ids(&bmt, 5), Some(vec![0, 1, 2, 3, 4, 5]));
    assert!(slot.can_issue);
    // a second allocation of the same bank fails
    receive_mset_inst(&mut slot, 5 << 1, (1 << 6) | (1 << 1) | 1, 10);
    assert!(!process_mset(&mut slot, &mut bmt).unwrap().success);
    // release
    receive_mset_inst(&mut slot, (5 << 1) | 1, 0, 11);
    let o = process_mset(&mut slot, &mut bmt).unwrap();
    assert!(o.success && o.release);
    assert_eq!(get_pbank_ids(&bmt, 5), None);
    assert!(process_mset(&mut slot, &mut bmt).is_none());
}

#[test]
fn loader_runs_an_mvin() {
    let mut sys = MemSystem::new(init_bmt(4, 4));
    let mut slot = MvinSlot::new();
    let mut loader = TdmaLoader::new("w".to_string(), "c".to_string(), &mut slot);
    assert_eq!(tdma_loader::decode_inst(0x1000, (1 << 15) | (2 << 5) | 3), (0x1000, 1, 2, 3));
    receive_mvin_inst(&mut slot, 0x1000, (0 << 15) | (2 << 5) | 3, 4);
    assert!(is_tdma_loader_idle(&slot));
    assert!(matches!(loader.internal_step(&mut slot, &mut sys), LoaderAction::Started));
    assert_eq!(get_pending_count(&sys.scoreboard), 1);
    assert!(!is_tdma_loader_idle(&slot));
    match loader.internal_step(&mut slot, &mut sys) {
        LoaderAction::ReadDram { addrs } => assert_eq!(addrs, vec![0x1000, 0x1010]),
        _ => panic!("expected DRAM reads"),
    }
    let (rob_id, vbank_id, start, data) = loader.on_dram_data(&mut slot, &vec![(1, 2), (3, 0)]);
    assert_eq!((rob_id, vbank_id, start), (4, 3, 0));
    assert_eq!(data, vec![(2u128 << 64) | 1, 3]);
    assert_eq!(loader.state(), TdmaLoaderState::Active);
    assert!(matches!(loader.internal_step(&mut slot, &mut sys), LoaderAction::Transfer { depth: 2 }));
    assert!(matches!(loader.internal_step(&mut slot, &mut sys), LoaderAction::Commit { rob_id: 4 }));
    assert!(slot.can_issue);
    assert!(is_tdma_loader_idle(&slot));
}

#[test]
fn storer_runs_an_mvout() {
    let mut sys = MemSystem::new(init_bmt(4, 4));
    let mut slot = MvoutSlot::new();
    let mut storer = TdmaStorer::new("r".to_string(), "c".to_string(), &mut slot);
    assert_eq!(tdma_storer::decode_inst(0x1_2345_6789, (2 << 24) | (3 << 8) | 1), (0x2345_6789, 2, 3, 1));
    assert_eq!(storer.on_bank_data(&vec![1]), Err(StorerError::NotWaiting));
    receive_mvout_inst(&mut slot, 0x100, (2 << 24) | (3 << 8) | 1, 6);
    assert!(matches!(storer.internal_step(&mut slot, &mut sys), StorerAction::ReadIssued));
    assert_eq!(sys.read_sources, vec!["tdma".to_string()]);
    assert!(matches!(storer.internal_step(&mut slot, &mut sys), StorerAction::Waiting));
    let writes = storer.on_bank_data(&vec![7, 8, 9]).unwrap();
    assert_eq!(writes, vec![(0x100, 7), (0x100 + 32, 8), (0x100 + 64, 9)]);
    assert_eq!(storer.state(), TdmaStorerState::Active);
    assert!(matches!(storer.internal_step(&mut slot, &mut sys), StorerAction::Finished));
    assert!(matches!(storer.internal_step(&mut slot, &mut sys), StorerAction::Commit { rob_id: 6 }));
    assert!(slot.can_issue);
}

#[test]
fn vector_unit_dot_product() {
    let a: Vec<u128> = (1..=16).map(|x| x as u128).collect();
    let b: Vec<u128> = vec![(1u128 << 64) | 2; 16];
    // the low 64 bits of each word count: sum of 2 * (1..=16)
    assert_eq!(compute_warp(&a, &b), vec![272u128; 16]);
    let big = vec![u64::MAX as u128; 16];
    // (2^64 - 1)^2 mod 2^64 = 1 for each of the 16 terms
    assert_eq!(compute_warp(&big, &big), vec![16u128; 16]);
}

#[test]
fn vector_unit_runs_an_instruction() {
    let mut sys = MemSystem::new(init_bmt(4, 4));
    let mut slot = VecballSlot::new();
    let mut vb = VectorBall::new("c".to_string(), "w".to_string(), "r".to_string(), &mut slot);
    assert_eq!(vecball::decode_inst(0x0201, 0x0a03), (1, 2, 3, 10));
    receive_vecball_inst(&mut slot, 0x0201, 0x0a03, 12);
    assert!(matches!(vb.internal_step(&mut slot, &mut sys, false), VecballAction::Started));
    assert!(!is_vecball_idle(&slot));
    assert!(matches!(vb.internal_step(&mut slot, &mut sys, false), VecballAction::ReadIssued));
    assert_eq!(vb.on_read_response(&mut slot, &"[1,2]".to_string()), Err(VecballError::WrongLength));
    assert_eq!(vb.on_read_response(&mut slot, &"oops".to_string()), Err(VecballError::Malformed));
    let ones = serde_json::to_string(&vec![1u128; 16]).unwrap();
    assert_eq!(vb.on_read_response(&mut slot, &ones), Ok(VecballResponse::Op1));
    assert_eq!(vb.state(), VecBallState::WaitOp2);
    let threes = serde_json::to_string(&vec![3u128; 16]).unwrap();
    assert_eq!(vb.on_read_response(&mut slot, &threes), Ok(VecballResponse::Op2));
    match vb.internal_step(&mut slot, &mut sys, false) {
        VecballAction::Write { rob_id, wr_bank_id, data } => {
            assert_eq!((rob_id, wr_bank_id), (12, 3));
            assert_eq!(data, vec![48u128; 16]);
        },
        _ => panic!("expected a write"),
    }
    assert!(matches!(vb.internal_step(&mut slot, &mut sys, false), VecballAction::Pending));
    assert!(matches!(vb.internal_step(&mut slot, &mut sys, true), VecballAction::Commit { rob_id: 12 }));
    assert!(is_vecball_idle(&slot));
    assert!(slot.can_issue);
}

#[test]
fn reservation_station_dispatch() {
    let mut buf: Vec<Inst> = Vec::new();
    push_to_buffer(&mut buf, 24, 1, 2, 1, 0);
    assert_eq!(buf, vec![Inst { funct: 24, xs1: 1, xs2: 2, domain_id: 1, rob_id: 0 }]);

    let mut rs = Rs::new("p".to_string());
    let mut slots = IssueSlots::new();
    rs.receive_values(&vec![23, 0, 0, 2, 0]);
    rs.receive_values(&vec![30, 0x0201, 0x0a03, 2, 1]);
    rs.receive_values(&vec![30, 0, 0, 2, 2]);
    assert_eq!(rs.dispatch(&mut slots), Ok(()));
    assert!(!slots.mset.can_issue);
    // the second vector instruction found the slot closed
    assert_eq!(slots.vecball.inst.unwrap().rob_id, 1);
    assert!(slots.mvin.can_issue);

    rs.receive_values(&vec![24, 0x40, 0, 1, 3]);
    rs.receive_values(&vec![99, 0, 0, 2, 4]);
    rs.receive_values(&vec![25, 0x40, 0, 1, 5]);
    assert_eq!(rs.dispatch(&mut slots), Err(RsError::UnknownFunct));
    assert!(!slots.mvin.can_issue);
    // the instruction after the unknown one was dropped
    assert!(slots.mvout.can_issue);
    assert_eq!(rs.dispatch(&mut slots), Ok(()));
}
