use bebop::buckyball::bmt::{allocate_bank, free_bank, get_pbank_ids, get_vbank_id, init_bmt};

#[test]
fn test_bmt() {
    let mut bmt = init_bmt(16, 32);
    let pbank_ids = allocate_bank(&mut bmt, 0, 1).unwrap();
    assert_eq!(pbank_ids, vec![0]);

    let _pbank_ids = allocate_bank(&mut bmt, 1, 4).unwrap();
    assert!(free_bank(&mut bmt, 0));

    let _pbank_ids = allocate_bank(&mut bmt, 0, 1).unwrap();
}
