use bebop::buckyball::decoder::decode_funct;
use bebop::buckyball::frontend::decoder::{self as frontend_decoder, Decoder};
use bebop::buckyball::frontend::rob::{EntryStatus, Rob, RobEntry};
use bebop::buckyball::frontend::rs::Rs;
use bebop::buckyball::frontend::frontend::Frontend;
use bebop::buckyball::lib::operation::{ExternalOp, InternalOp};
use bebop::buckyball::frontend::unit::decoder::unit::decode;
use bebop::buckyball::frontend::unit::rob::bundles::decoder_rob::DecodedInstruction;
use bebop::buckyball::frontend::unit::rob::unit::ring_buffer::RingBuffer;

#[test]
fn decoder_test_decode_funct() {
    assert_eq!(decode_funct(31), 0);
    assert_eq!(decode_funct(24), 1);
    assert_eq!(decode_funct(25), 1);
    assert_eq!(decode_funct(26), 2);
    assert_eq!(frontend_decoder::decode_funct(31), 0);
    assert_eq!(frontend_decoder::decode_funct(24), 1);
    assert_eq!(frontend_decoder::decode_funct(26), 2);
}

#[test]
fn test_rob_new() {
    let rob = Rob::new(10);
    assert_eq!(rob.rob_buffer.len(), 10);
    for entry in rob.rob_buffer.iter() {
        assert_eq!(entry.status, EntryStatus::Idle);
    }
    assert_eq!(rob.dispatched_inst, None);
}

#[test]
fn frontend_decoder_drops_fences() {
    let mut d = Decoder::new();
    assert!(d.decode().can_input(true));
    d.decode().execute(&Some((24, 0x10, 0x20)));
    assert_eq!(d.decoded_inst, Some((24, 0x10, 0x20, 1)));
    assert!(d.push_to_rob().has_output());
    assert_eq!(d.push_to_rob().output(), Some((24, 0x10, 0x20, 1)));
    d.decode().execute(&Some((31, 0, 0)));
    assert_eq!(d.decoded_inst, None);
    assert_eq!(d.push_to_rob().output(), None);
    d.decode().execute(&Some((40, 1, 2)));
    assert_eq!(d.decoded_inst, Some((40, 1, 2, 2)));
    d.decode().execute(&None);
    assert_eq!(d.decoded_inst, Some((40, 1, 2, 2)));
}

#[test]
fn frontend_rs_holds_until_replaced() {
    let mut rs = Rs::new();
    assert!(!rs.issue_to_specific_domain().has_output());
    rs.dispatch().execute(&Some((26, 1, 2, 2, 7)));
    assert_eq!(rs.issue_to_specific_domain().output(), Some((26, 1, 2, 2, 7)));
    assert_eq!(rs.issue_to_specific_domain().output(), Some((26, 1, 2, 2, 7)));
    rs.dispatch().execute(&None);
    assert_eq!(rs.inst_to_issue, Some((26, 1, 2, 2, 7)));
}

#[test]
fn frontend_rob_allocate_dispatch_commit() {
    let mut rob = Rob::new(2);
    rob.fence_csr = true;
    assert!(rob.allocate().can_input(true));
    assert!(!rob.allocate().can_input(false));
    rob.allocate().execute(&Some((24, 1, 2, 1)));
    rob.allocate().execute(&Some((26, 3, 4, 2)));
    assert!(rob.is_rob_full());
    assert!(!rob.allocate().can_input(true));
    // a third allocation finds no idle entry and changes nothing
    rob.allocate().execute(&Some((25, 5, 6, 1)));
    assert_eq!(rob.allocated_id, 2);
    rob.dispatch().update();
    assert!(rob.fence_csr);
    // the dispatched entry is (rob_id, funct, xs1, xs2, domain), and taking
    // it leaves it held
    assert_eq!(rob.dispatch().output(), Some((0, 24, 1, 2, 1)));
    assert_eq!(rob.dispatch().output(), Some((0, 24, 1, 2, 1)));
    rob.dispatch().update();
    assert_eq!(rob.dispatch().output(), Some((1, 26, 3, 4, 2)));
    rob.dispatch().update();
    assert_eq!(rob.dispatch().output(), None);
    rob.commit().execute(&Some(0));
    assert_eq!(rob.rob_buffer[0], RobEntry { funct: 24, xs1: 1, xs2: 2, domain_id: 1, status: EntryStatus::Idle, rob_id: 0 });
    assert!(!rob.is_rob_full());
    rob.commit().execute(&Some(1));
    rob.dispatch().update();
    assert!(!rob.fence_csr);
    // the freed first entry takes the next allocation, under id 2
    rob.allocate().execute(&Some((25, 7, 8, 1)));
    assert_eq!(rob.rob_buffer[0].rob_id, 2);
    assert_eq!(rob.rob_buffer[0].status, EntryStatus::Allocated);
}

#[test]
fn decode_test_decode_funct() {
    assert_eq!(decode::decode_funct(24), 1);
    assert_eq!(decode::decode_funct(31), 0);
}

#[test]
fn test_ring_buffer() {
    let mut rb = RingBuffer::new(4);
    assert!(rb.is_empty());
    let inst1 = DecodedInstruction::new(24, 0x100, 0x200, 0);
    let inst2 = DecodedInstruction::new(25, 0x300, 0x400, 1);
    assert!(rb.push_in_rob(inst1.clone()));
    assert!(rb.push_in_rob(inst2.clone()));
    assert_eq!(rb.len(), 2);
    let popped = rb.pop_out_rob().unwrap();
    assert_eq!(popped.funct, 24);
    assert_eq!(rb.len(), 1);
}

#[test]
fn frontend_pipeline_moves_an_instruction_through() {
    let mut f = Frontend::new();
    assert_eq!(f.rob.rob_buffer.len(), 16);
    // hold back the buffer and the station: only the decoder runs
    f.rob_bp = true;
    f.rs_bp = true;
    assert!(f.new_inst().can_input(true));
    f.new_inst().execute(&Some((24, 1, 2)));
    assert_eq!(f.decoder.decoded_inst, Some((24, 1, 2, 1)));
    f.issue_inst().update();
    assert_eq!(f.decoded_inst, Some((24, 1, 2, 1)));
    assert_eq!(f.rob_dispatched_inst, None);
    assert!(!f.rob_bp);
    assert!(f.decoder_bp);
    // the decoder is held back now; the buffer allocates what was decoded
    assert!(!f.new_inst().can_input(true));
    f.new_inst().execute(&Some((26, 3, 4)));
    assert_eq!(f.decoder.decoded_inst, Some((24, 1, 2, 1)));
    assert_eq!(f.rob.rob_buffer[0].status, EntryStatus::Allocated);
    f.issue_inst().update();
    assert_eq!(f.rob_dispatched_inst, Some((0, 24, 1, 2, 1)));
    assert_eq!(f.rob.rob_buffer[0].status, EntryStatus::Inflight);
    assert!(!f.issue_inst().has_output());
    // let the station take the dispatched instruction
    f.rs_bp = false;
    f.new_inst().execute(&Some((26, 3, 4)));
    assert_eq!(f.rs.inst_to_issue, Some((0, 24, 1, 2, 1)));
    f.issue_inst().update();
    assert_eq!(f.issue_inst().output(), Some((0, 24, 1, 2, 1)));
    assert!(f.rob_bp);
    assert!(!f.decoder_bp);
}
