use bebop::arch::buckyball::rs::IssueSlots;
use bebop::buckyball::decoder::{Decoder, DecoderStep, FrontendFlags};
use bebop::buckyball::frontend::bundles::rocc_frontend::RoccInstruction;
use bebop::buckyball::frontend::unit::rob::bundles::decoder_rob::DecodedInstruction;
use bebop::buckyball::frontend::unit::rob::unit::dispatch::DispatchPolicy;
use bebop::buckyball::frontend::unit::rob::unit::ring_buffer::RingBuffer;
use bebop::buckyball::frontend::unit::rs::bundles::rob_rs::DispatchedInstruction;
use bebop::buckyball::rob::{
    allocate_entry, check_can_issue, commit_entry, dispatch_entry, find_idle_entry, init_rob, is_empty, is_full,
    EntryStatus, Rob,
};

#[test]
fn decoder_holds_fences_and_waits_for_the_rob() {
    let mut flags = FrontendFlags::new();
    let mut d = Decoder::new("i".to_string(), "r".to_string());
    assert!(d.on_instruction(&mut flags, &vec![24, 5, 6]));
    assert_eq!(d.internal_step(&flags), DecoderStep::Issue { funct: 24, xs1: 5, xs2: 6, domain_id: 1 });
    flags.rob_ready = false;
    assert_eq!(d.internal_step(&flags), DecoderStep::Retry);
    flags.rob_ready = true;
    assert!(!d.on_instruction(&mut flags, &vec![31, 0, 0]));
    assert!(flags.fence);
    assert_eq!(d.internal_step(&flags), DecoderStep::Retry);
}

#[test]
fn rob_entries_cycle_through_their_states() {
    let mut buf = init_rob(3);
    assert!(is_empty(&buf));
    assert_eq!(find_idle_entry(&buf), 0);
    assert_eq!(allocate_entry(&mut buf, 24, 1, 2, 1), 0);
    assert_eq!(allocate_entry(&mut buf, 40, 3, 4, 2), 1);
    let mut slots = IssueSlots::new();
    assert!(check_can_issue(24, &slots));
    assert!(!check_can_issue(23, &slots));
    assert_eq!(dispatch_entry(&mut buf, &slots), Some((24, 1, 2, 1, 0)));
    assert_eq!(buf[0].status, EntryStatus::Inflight);
    // funct 40 has no unit
    assert_eq!(dispatch_entry(&mut buf, &slots), None);
    slots.mvin.can_issue = false;
    assert_eq!(allocate_entry(&mut buf, 24, 5, 6, 1), 2);
    assert!(is_full(&buf));
    assert_eq!(dispatch_entry(&mut buf, &slots), None);
    commit_entry(&mut buf, 0);
    assert_eq!(buf[0].status, EntryStatus::Idle);
    assert_eq!(find_idle_entry(&buf), 0);
    commit_entry(&mut buf, 7);
    assert!(!is_full(&buf));
}

#[test]
fn rob_ends_a_fence_once_drained() {
    let mut flags = FrontendFlags::new();
    let mut rob = Rob::new(2, "d".to_string(), "rs".to_string(), "c".to_string(), &mut flags);
    let slots = IssueSlots::new();
    assert_eq!(rob.on_instruction(&mut flags, &vec![24, 0, 0, 1]), 0);
    assert_eq!(rob.on_instruction(&mut flags, &vec![25, 0, 0, 1]), 1);
    assert!(!flags.rob_ready);
    flags.fence = true;
    let step = rob.internal_step(&mut flags, &slots);
    assert!(!step.fence_done);
    assert_eq!(step.dispatched, Some((24, 0, 0, 1, 0)));
    rob.on_commit(&mut flags, 0);
    assert!(flags.rob_ready);
    let step = rob.internal_step(&mut flags, &slots);
    assert_eq!(step.dispatched, Some((25, 0, 0, 1, 1)));
    rob.on_commit(&mut flags, 1);
    let step = rob.internal_step(&mut flags, &slots);
    assert!(step.fence_done);
    assert!(!flags.fence);
    assert_eq!(step.dispatched, None);
}

#[test]
fn ring_buffer_wraps_around_in_order() {
    let mut rb = RingBuffer::new(2);
    let a = DecodedInstruction::new(1, 0, 0, 0);
    let b = DecodedInstruction::new(2, 0, 0, 0);
    let c = DecodedInstruction::new(3, 0, 0, 255);
    assert!(rb.push_in_rob(a));
    assert!(rb.push_in_rob(b));
    assert!(rb.is_full());
    assert!(!rb.push_in_rob(c));
    assert_eq!(rb.pop_out_rob(), Some(a));
    assert!(rb.push_in_rob(c));
    assert_eq!(rb.peek(), Some(&b));
    assert_eq!(rb.pop_out_rob(), Some(b));
    assert_eq!(rb.pop_out_rob(), Some(c));
    assert_eq!(rb.pop_out_rob(), None);
    assert_eq!(rb.capacity(), 2);
    assert!(DispatchPolicy::can_dispatch(&a));
    assert!(!DispatchPolicy::can_dispatch(&c));
    let mut empty = RingBuffer::new(0);
    assert!(!empty.push_in_rob(a));
    assert_eq!(empty.pop_out_rob(), None);
}

#[test]
fn bundles_keep_their_fields() {
    let r = RoccInstruction::new(24, 1, 2);
    assert_eq!((r.funct, r.xs1, r.xs2), (24, 1, 2));
    let d = DispatchedInstruction::new(25, 3, 4, 1, 7);
    assert_eq!((d.funct, d.xs1, d.xs2, d.domain_id, d.rob_id), (25, 3, 4, 1, 7));
}
