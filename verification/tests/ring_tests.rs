use ring_reactor::{
    CompletionEntry, Ring, RingParams, SubmissionQueue, CompletionQueue, ERR_INVALID, NO_FD,
    OP_READ, OP_TIMEOUT, TIMEOUT_MULTISHOT,
};

fn params(sq: u32, cq: u32) -> RingParams {
    RingParams {
        sq_entries: sq,
        cq_entries: cq,
        sq_ring_mask: sq.wrapping_sub(1),
        cq_ring_mask: cq.wrapping_sub(1),
        sq_off_head: 0,
        sq_off_tail: 64,
        sq_off_ring_mask: 256,
        sq_off_array: 384,
        cq_off_head: 128,
        cq_off_tail: 192,
        cq_off_ring_mask: 260,
        cq_off_cqes: 320,
    }
}

#[test]
fn completions_come_back_in_order_with_tags() {
    let mut ring = Ring::new(&params(4, 4), 0, 0).unwrap();
    ring.prepare_read(0, 0xA000, 8, 7);
    ring.prepare_timeout(0xB000, 9, TIMEOUT_MULTISHOT);
    ring.sq.note_handed(2);
    ring.cq.post(CompletionEntry { user_data: 7, res: 3 });
    ring.cq.post(CompletionEntry { user_data: 9, res: 0 });
    let first = ring.complete();
    let second = ring.complete();
    assert_eq!(first.user_data, 7);
    assert_eq!(first.res, 3);
    assert_eq!(second.user_data, 9);
    assert_eq!(second.res, 0);
    assert!(!ring.cq.has_pending());
}

#[test]
fn counters_are_monotonic_from_initial_values() {
    let mut sq = SubmissionQueue::new(4, 3, 10).unwrap();
    assert_eq!(sq.tail(), 10);
    sq.prepare(ring_reactor::SubmissionEntry::read(0, 0x1, 1, 1));
    sq.prepare(ring_reactor::SubmissionEntry::read(0, 0x2, 1, 2));
    sq.prepare(ring_reactor::SubmissionEntry::read(0, 0x3, 1, 3));
    assert_eq!(sq.tail(), 13);

    let mut cq = CompletionQueue::new(4, 3, 5).unwrap();
    assert_eq!(cq.head(), 5);
    cq.post(CompletionEntry { user_data: 1, res: 0 });
    cq.post(CompletionEntry { user_data: 2, res: 0 });
    cq.complete();
    cq.complete();
    assert_eq!(cq.head(), 7);
}

#[test]
fn slot_selection_wraps_through_the_mask() {
    let mut sq = SubmissionQueue::new(2, 1, 0).unwrap();
    let a = sq.prepare(ring_reactor::SubmissionEntry::read(0, 0x1, 1, 1));
    sq.note_handed(1);
    let b = sq.prepare(ring_reactor::SubmissionEntry::read(0, 0x2, 1, 2));
    sq.note_handed(1);
    let c = sq.prepare(ring_reactor::SubmissionEntry::read(0, 0x3, 1, 3));
    assert_eq!(a, 0);
    assert_eq!(b, 1);
    assert_eq!(c, 0);
    assert_eq!(sq.tail(), 3);
}

#[test]
fn staged_entry_lands_in_its_slot() {
    let mut ring = Ring::new(&params(2, 2), 0, 0).unwrap();
    let idx = ring.prepare(OP_READ, 5, 0xC0DE, 32, 2, 0);
    let e = ring.sq.slot(idx as usize);
    assert_eq!(e.opcode, OP_READ);
    assert_eq!(e.fd, 5);
    assert_eq!(e.addr, 0xC0DE);
    assert_eq!(e.len, 32);
    assert_eq!(e.user_data, 2);
    assert_eq!(e.timeout_flags, 0);
}

#[test]
fn timeout_entry_has_no_descriptor_and_unit_count() {
    let mut ring = Ring::new(&params(2, 2), 0, 0).unwrap();
    let idx = ring.prepare_timeout(0xD000, 1, TIMEOUT_MULTISHOT);
    let e = ring.sq.slot(idx as usize);
    assert_eq!(e.opcode, OP_TIMEOUT);
    assert_eq!(e.fd, NO_FD);
    assert_eq!(e.addr, 0xD000);
    assert_eq!(e.len, 1);
    assert_eq!(e.user_data, 1);
    assert_eq!(e.timeout_flags, TIMEOUT_MULTISHOT);
}

#[test]
fn non_power_of_two_geometry_is_rejected() {
    assert!(matches!(Ring::new(&params(3, 4), 0, 0), Err(ERR_INVALID)));
    assert!(matches!(Ring::new(&params(4, 3), 0, 0), Err(ERR_INVALID)));
    assert!(matches!(Ring::new(&params(0, 4), 0, 0), Err(ERR_INVALID)));
}

#[test]
fn mismatched_mask_is_rejected() {
    let mut p = params(4, 4);
    p.sq_ring_mask = 2;
    assert!(matches!(Ring::new(&p, 0, 0), Err(ERR_INVALID)));
    let mut p = params(4, 4);
    p.cq_ring_mask = 7;
    assert!(matches!(Ring::new(&p, 0, 0), Err(ERR_INVALID)));
}

#[test]
fn control_region_covers_both_queues() {
    let p = params(4, 8);
    // submission array ends at 384 + 4 * 4 = 400; completion entries end at
    // 320 + 8 * 16 = 448, which lies further.
    assert_eq!(p.control_region_len(), 448);
    assert_eq!(p.sqes_region_len(), 4 * 64);

    let p = params(128, 4);
    // submission array ends at 384 + 128 * 4 = 896, past 320 + 64 = 384.
    assert_eq!(p.control_region_len(), 896);
    assert_eq!(p.sqes_region_len(), 128 * 64);
}
