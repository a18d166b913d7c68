use ring_reactor::{
    Action, CompletionEntry, Reactor, Ring, RingParams, WaitStep, ERR_INTERRUPTED, OP_READ,
    QUIT_CHAR, QUIT_INTERRUPT, TOKEN_READ, TOKEN_TIMER,
};

fn params2() -> RingParams {
    RingParams {
        sq_entries: 2,
        cq_entries: 2,
        sq_ring_mask: 1,
        cq_ring_mask: 1,
        sq_off_head: 0,
        sq_off_tail: 64,
        sq_off_ring_mask: 256,
        sq_off_array: 384,
        cq_off_head: 128,
        cq_off_tail: 192,
        cq_off_ring_mask: 260,
        cq_off_cqes: 320,
    }
}

fn started_reactor(now: i64) -> Reactor {
    let ring = Ring::new(&params2(), 0, 0).unwrap();
    let mut reactor = Reactor::new(ring, 0, 0x1000, 32, 0x2000, now);
    reactor.note_submitted(2);
    reactor
}

#[test]
fn startup_stages_read_then_timer() {
    let ring = Ring::new(&params2(), 0, 0).unwrap();
    let reactor = Reactor::new(ring, 0, 0x1000, 32, 0x2000, 100);
    assert_eq!(reactor.ring.sq.tail(), 2);
    let read = reactor.ring.sq.slot(0);
    assert_eq!(read.user_data, TOKEN_READ);
    assert_eq!(read.opcode, OP_READ);
    assert_eq!(read.addr, 0x1000);
    assert_eq!(read.len, 32);
    let timer = reactor.ring.sq.slot(1);
    assert_eq!(timer.user_data, TOKEN_TIMER);
    assert_eq!(timer.addr, 0x2000);
    assert_eq!(timer.len, 1);
}

#[test]
fn one_second_with_no_input_yields_one_timer_completion() {
    let mut reactor = started_reactor(100);
    // after one second the kernel reports the timer and nothing else
    reactor.ring.cq.post(CompletionEntry { user_data: TOKEN_TIMER, res: 1 });
    assert!(reactor.ring.cq.has_pending());
    let cqe = reactor.ring.complete();
    assert_eq!(cqe.user_data, TOKEN_TIMER);
    let tail_before = reactor.ring.sq.tail();
    let act = reactor.handle_completion(cqe, 101, 0);
    assert_eq!(act, Action::Redraw);
    assert_eq!(reactor.seconds, 101);
    assert!(!reactor.done);
    // no read completion was observed and nothing new was staged
    assert!(!reactor.ring.cq.has_pending());
    assert_eq!(reactor.ring.sq.tail(), tail_before);
}

#[test]
fn quit_byte_ends_loop_without_restaging() {
    let mut reactor = started_reactor(100);
    // a single byte arrives on standalone input
    reactor.ring.cq.post(CompletionEntry { user_data: TOKEN_READ, res: 1 });
    let cqe = reactor.ring.complete();
    assert_eq!(cqe.user_data, TOKEN_READ);
    assert_eq!(cqe.res, 1);
    let tail_before = reactor.ring.sq.tail();
    let act = reactor.handle_completion(cqe, 100, b'q');
    assert_eq!(act, Action::Quit);
    assert!(reactor.done);
    assert_eq!(reactor.ring.sq.tail(), tail_before);
}

#[test]
fn interrupt_character_also_ends_loop() {
    let mut reactor = started_reactor(100);
    reactor.ring.cq.post(CompletionEntry { user_data: TOKEN_READ, res: 1 });
    let cqe = reactor.ring.complete();
    let act = reactor.handle_completion(cqe, 100, QUIT_INTERRUPT);
    assert_eq!(act, Action::Quit);
    assert!(reactor.done);
}

#[test]
fn other_input_restages_the_read_with_the_same_tag() {
    let mut reactor = started_reactor(100);
    reactor.ring.cq.post(CompletionEntry { user_data: TOKEN_READ, res: 1 });
    let cqe = reactor.ring.complete();
    let tail_before = reactor.ring.sq.tail();
    let act = reactor.handle_completion(cqe, 100, b'x');
    assert_eq!(act, Action::Rearmed);
    assert!(!reactor.done);
    assert_eq!(reactor.ring.sq.tail(), tail_before + 1);
    let idx = (tail_before & 1) as usize;
    let e = reactor.ring.sq.slot(idx);
    assert_eq!(e.user_data, TOKEN_READ);
    assert_eq!(e.opcode, OP_READ);
    assert_eq!(e.addr, 0x1000);
    assert_eq!(e.len, 32);
}

#[test]
fn quit_needs_exactly_one_byte() {
    let mut reactor = started_reactor(100);
    // two bytes read, the first of them the quit character: not a quit
    reactor.ring.cq.post(CompletionEntry { user_data: TOKEN_READ, res: 2 });
    let cqe = reactor.ring.complete();
    let act = reactor.handle_completion(cqe, 100, b'q');
    assert_eq!(act, Action::Rearmed);
    assert!(!reactor.done);
    assert!(!Reactor::quit_byte(0, QUIT_CHAR));
    assert!(!Reactor::quit_byte(2, QUIT_CHAR));
    assert!(Reactor::quit_byte(1, QUIT_CHAR));
    assert!(Reactor::quit_byte(1, QUIT_INTERRUPT));
    assert!(!Reactor::quit_byte(1, b'x'));
}

#[test]
fn unknown_tag_is_a_protocol_violation() {
    let mut reactor = started_reactor(100);
    reactor.ring.cq.post(CompletionEntry { user_data: 99, res: 0 });
    let cqe = reactor.ring.complete();
    let tail_before = reactor.ring.sq.tail();
    let act = reactor.handle_completion(cqe, 100, 0);
    assert_eq!(act, Action::Fatal);
    assert_eq!(reactor.ring.sq.tail(), tail_before);
}

#[test]
fn interrupted_wait_refreshes_and_keeps_staged_submissions() {
    let mut reactor = started_reactor(100);
    let tail_before = reactor.ring.sq.tail();
    // two interruptions in a row: each one demands a refresh, nothing is lost
    assert_eq!(reactor.on_wait_result(Err(ERR_INTERRUPTED)), WaitStep::Refresh);
    assert_eq!(reactor.on_wait_result(Err(ERR_INTERRUPTED)), WaitStep::Refresh);
    assert_eq!(reactor.ring.sq.tail(), tail_before);
    assert_eq!(reactor.seconds, 100);
    // the retried wait then succeeds without anything resubmitted
    reactor.ring.cq.post(CompletionEntry { user_data: TOKEN_TIMER, res: 1 });
    assert_eq!(reactor.on_wait_result(Ok(1)), WaitStep::Ready);
    let cqe = reactor.ring.complete();
    assert_eq!(cqe.user_data, TOKEN_TIMER);
}

#[test]
fn other_wait_failures_are_fatal() {
    let mut reactor = started_reactor(100);
    assert_eq!(reactor.on_wait_result(Err(5)), WaitStep::Fatal);
    assert_eq!(reactor.on_wait_result(Err(-1)), WaitStep::Fatal);
    assert_eq!(reactor.on_wait_result(Ok(0)), WaitStep::Ready);
}

#[test]
fn long_session_wraps_both_rings() {
    let mut reactor = started_reactor(100);
    let mut now = 100;
    // several timer fires and non-quit keystrokes in alternation, enough to
    // wrap both rings of capacity two several times over
    for round in 0..5 {
        now += 1;
        reactor.ring.cq.post(CompletionEntry { user_data: TOKEN_TIMER, res: 1 });
        let cqe = reactor.ring.complete();
        assert_eq!(cqe.user_data, TOKEN_TIMER);
        assert_eq!(reactor.handle_completion(cqe, now, 0), Action::Redraw);
        assert_eq!(reactor.seconds, now);

        reactor.ring.cq.post(CompletionEntry { user_data: TOKEN_READ, res: 1 });
        let cqe = reactor.ring.complete();
        assert_eq!(cqe.user_data, TOKEN_READ);
        assert_eq!(reactor.handle_completion(cqe, now, b'a'), Action::Rearmed);
        reactor.note_submitted(1);
        // counters never reset: initial two plus one re-arm per round
        assert_eq!(reactor.ring.sq.tail(), 2 + round + 1);
    }
    // the quit byte then ends the session with nothing further staged
    reactor.ring.cq.post(CompletionEntry { user_data: TOKEN_READ, res: 1 });
    let cqe = reactor.ring.complete();
    let tail_before = reactor.ring.sq.tail();
    assert_eq!(reactor.handle_completion(cqe, now, b'q'), Action::Quit);
    assert!(reactor.done);
    assert_eq!(reactor.ring.sq.tail(), tail_before);
    assert_eq!(reactor.ring.cq.head(), 11);
}
