use vstd::prelude::*;

use crate::entry::{
    CompletionEntry, SubmissionEntry, NO_FD, OP_READ, OP_TIMEOUT, TIMEOUT_MULTISHOT,
};
use crate::ring::Ring;

verus! {

/// Correlation tag of the recurring timer submission.
pub const TOKEN_TIMER: u64 = 1;

/// Correlation tag of the standalone-input read submission.
pub const TOKEN_READ: u64 = 2;

/// The interrupt character: the first terminator byte that ends the loop.
pub const QUIT_INTERRUPT: u8 = 27;

/// The literal character `q`: the second terminator byte that ends the loop.
pub const QUIT_CHAR: u8 = 113;

/// Error code of a wait interrupted by a signal: not a failure, but the
/// condition that demands a refresh-callback invocation and a retry.
pub const ERR_INTERRUPTED: i32 = 4;

/// Error code reported for a completion bearing a correlation tag that was
/// never submitted: a protocol violation.
pub const ERR_PROTOCOL: i32 = 5;

/// What the loop must do with the result of a blocking wait.
#[derive(Clone, Copy, PartialEq, Eq, Structural, Debug)]
pub enum WaitStep {
    /// The wait succeeded: at least one completion is available.
    Ready,
    /// The wait was interrupted by a signal: invoke the refresh callback and
    /// retry the wait; nothing staged is lost.
    Refresh,
    /// The wait failed for any other reason: fatal, terminate the loop.
    Fatal,
}

/// What the loop must do after one completion was dispatched.
#[derive(Clone, Copy, PartialEq, Eq, Structural, Debug)]
pub enum Action {
    /// A timer completion: the current time was refreshed; invoke the
    /// refresh callback, hand off nothing new, and loop.
    Redraw,
    /// A read completion without the quit condition: a new read submission
    /// was staged; hand off one entry and loop.
    Rearmed,
    /// A read completion reporting the quit byte as the sole byte: clean
    /// shutdown, nothing further staged.
    Quit,
    /// A completion bearing an unknown correlation tag: a bookkeeping bug,
    /// not recoverable.
    Fatal,
}

/// Whether a read completion ends the loop: exactly one byte was read and it
/// is a terminator (the interrupt character or the literal `q`).
pub open spec fn quit_requested(res: i32, first_byte: u8) -> bool {
    res == 1 && (first_byte == QUIT_INTERRUPT || first_byte == QUIT_CHAR)
}

/// Every entry of a staging log bears one of the reactor's two tags. The
/// reactor keeps this true of everything it ever stages, which is why a
/// completion bearing any other tag can only be a bookkeeping bug.
pub open spec fn only_reactor_tags(s: Seq<SubmissionEntry>) -> bool {
    forall|i: int|
        0 <= i < s.len() ==> ((#[trigger] s[i]).user_data == TOKEN_TIMER || s[i].user_data
            == TOKEN_READ)
}

/// The event loop over the ring: a fixed set of two live submissions (one
/// recurring timer, one standalone-input read), each identified by its
/// correlation tag. The embedding performs the blocking enter call, mirrors
/// ring state, reads the input buffer and runs the refresh callback; every
/// decision is made here.
pub struct Reactor {
    /// The ring pair the loop produces into and consumes from.
    pub ring: Ring,
    /// The standalone-input descriptor reads are submitted against.
    pub read_fd: i32,
    /// Address of the caller-owned input buffer.
    pub buf_addr: u64,
    /// Byte length of the caller-owned input buffer.
    pub buf_len: u32,
    /// Address of the caller-owned duration record of the timer.
    pub timer_addr: u64,
    /// Elapsed seconds since the epoch, as last refreshed.
    pub seconds: i64,
    /// Whether the quit condition was observed.
    pub done: bool,
}

impl Reactor {
    /// The read submission the reactor stages: always the same descriptor,
    /// the same buffer, and the read tag.
    pub open spec fn read_entry(&self) -> SubmissionEntry {
        SubmissionEntry {
            opcode: OP_READ,
            fd: self.read_fd,
            addr: self.buf_addr,
            len: self.buf_len,
            user_data: TOKEN_READ,
            timeout_flags: 0,
        }
    }

    /// The timer submission the reactor stages once at startup: no
    /// descriptor, the duration record, a count of one, the multishot bit,
    /// and the timer tag.
    pub open spec fn timer_entry(&self) -> SubmissionEntry {
        SubmissionEntry {
            opcode: OP_TIMEOUT,
            fd: NO_FD,
            addr: self.timer_addr,
            len: 1,
            user_data: TOKEN_TIMER,
            timeout_flags: TIMEOUT_MULTISHOT,
        }
    }

    /// Startup: stages the standalone-input read and the multishot timer,
    /// in that order, leaving both to be handed off in one enter call.
    pub fn new(
        ring: Ring,
        read_fd: i32,
        buf_addr: u64,
        buf_len: u32,
        timer_addr: u64,
        now: i64,
    ) -> (r: Reactor)
        requires
            ring.sq.wf(),
            ring.sq.unhanded() == 0,
            ring.sq.capacity() >= 2,
            ring.sq.tail_counter() as int + 2 <= u32::MAX,
        ensures
            r.ring.sq.wf(),
            r.ring.cq == ring.cq,
            r.read_fd == read_fd,
            r.buf_addr == buf_addr,
            r.buf_len == buf_len,
            r.timer_addr == timer_addr,
            r.seconds == now,
            !r.done,
            r.ring.sq.staged() == ring.sq.staged().push(r.read_entry()).push(r.timer_entry()),
            only_reactor_tags(ring.sq.staged()) ==> only_reactor_tags(r.ring.sq.staged()),
            r.ring.sq.tail_counter() == ring.sq.tail_counter() + 2,
            r.ring.sq.initial_tail() == ring.sq.initial_tail(),
            r.ring.sq.unhanded() == 2,
            r.ring.sq.capacity() == ring.sq.capacity(),
    {
        let mut r = Reactor {
            ring,
            read_fd,
            buf_addr,
            buf_len,
            timer_addr,
            seconds: now,
            done: false,
        };
        r.ring.prepare_read(read_fd, buf_addr, buf_len, TOKEN_READ);
        r.ring.prepare_timeout(timer_addr, TOKEN_TIMER, TIMEOUT_MULTISHOT);
        r
    }

    /// Classifies the result of a blocking wait. An interruption by a signal
    /// is not a failure: the refresh callback must be invoked at least once
    /// and the wait retried; the reactor's state, and with it everything
    /// already staged, is left exactly as it was, so the retried wait needs
    /// no resubmission.
    pub fn on_wait_result(&mut self, res: Result<i32, i32>) -> (s: WaitStep)
        ensures
            *final(self) == *old(self),
            (s == WaitStep::Ready) <==> res is Ok,
            (s == WaitStep::Refresh) <==> res == Err::<i32, i32>(ERR_INTERRUPTED),
            (s == WaitStep::Fatal) <==> (res is Err && res != Err::<i32, i32>(ERR_INTERRUPTED)),
    {
        match res {
            Ok(_) => WaitStep::Ready,
            Err(e) => {
                if e == ERR_INTERRUPTED {
                    WaitStep::Refresh
                } else {
                    WaitStep::Fatal
                }
            },
        }
    }

    /// Dispatches one consumed completion on its correlation tag.
    ///
    /// A timer completion refreshes the current time to `now` and asks for a
    /// redraw, staging nothing. A read completion reporting the quit byte as
    /// the sole byte ends the loop with nothing further staged; any other
    /// read completion stages a new read submission, with the same tag and
    /// the same buffer, to be handed off before the next wait. Any other tag
    /// is a protocol violation and fatal.
    ///
    /// `first_byte` is the first byte of the caller-owned input buffer as
    /// the kernel left it; it decides nothing unless the completion is a
    /// read of exactly one byte.
    pub fn handle_completion(&mut self, cqe: CompletionEntry, now: i64, first_byte: u8) -> (a:
        Action)
        requires
            old(self).ring.sq.wf(),
            !old(self).done,
            old(self).ring.sq.unhanded() == 0,
            old(self).ring.sq.tail_counter() < u32::MAX,
        ensures
            final(self).ring.sq.wf(),
            final(self).ring.cq == old(self).ring.cq,
            final(self).read_fd == old(self).read_fd,
            final(self).buf_addr == old(self).buf_addr,
            final(self).buf_len == old(self).buf_len,
            final(self).timer_addr == old(self).timer_addr,
            final(self).ring.sq.initial_tail() == old(self).ring.sq.initial_tail(),
            final(self).ring.sq.capacity() == old(self).ring.sq.capacity(),
            only_reactor_tags(old(self).ring.sq.staged()) ==> only_reactor_tags(
                final(self).ring.sq.staged(),
            ),
            cqe.user_data == TOKEN_TIMER ==> {
                &&& a == Action::Redraw
                &&& final(self).seconds == now
                &&& !final(self).done
                &&& final(self).ring.sq == old(self).ring.sq
            },
            (cqe.user_data == TOKEN_READ && quit_requested(cqe.res, first_byte)) ==> {
                &&& a == Action::Quit
                &&& final(self).done
                &&& final(self).seconds == old(self).seconds
                &&& final(self).ring.sq == old(self).ring.sq
            },
            (cqe.user_data == TOKEN_READ && !quit_requested(cqe.res, first_byte)) ==> {
                &&& a == Action::Rearmed
                &&& !final(self).done
                &&& final(self).seconds == old(self).seconds
                &&& final(self).ring.sq.staged() == old(self).ring.sq.staged().push(
                    old(self).read_entry(),
                )
                &&& final(self).ring.sq.tail_counter() == old(self).ring.sq.tail_counter() + 1
                &&& final(self).ring.sq.unhanded() == 1
            },
            (cqe.user_data != TOKEN_TIMER && cqe.user_data != TOKEN_READ) ==> {
                &&& a == Action::Fatal
                &&& *final(self) == *old(self)
            },
    {
        if cqe.user_data == TOKEN_TIMER {
            self.seconds = now;
            Action::Redraw
        } else if cqe.user_data == TOKEN_READ {
            if cqe.res == 1 && (first_byte == QUIT_INTERRUPT || first_byte == QUIT_CHAR) {
                self.done = true;
                Action::Quit
            } else {
                proof {
                    self.ring.sq.lemma_capacity_pos();
                }
                self.ring.prepare_read(self.read_fd, self.buf_addr, self.buf_len, TOKEN_READ);
                Action::Rearmed
            }
        } else {
            Action::Fatal
        }
    }

    /// Records that the enter call accepted `n` staged entries, freeing
    /// their slots.
    pub fn note_submitted(&mut self, n: u32)
        requires
            old(self).ring.sq.wf(),
            n as nat <= old(self).ring.sq.unhanded(),
        ensures
            final(self).ring.sq.wf(),
            final(self).ring.cq == old(self).ring.cq,
            final(self).read_fd == old(self).read_fd,
            final(self).buf_addr == old(self).buf_addr,
            final(self).buf_len == old(self).buf_len,
            final(self).timer_addr == old(self).timer_addr,
            final(self).seconds == old(self).seconds,
            final(self).done == old(self).done,
            final(self).ring.sq.staged() == old(self).ring.sq.staged(),
            final(self).ring.sq.tail_counter() == old(self).ring.sq.tail_counter(),
            final(self).ring.sq.initial_tail() == old(self).ring.sq.initial_tail(),
            final(self).ring.sq.unhanded() == old(self).ring.sq.unhanded() - n as nat,
            final(self).ring.sq.capacity() == old(self).ring.sq.capacity(),
    {
        self.ring.sq.note_handed(n);
    }

    /// Whether a read completion ends the loop, as an executable test.
    pub fn quit_byte(res: i32, first_byte: u8) -> (b: bool)
        ensures
            b == quit_requested(res, first_byte),
    {
        res == 1 && (first_byte == QUIT_INTERRUPT || first_byte == QUIT_CHAR)
    }
}

} // verus!

