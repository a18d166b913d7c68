//! A reactor over a kernel asynchronous I/O completion ring.
//!
//! The library models the shared-memory submission/completion queue pair as
//! plain values: monotonic producer/consumer counters, power-of-two masks,
//! and fixed-size entry records. The submission encoder, completion decoder
//! and the event-loop state machine are verified against that model; the
//! embedding program mirrors the staged state into the kernel-mapped pages
//! and performs the blocking system calls.

mod entry;
mod geometry;
mod reactor;
mod ring;
mod writer;

pub use entry::{
    CompletionEntry, SubmissionEntry, NO_FD, OP_READ, OP_TIMEOUT, TIMEOUT_MULTISHOT,
};
pub use geometry::{RingParams, CQE_SIZE, INDEX_WORD_SIZE, SQE_SIZE};
pub use reactor::{
    only_reactor_tags, quit_requested, Action, Reactor, WaitStep, ERR_INTERRUPTED, ERR_PROTOCOL,
    QUIT_CHAR, QUIT_INTERRUPT, TOKEN_READ, TOKEN_TIMER,
};
pub use ring::{
    lemma_completions_in_order, lemma_counters_advance, lemma_tag_round_trip, valid_geometry,
    CompletionQueue, Ring, SubmissionQueue, ERR_INVALID,
};
pub use writer::{
    cursor_move, cursor_move_bytes, dec_digits, lemma_dec_digits_len, u64_to_dec, write_u64,
    ArrayWriter, BufWriter, Direction, FdReader, FdWriter, Write, STDERR, STDIN, STDOUT,
};
