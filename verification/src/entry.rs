use vstd::prelude::*;

verus! {

/// Operation code for a read from a file descriptor, as the kernel ring ABI
/// numbers it.
pub const OP_READ: u8 = 22;

/// Operation code for a timeout, as the kernel ring ABI numbers it.
pub const OP_TIMEOUT: u8 = 11;

/// Sentinel descriptor for operations that target no file descriptor.
pub const NO_FD: i32 = -1;

/// Flag bit selecting a multishot timeout: the kernel keeps re-firing the one
/// submission instead of requiring a resubmission after each fire.
pub const TIMEOUT_MULTISHOT: u32 = 64;

/// One fixed-size submission record: what is written into a submission-queue
/// slot and handed to the kernel.
#[derive(Clone, Copy, PartialEq, Eq, Structural, Debug)]
pub struct SubmissionEntry {
    /// Operation code.
    pub opcode: u8,
    /// Target descriptor, or `NO_FD` for operations without one.
    pub fd: i32,
    /// Buffer address, or the address of a duration record for timeouts.
    pub addr: u64,
    /// Byte length of the buffer, or a count of one for timeouts.
    pub len: u32,
    /// Caller-chosen correlation tag, echoed back in the completion.
    pub user_data: u64,
    /// Operation-specific flag word.
    pub timeout_flags: u32,
}

/// One fixed-size completion record: what the kernel writes into a
/// completion-queue slot.
#[derive(Clone, Copy, PartialEq, Eq, Structural, Debug)]
pub struct CompletionEntry {
    /// The correlation tag echoed back from the submission.
    pub user_data: u64,
    /// Non-negative success payload (bytes read, repeat count), or a negated
    /// OS error code.
    pub res: i32,
}

impl SubmissionEntry {
    /// Builds the record for a read of up to `len` bytes from `fd` into the
    /// buffer at `addr`, tagged `user_data`.
    pub fn read(fd: i32, addr: u64, len: u32, user_data: u64) -> (e: SubmissionEntry)
        ensures
            e == (SubmissionEntry {
                opcode: OP_READ,
                fd: fd,
                addr: addr,
                len: len,
                user_data: user_data,
                timeout_flags: 0,
            }),
    {
        SubmissionEntry { opcode: OP_READ, fd, addr, len, user_data, timeout_flags: 0 }
    }

    /// Builds the record for a timeout: no descriptor, the address of a
    /// duration record, a count of one, and the given flag word.
    pub fn timeout(duration_addr: u64, user_data: u64, flags: u32) -> (e: SubmissionEntry)
        ensures
            e == (SubmissionEntry {
                opcode: OP_TIMEOUT,
                fd: NO_FD,
                addr: duration_addr,
                len: 1,
                user_data: user_data,
                timeout_flags: flags,
            }),
    {
        SubmissionEntry {
            opcode: OP_TIMEOUT,
            fd: NO_FD,
            addr: duration_addr,
            len: 1,
            user_data,
            timeout_flags: flags,
        }
    }
}

} // verus!
