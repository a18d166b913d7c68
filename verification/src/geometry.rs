use vstd::prelude::*;

verus! {

/// Byte size of one submission-entry record, fixed by the ring ABI.
pub const SQE_SIZE: u64 = 64;

/// Byte size of one completion-entry record, fixed by the ring ABI.
pub const CQE_SIZE: u64 = 16;

/// Byte size of one word of the submission index-translation array.
pub const INDEX_WORD_SIZE: u64 = 4;

/// The ring geometry the kernel negotiates at creation: entry counts, masks,
/// and per-field byte offsets into the control page. These offsets are an
/// ABI contract read back from the creation call, never fixed constants.
#[derive(Clone, Copy, PartialEq, Eq, Structural, Debug)]
pub struct RingParams {
    /// Number of submission slots.
    pub sq_entries: u32,
    /// Number of completion slots.
    pub cq_entries: u32,
    /// Submission ring mask: entry count less one.
    pub sq_ring_mask: u32,
    /// Completion ring mask: entry count less one.
    pub cq_ring_mask: u32,
    /// Offset of the submission head index in the control page.
    pub sq_off_head: u32,
    /// Offset of the submission tail index in the control page.
    pub sq_off_tail: u32,
    /// Offset of the submission ring mask in the control page.
    pub sq_off_ring_mask: u32,
    /// Offset of the submission index-translation array in the control page.
    pub sq_off_array: u32,
    /// Offset of the completion head index in the control page.
    pub cq_off_head: u32,
    /// Offset of the completion tail index in the control page.
    pub cq_off_tail: u32,
    /// Offset of the completion ring mask in the control page.
    pub cq_off_ring_mask: u32,
    /// Offset of the completion-entry array in the control page.
    pub cq_off_cqes: u32,
}

impl RingParams {
    /// Where the submission index-translation array ends in the control page.
    pub open spec fn sq_array_end(&self) -> int {
        self.sq_off_array + self.sq_entries * INDEX_WORD_SIZE
    }

    /// Where the completion-entry array ends in the control page.
    pub open spec fn cq_entries_end(&self) -> int {
        self.cq_off_cqes + self.cq_entries * CQE_SIZE
    }

    /// The byte length of the control-page mapping: it must cover both the
    /// end of the submission index-translation array and the end of the
    /// completion-entry array, whichever lies further.
    pub fn control_region_len(&self) -> (r: u64)
        ensures
            r == if self.sq_array_end() >= self.cq_entries_end() {
                self.sq_array_end()
            } else {
                self.cq_entries_end()
            },
            r >= self.sq_array_end(),
            r >= self.cq_entries_end(),
    {
        let a = self.sq_off_array as u64 + self.sq_entries as u64 * INDEX_WORD_SIZE;
        let b = self.cq_off_cqes as u64 + self.cq_entries as u64 * CQE_SIZE;
        if a >= b {
            a
        } else {
            b
        }
    }

    /// The byte length of the separately mapped submission-entry array.
    pub fn sqes_region_len(&self) -> (r: u64)
        ensures
            r == self.sq_entries * SQE_SIZE,
    {
        self.sq_entries as u64 * SQE_SIZE
    }
}

} // verus!
