use vstd::prelude::*;

use vstd::arithmetic::div_mod::{lemma_mod_equivalence, lemma_small_mod};
use vstd::arithmetic::power2::{lemma2_to64, lemma_pow2_strictly_increases, pow2};
use vstd::bits::{lemma_u32_low_bits_mask_is_mod, low_bits_mask};

use crate::entry::{CompletionEntry, SubmissionEntry};
use crate::geometry::RingParams;

verus! {

/// Error code for a negotiated ring geometry that is not usable: an entry
/// count that is not a power of two, or a mask that is not the entry count
/// less one.
pub const ERR_INVALID: i32 = 22;

/// If two counter values are less than one ring length apart, they select
/// different slots.
proof fn lemma_distinct_slots(a: int, b: int, m: int)
    requires
        0 < m,
        a < b,
        b - a < m,
    ensures
        a % m != b % m,
{
    if a % m == b % m {
        lemma_mod_equivalence(b, a, m);
        lemma_small_mod((b - a) as nat, m as nat);
    }
}

/// Finds the exponent that makes `entries` a power of two, if there is one.
fn find_pow2_exponent(entries: u32) -> (r: Option<u32>)
    ensures
        r is Some ==> (r.unwrap() < 32 && entries as nat == pow2(r.unwrap() as nat)),
        r is None ==> forall|j: nat| j < 32 ==> entries as nat != pow2(j),
{
    let mut k: u32 = 0;
    let mut v: u32 = 1;
    proof {
        lemma2_to64();
    }
    while v < entries && k < 31
        invariant
            k <= 31,
            v as nat == pow2(k as nat),
            v <= 0x8000_0000u32,
            forall|j: nat| j < k ==> pow2(j) < entries as nat,
        decreases 31 - k,
    {
        proof {
            lemma_pow2_strictly_increases(k as nat, 31);
            lemma2_to64();
        }
        v = v * 2;
        k = k + 1;
        assert(v as nat == pow2(k as nat)) by {
            vstd::arithmetic::power2::lemma_pow2_unfold(k as nat);
        }
        assert(forall|j: nat| j < k ==> pow2(j) < entries as nat) by {
            assert(pow2((k - 1) as nat) < entries as nat);
            assert forall|j: nat| j < k implies pow2(j) < entries as nat by {
                if j < k - 1 {
                } else {
                    assert(j == k - 1);
                }
            }
        }
    }
    if v == entries {
        Some(k)
    } else {
        assert forall|j: nat| j < 32 implies entries as nat != pow2(j) by {
            if j < k as nat {
            } else if j == k as nat {
            } else {
                lemma_pow2_strictly_increases(k as nat, j);
                if k == 31 {
                } else {
                    assert(v >= entries);
                }
            }
        }
        None
    }
}

/// A usable ring geometry: the entry count is a power of two and the mask is
/// the entry count less one, so that `counter & mask` selects a slot.
pub open spec fn valid_geometry(entries: u32, mask: u32) -> bool {
    exists|j: nat| j < 32 && entries as nat == pow2(j) && mask as nat == entries as nat - 1
}

/// The application-owned producer side of the ring: the submission queue.
///
/// The shared control page holds the tail index, the mask and the
/// index-translation array; the separately mapped slot array holds the
/// entries. This type carries those as plain values together with a log of
/// every entry ever staged; the embedding mirrors each staged slot, the
/// translation array word and the advanced tail into the kernel-mapped
/// pages, publishing the entry fields with a fence before the tail store.
pub struct SubmissionQueue {
    mask: u32,
    tail: u32,
    handed: u32,
    slots: Vec<SubmissionEntry>,
    array: Vec<u32>,
    exp: Ghost<nat>,
    tail0: Ghost<u32>,
    log: Ghost<Seq<SubmissionEntry>>,
}

impl SubmissionQueue {
    /// Every entry ever staged, in staging order.
    pub closed spec fn staged(&self) -> Seq<SubmissionEntry> {
        self.log@
    }

    /// The free-running producer index owned by the application.
    pub closed spec fn tail_counter(&self) -> u32 {
        self.tail
    }

    /// The producer index the queue was created with.
    pub closed spec fn initial_tail(&self) -> u32 {
        self.tail0@
    }

    /// How many staged entries have not yet been handed to the kernel.
    pub closed spec fn unhanded(&self) -> nat {
        (self.tail - self.handed) as nat
    }

    /// The number of slots.
    pub closed spec fn capacity(&self) -> nat {
        self.slots@.len()
    }

    /// The entry record in a given slot.
    pub closed spec fn slot_spec(&self, i: int) -> SubmissionEntry {
        self.slots@[i]
    }

    /// The queue's invariant: the mask matches the power-of-two slot count,
    /// the tail equals the initial index plus everything staged, no more
    /// than one ring of entries is outstanding, and every entry staged but
    /// not yet handed off sits in the slot its counter value selects, with
    /// its slot index published in the translation array.
    pub closed spec fn wf(&self) -> bool {
        &&& self.exp@ < 32
        &&& self.mask as nat == low_bits_mask(self.exp@)
        &&& self.slots@.len() == pow2(self.exp@)
        &&& self.array@.len() == self.slots@.len()
        &&& self.tail0@ <= self.handed <= self.tail
        &&& self.tail == self.tail0@ + self.log@.len()
        &&& self.tail - self.handed <= self.slots@.len()
        &&& forall|j: int|
            self.handed - self.tail0@ <= j < self.log@.len() ==> {
                &&& self.slots@[(self.tail0@ + j) % (self.slots@.len() as int)] == #[trigger] self.log@[j]
                &&& self.array@[(self.tail0@ + j) % (self.slots@.len() as int)] == ((
                self.tail0@ + j) % (self.slots@.len() as int)) as u32
            }
    }

    /// A well-formed queue has at least one slot.
    pub proof fn lemma_capacity_pos(&self)
        requires
            self.wf(),
        ensures
            self.capacity() > 0,
    {
        vstd::arithmetic::power2::lemma_pow2_pos(self.exp@);
    }

    /// Opens the producer side over a negotiated geometry, with the initial
    /// producer index read back from the control page. Rejects a geometry
    /// whose entry count is not a power of two or whose mask does not match.
    pub fn new(entries: u32, mask: u32, initial_tail: u32) -> (r: Result<SubmissionQueue, i32>)
        ensures
            r is Ok <==> valid_geometry(entries, mask),
            r is Err ==> r == Err::<SubmissionQueue, i32>(ERR_INVALID),
            r is Ok ==> {
                let q = r.unwrap();
                &&& q.wf()
                &&& q.staged() == Seq::<SubmissionEntry>::empty()
                &&& q.tail_counter() == initial_tail
                &&& q.initial_tail() == initial_tail
                &&& q.unhanded() == 0
                &&& q.capacity() == entries as nat
            },
    {
        let exponent = match find_pow2_exponent(entries) {
            Some(k) => k,
            None => {
                return Err(ERR_INVALID);
            },
        };
        proof {
            vstd::arithmetic::power2::lemma_pow2_pos(exponent as nat);
        }
        if mask != entries - 1 {
            return Err(ERR_INVALID);
        }
        let mut slots: Vec<SubmissionEntry> = Vec::new();
        let mut array: Vec<u32> = Vec::new();
        let mut i: u32 = 0;
        while i < entries
            invariant
                i <= entries,
                slots@.len() == i as nat,
                array@.len() == i as nat,
            decreases entries - i,
        {
            slots.push(
                SubmissionEntry {
                    opcode: 0,
                    fd: 0,
                    addr: 0,
                    len: 0,
                    user_data: 0,
                    timeout_flags: 0,
                },
            );
            array.push(0);
            i = i + 1;
        }
        let q = SubmissionQueue {
            mask,
            tail: initial_tail,
            handed: initial_tail,
            slots,
            array,
            exp: Ghost(exponent as nat),
            tail0: Ghost(initial_tail),
            log: Ghost(Seq::empty()),
        };
        assert(q.wf()) by {
            vstd::arithmetic::power2::lemma_pow2_pos(exponent as nat);
        }
        Ok(q)
    }

    /// The submission encoder: writes the entry into the slot the current
    /// tail selects, publishes the slot index in the translation array, and
    /// advances the tail. Returns the slot index so the embedding can mirror
    /// the write. Never blocks and never talks to the kernel.
    pub fn prepare(&mut self, e: SubmissionEntry) -> (idx: u32)
        requires
            old(self).wf(),
            old(self).tail_counter() < u32::MAX,
            old(self).unhanded() < old(self).capacity(),
        ensures
            final(self).wf(),
            idx as int == old(self).tail_counter() as int % old(self).capacity() as int,
            final(self).staged() == old(self).staged().push(e),
            final(self).tail_counter() == old(self).tail_counter() + 1,
            final(self).initial_tail() == old(self).initial_tail(),
            final(self).unhanded() == old(self).unhanded() + 1,
            final(self).capacity() == old(self).capacity(),
            final(self).slot_spec(idx as int) == e,
    {
        let idx = self.tail & self.mask;
        proof {
            lemma_u32_low_bits_mask_is_mod(self.tail, self.exp@);
            lemma2_to64();
            if self.exp@ < 31 {
                lemma_pow2_strictly_increases(self.exp@, 31);
            }
            assert(pow2(self.exp@) <= 0x8000_0000);
            assert(idx as int == self.tail as int % (self.slots@.len() as int));
        }
        let slot = idx as usize;
        self.slots.set(slot, e);
        self.array.set(slot, idx);
        self.tail = self.tail + 1;
        proof {
            self.log@ = self.log@.push(e);
            let len = self.slots@.len() as int;
            assert forall|j: int|
                self.handed - self.tail0@ <= j < self.log@.len() implies {
                &&& self.slots@[(self.tail0@ + j) % len] == #[trigger] self.log@[j]
                &&& self.array@[(self.tail0@ + j) % len] == ((self.tail0@ + j) % len) as u32
            } by {
                if j < self.log@.len() - 1 {
                    assert(old(self).log@[j] == self.log@[j]);
                    assert(old(self).slots@[(self.tail0@ + j) % len] == old(self).log@[j]);
                    lemma_distinct_slots(self.tail0@ + j, old(self).tail as int, len);
                } else {
                }
            }
        }
        idx
    }

    /// Records that `n` staged entries were handed to the kernel by the
    /// enter call, freeing their slots for reuse.
    pub fn note_handed(&mut self, n: u32)
        requires
            old(self).wf(),
            n as nat <= old(self).unhanded(),
        ensures
            final(self).wf(),
            final(self).staged() == old(self).staged(),
            final(self).tail_counter() == old(self).tail_counter(),
            final(self).initial_tail() == old(self).initial_tail(),
            final(self).unhanded() == old(self).unhanded() - n as nat,
            final(self).capacity() == old(self).capacity(),
    {
        self.handed = self.handed + n;
    }

    /// The current producer index, for mirroring into the control page.
    pub fn tail(&self) -> (t: u32)
        ensures
            t == self.tail_counter(),
    {
        self.tail
    }

    /// The entry record in a slot, for mirroring into the mapped slot array.
    pub fn slot(&self, i: usize) -> (e: SubmissionEntry)
        requires
            i < self.capacity(),
        ensures
            e == self.slot_spec(i as int),
    {
        self.slots[i]
    }
}

/// The application-owned consumer side of the ring: the completion queue.
///
/// The kernel produces completion records into the shared slots and advances
/// the shared tail; the embedding mirrors each newly visible record into
/// this value with `post` (a test plays the kernel the same way), and the
/// verified decoder consumes them. The embedding mirrors the advanced head
/// back into the control page after a fence, so the kernel sees the slot
/// freed only after the record was read.
pub struct CompletionQueue {
    mask: u32,
    head: u32,
    tail: u32,
    slots: Vec<CompletionEntry>,
    exp: Ghost<nat>,
    head0: Ghost<u32>,
    posted: Ghost<Seq<CompletionEntry>>,
    consumed: Ghost<Seq<CompletionEntry>>,
}

impl CompletionQueue {
    /// Every completion the kernel has reported, in the order it reported
    /// them.
    pub closed spec fn posted(&self) -> Seq<CompletionEntry> {
        self.posted@
    }

    /// Every completion the decoder has returned, in return order.
    pub closed spec fn consumed(&self) -> Seq<CompletionEntry> {
        self.consumed@
    }

    /// The free-running consumer index owned by the application.
    pub closed spec fn head_counter(&self) -> u32 {
        self.head
    }

    /// The consumer index the queue was created with.
    pub closed spec fn initial_head(&self) -> u32 {
        self.head0@
    }

    /// Completions reported but not yet consumed.
    pub closed spec fn pending(&self) -> nat {
        (self.posted@.len() - self.consumed@.len()) as nat
    }

    /// The number of slots.
    pub closed spec fn capacity(&self) -> nat {
        self.slots@.len()
    }

    /// The queue's invariant: the mask matches the power-of-two slot count,
    /// head and tail equal the initial index plus what was consumed and
    /// reported respectively, what was consumed is exactly the first part of
    /// what was reported (the decoder never reorders), at most one ring of
    /// completions is outstanding, and every reported, unconsumed record
    /// sits in the slot its counter value selects.
    pub closed spec fn wf(&self) -> bool {
        &&& self.exp@ < 32
        &&& self.mask as nat == low_bits_mask(self.exp@)
        &&& self.slots@.len() == pow2(self.exp@)
        &&& self.head == self.head0@ + self.consumed@.len()
        &&& self.tail == self.head0@ + self.posted@.len()
        &&& self.consumed@.len() <= self.posted@.len()
        &&& self.consumed@ == self.posted@.take(self.consumed@.len() as int)
        &&& self.posted@.len() - self.consumed@.len() <= self.slots@.len()
        &&& forall|j: int|
            self.consumed@.len() <= j < self.posted@.len() ==> self.slots@[(self.head0@ + j) % (
            self.slots@.len() as int)] == #[trigger] self.posted@[j]
    }

    /// Opens the consumer side over a negotiated geometry, with the initial
    /// consumer index read back from the control page. Rejects a geometry
    /// whose entry count is not a power of two or whose mask does not match.
    pub fn new(entries: u32, mask: u32, initial_head: u32) -> (r: Result<CompletionQueue, i32>)
        ensures
            r is Ok <==> valid_geometry(entries, mask),
            r is Err ==> r == Err::<CompletionQueue, i32>(ERR_INVALID),
            r is Ok ==> {
                let q = r.unwrap();
                &&& q.wf()
                &&& q.posted() == Seq::<CompletionEntry>::empty()
                &&& q.consumed() == Seq::<CompletionEntry>::empty()
                &&& q.head_counter() == initial_head
                &&& q.initial_head() == initial_head
                &&& q.pending() == 0
                &&& q.capacity() == entries as nat
            },
    {
        let exponent = match find_pow2_exponent(entries) {
            Some(k) => k,
            None => {
                return Err(ERR_INVALID);
            },
        };
        proof {
            vstd::arithmetic::power2::lemma_pow2_pos(exponent as nat);
        }
        if mask != entries - 1 {
            return Err(ERR_INVALID);
        }
        let mut slots: Vec<CompletionEntry> = Vec::new();
        let mut i: u32 = 0;
        while i < entries
            invariant
                i <= entries,
                slots@.len() == i as nat,
            decreases entries - i,
        {
            slots.push(CompletionEntry { user_data: 0, res: 0 });
            i = i + 1;
        }
        let q = CompletionQueue {
            mask,
            head: initial_head,
            tail: initial_head,
            slots,
            exp: Ghost(exponent as nat),
            head0: Ghost(initial_head),
            posted: Ghost(Seq::empty()),
            consumed: Ghost(Seq::empty()),
        };
        assert(q.wf()) by {
            vstd::arithmetic::power2::lemma_pow2_pos(exponent as nat);
            assert(q.consumed@ =~= q.posted@.take(0));
        }
        Ok(q)
    }

    /// The kernel's producer step, mirrored into the model: a completion
    /// record becomes visible in the slot the shared tail selects and the
    /// shared tail advances. The embedding calls this once per record it
    /// reads out of the mapped pages; a test calls it to play the kernel.
    pub fn post(&mut self, e: CompletionEntry)
        requires
            old(self).wf(),
            old(self).pending() < old(self).capacity(),
            old(self).initial_head() + old(self).posted().len() < u32::MAX,
        ensures
            final(self).wf(),
            final(self).posted() == old(self).posted().push(e),
            final(self).consumed() == old(self).consumed(),
            final(self).head_counter() == old(self).head_counter(),
            final(self).initial_head() == old(self).initial_head(),
            final(self).pending() == old(self).pending() + 1,
            final(self).capacity() == old(self).capacity(),
    {
        let idx = self.tail & self.mask;
        proof {
            lemma_u32_low_bits_mask_is_mod(self.tail, self.exp@);
            lemma2_to64();
            if self.exp@ < 31 {
                lemma_pow2_strictly_increases(self.exp@, 31);
            }
            assert(pow2(self.exp@) <= 0x8000_0000);
            assert(idx as int == self.tail as int % (self.slots@.len() as int));
        }
        let slot = idx as usize;
        self.slots.set(slot, e);
        self.tail = self.tail + 1;
        proof {
            self.posted@ = self.posted@.push(e);
            let len = self.slots@.len() as int;
            assert(self.consumed@ =~= self.posted@.take(self.consumed@.len() as int));
            assert forall|j: int|
                self.consumed@.len() <= j < self.posted@.len() implies self.slots@[(self.head0@
                + j) % len] == #[trigger] self.posted@[j] by {
                if j < self.posted@.len() - 1 {
                    assert(old(self).posted@[j] == self.posted@[j]);
                    assert(old(self).slots@[(self.head0@ + j) % len] == old(self).posted@[j]);
                    lemma_distinct_slots(self.head0@ + j, old(self).tail as int, len);
                } else {
                }
            }
        }
    }

    /// The completion decoder: reads the record in the slot the current head
    /// selects and advances the head. Must only be called once a wait has
    /// indicated that a completion is pending; reading speculatively would
    /// return a stale slot.
    pub fn complete(&mut self) -> (e: CompletionEntry)
        requires
            old(self).wf(),
            old(self).pending() > 0,
        ensures
            final(self).wf(),
            e == old(self).posted()[old(self).consumed().len() as int],
            final(self).consumed() == old(self).consumed().push(e),
            final(self).posted() == old(self).posted(),
            final(self).head_counter() == old(self).head_counter() + 1,
            final(self).initial_head() == old(self).initial_head(),
            final(self).pending() == old(self).pending() - 1,
            final(self).capacity() == old(self).capacity(),
    {
        let idx = self.head & self.mask;
        proof {
            lemma_u32_low_bits_mask_is_mod(self.head, self.exp@);
            lemma2_to64();
            if self.exp@ < 31 {
                lemma_pow2_strictly_increases(self.exp@, 31);
            }
            assert(pow2(self.exp@) <= 0x8000_0000);
            assert(idx as int == self.head as int % (self.slots@.len() as int));
        }
        let slot = idx as usize;
        let e = self.slots[slot];
        self.head = self.head + 1;
        proof {
            assert(e == self.posted@[self.consumed@.len() as int]);
            self.consumed@ = self.consumed@.push(e);
            assert(self.consumed@ =~= self.posted@.take(self.consumed@.len() as int));
        }
        e
    }

    /// The current consumer index, for mirroring into the control page.
    pub fn head(&self) -> (h: u32)
        ensures
            h == self.head_counter(),
    {
        self.head
    }

    /// Whether a reported completion is waiting to be consumed.
    pub fn has_pending(&self) -> (b: bool)
        requires
            self.wf(),
        ensures
            b == (self.pending() > 0),
    {
        self.head != self.tail
    }
}

/// Completions come out in report order: at every point, what the decoder
/// has returned is exactly the first part of what the kernel has reported,
/// entry for entry.
pub proof fn lemma_completions_in_order(cq: &CompletionQueue)
    requires
        cq.wf(),
    ensures
        cq.consumed().len() <= cq.posted().len(),
        forall|j: int| 0 <= j < cq.consumed().len() ==> cq.consumed()[j] == cq.posted()[j],
{
}

/// Correlation tags round-trip exactly: when the kernel reports the
/// completion of each submission in some order, echoing each submission's
/// tag, every completion the decoder returns bears the tag given at
/// submission time to the operation it reports.
pub proof fn lemma_tag_round_trip(cq: &CompletionQueue, subs: Seq<SubmissionEntry>)
    requires
        cq.wf(),
        cq.posted().len() <= subs.len(),
        forall|i: int|
            0 <= i < cq.posted().len() ==> cq.posted()[i].user_data == subs[i].user_data,
    ensures
        forall|j: int|
            0 <= j < cq.consumed().len() ==> cq.consumed()[j].user_data == subs[j].user_data,
{
    lemma_completions_in_order(cq);
}

/// The producer and consumer indices owned by the application are monotonic,
/// non-wrapping counters: after any number of operations each equals its
/// initial value plus the number of operations performed on it; only the
/// masked value ever selects a slot.
pub proof fn lemma_counters_advance(sq: &SubmissionQueue, cq: &CompletionQueue)
    requires
        sq.wf(),
        cq.wf(),
    ensures
        sq.tail_counter() == sq.initial_tail() + sq.staged().len(),
        cq.head_counter() == cq.initial_head() + cq.consumed().len(),
{
}

/// Both sides of one kernel ring: the submission queue the application
/// produces into and the completion queue it consumes from. The blocking
/// enter call that hands staged entries to the kernel and waits belongs to
/// the embedding; everything here is non-blocking local state.
pub struct Ring {
    /// The producer side.
    pub sq: SubmissionQueue,
    /// The consumer side.
    pub cq: CompletionQueue,
}

impl Ring {
    /// Builds both queue models over the geometry the kernel negotiated,
    /// with the initial indices read back from the control page. Rejects a
    /// geometry either side of which is unusable.
    pub fn new(p: &RingParams, sq_tail: u32, cq_head: u32) -> (r: Result<Ring, i32>)
        ensures
            r is Ok <==> (valid_geometry(p.sq_entries, p.sq_ring_mask) && valid_geometry(
                p.cq_entries,
                p.cq_ring_mask,
            )),
            r is Err ==> r == Err::<Ring, i32>(ERR_INVALID),
            r is Ok ==> {
                let ring = r.unwrap();
                &&& ring.sq.wf()
                &&& ring.cq.wf()
                &&& ring.sq.staged() == Seq::<SubmissionEntry>::empty()
                &&& ring.sq.tail_counter() == sq_tail
                &&& ring.sq.initial_tail() == sq_tail
                &&& ring.sq.unhanded() == 0
                &&& ring.sq.capacity() == p.sq_entries as nat
                &&& ring.cq.posted() == Seq::<CompletionEntry>::empty()
                &&& ring.cq.consumed() == Seq::<CompletionEntry>::empty()
                &&& ring.cq.head_counter() == cq_head
                &&& ring.cq.initial_head() == cq_head
                &&& ring.cq.pending() == 0
                &&& ring.cq.capacity() == p.cq_entries as nat
            },
    {
        let sq = SubmissionQueue::new(p.sq_entries, p.sq_ring_mask, sq_tail)?;
        let cq = CompletionQueue::new(p.cq_entries, p.cq_ring_mask, cq_head)?;
        Ok(Ring { sq, cq })
    }

    /// The submission encoder over the ring pair: stages one entry record
    /// (operation code, target descriptor, address/length pair, correlation
    /// tag, flag word) and returns the slot index for mirroring.
    pub fn prepare(
        &mut self,
        opcode: u8,
        fd: i32,
        addr: u64,
        len: u32,
        user_data: u64,
        timeout_flags: u32,
    ) -> (idx: u32)
        requires
            old(self).sq.wf(),
            old(self).sq.tail_counter() < u32::MAX,
            old(self).sq.unhanded() < old(self).sq.capacity(),
        ensures
            final(self).sq.wf(),
            final(self).cq == old(self).cq,
            idx as int == old(self).sq.tail_counter() as int % old(self).sq.capacity() as int,
            final(self).sq.staged() == old(self).sq.staged().push(
                SubmissionEntry { opcode, fd, addr, len, user_data, timeout_flags },
            ),
            final(self).sq.tail_counter() == old(self).sq.tail_counter() + 1,
            final(self).sq.initial_tail() == old(self).sq.initial_tail(),
            final(self).sq.unhanded() == old(self).sq.unhanded() + 1,
            final(self).sq.capacity() == old(self).sq.capacity(),
    {
        self.sq.prepare(SubmissionEntry { opcode, fd, addr, len, user_data, timeout_flags })
    }

    /// Stages a read of up to `len` bytes from `fd` into the buffer at
    /// `addr`, tagged `user_data`.
    pub fn prepare_read(&mut self, fd: i32, addr: u64, len: u32, user_data: u64) -> (idx: u32)
        requires
            old(self).sq.wf(),
            old(self).sq.tail_counter() < u32::MAX,
            old(self).sq.unhanded() < old(self).sq.capacity(),
        ensures
            final(self).sq.wf(),
            final(self).cq == old(self).cq,
            idx as int == old(self).sq.tail_counter() as int % old(self).sq.capacity() as int,
            final(self).sq.staged() == old(self).sq.staged().push(
                SubmissionEntry {
                    opcode: crate::entry::OP_READ,
                    fd,
                    addr,
                    len,
                    user_data,
                    timeout_flags: 0,
                },
            ),
            final(self).sq.tail_counter() == old(self).sq.tail_counter() + 1,
            final(self).sq.initial_tail() == old(self).sq.initial_tail(),
            final(self).sq.unhanded() == old(self).sq.unhanded() + 1,
            final(self).sq.capacity() == old(self).sq.capacity(),
    {
        self.sq.prepare(SubmissionEntry::read(fd, addr, len, user_data))
    }

    /// Stages a timeout: no descriptor, the address of a caller-owned
    /// duration record, a count of one, and the given flag word (the
    /// multishot bit keeps the one submission re-firing).
    pub fn prepare_timeout(&mut self, duration_addr: u64, user_data: u64, flags: u32) -> (idx:
        u32)
        requires
            old(self).sq.wf(),
            old(self).sq.tail_counter() < u32::MAX,
            old(self).sq.unhanded() < old(self).sq.capacity(),
        ensures
            final(self).sq.wf(),
            final(self).cq == old(self).cq,
            idx as int == old(self).sq.tail_counter() as int % old(self).sq.capacity() as int,
            final(self).sq.staged() == old(self).sq.staged().push(
                SubmissionEntry {
                    opcode: crate::entry::OP_TIMEOUT,
                    fd: crate::entry::NO_FD,
                    addr: duration_addr,
                    len: 1,
                    user_data,
                    timeout_flags: flags,
                },
            ),
            final(self).sq.tail_counter() == old(self).sq.tail_counter() + 1,
            final(self).sq.initial_tail() == old(self).sq.initial_tail(),
            final(self).sq.unhanded() == old(self).sq.unhanded() + 1,
            final(self).sq.capacity() == old(self).sq.capacity(),
    {
        self.sq.prepare(SubmissionEntry::timeout(duration_addr, user_data, flags))
    }

    /// The completion decoder over the ring pair: consumes the next reported
    /// completion in report order.
    pub fn complete(&mut self) -> (e: CompletionEntry)
        requires
            old(self).cq.wf(),
            old(self).cq.pending() > 0,
        ensures
            final(self).cq.wf(),
            final(self).sq == old(self).sq,
            e == old(self).cq.posted()[old(self).cq.consumed().len() as int],
            final(self).cq.consumed() == old(self).cq.consumed().push(e),
            final(self).cq.posted() == old(self).cq.posted(),
            final(self).cq.head_counter() == old(self).cq.head_counter() + 1,
            final(self).cq.initial_head() == old(self).cq.initial_head(),
            final(self).cq.pending() == old(self).cq.pending() - 1,
            final(self).cq.capacity() == old(self).cq.capacity(),
    {
        self.cq.complete()
    }
}

} // verus!
