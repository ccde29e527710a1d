//! The steady-state byte allocator: a dual-arena design tuned to one
//! workload's allocation trace, with baked-in placement constants.
//!
//! Each request is routed by a placement policy, a pure function of the
//! request size and the current reclamation round:
//! - an *overflow pool*, a sub-range reserved above the arena's top, serves
//!   a bounded family of monotonically growing allocations;
//! - *top-ephemeral* requests are served downward from the top cursor and
//!   reclaimed in deferred batches;
//! - everything else grows upward from the bottom cursor and is never
//!   individually reclaimed.
//!
//! Deallocation is accounting only: freed ephemeral bytes accumulate, and
//! when a free of the designated trigger size finds the accumulator above a
//! threshold, the whole batch is returned to the top cursor in one step and
//! the round counter advances. See [`DualArena`](crate::dual::DualArena)
//! for the same design with the policy supplied as data.

use vstd::prelude::*;

use crate::arena::{ranges_disjoint, sat_add, sat_sub, AllocError, Arena, ArenaModel};
use crate::policy::{ClassedBlock, Placement};

verus! {

/// Smallest overflow-pool block; the pool sizes double from here.
pub const POOL_L0: usize = 1344;

/// Largest overflow-pool block: freeing one signals that the whole
/// reserved pool sub-range can be retired into the free span.
pub const POOL_L5: usize = 43008;

/// Bytes reserved above the arena's top for the overflow pool: the pool
/// size ladder 1344, 2688, 5376, 10752, 21504, 43008 summed, which is
/// `2688 * 32 - 1344`.
pub const POOL_TOTAL: usize = 84672;

/// The round on which the smallest pool size is *not* routed to the pool
/// (on that round it collides with an ephemeral allocation of equal size).
pub const POOL_SKIP_ROUND: usize = 320;

/// Freeing a block of this size triggers a batch-reclamation check.
pub const FLUSH_TRIGGER: usize = 384;

/// Accumulated freed bytes must exceed this before a flush happens.
pub const FLUSH_THRESHOLD: usize = 524288;

/// Subtraction on 64-bit machine words, wrapping below zero, as the
/// round-adjustment of observed sizes computes it.
pub open spec fn wsub(a: int, b: int) -> int {
    if a - b >= 0 {
        a - b
    } else {
        a - b + (usize::MAX + 1)
    }
}

/// The stack-like size ladder: an observed size whose round-adjusted value
/// lands here is a short-lived, stack-disciplined allocation.
pub open spec fn is_stack_base(d: int) -> bool {
    ||| d == 524288
    ||| d == 131072
    ||| d == 32768
    ||| d == 8192
    ||| d == 2048
    ||| d == 512
    ||| d == 128
    ||| d == 32
}

/// The top-ephemeral placement class, as a pure function of the observed
/// size and the current round. Sizes 96 and 192 (and the flush-trigger
/// size, away from its own collision round) are ephemeral except where the
/// round-adjusted value collides with a bottom-growing allocation of 64;
/// otherwise a size is ephemeral exactly when its round-adjusted value
/// lands on the stack-like ladder.
pub open spec fn from_top_spec(lsz: int, round: int) -> bool {
    let d = wsub(lsz, round);
    if lsz == 96 || lsz == 192 || (lsz == FLUSH_TRIGGER && d != 256) {
        d != 64
    } else {
        is_stack_base(d)
    }
}

/// The overflow-pool placement class: the six pool sizes, with the
/// smallest one skipped on its collision round.
pub open spec fn pool_class_spec(lsz: int, round: int) -> bool {
    ||| (lsz == POOL_L0 && round != POOL_SKIP_ROUND)
    ||| lsz == 2688
    ||| lsz == 5376
    ||| lsz == 10752
    ||| lsz == 21504
    ||| lsz == POOL_L5
}

/// Decides whether a request of size `lsz` on round `round` is served
/// downward from the top cursor (the top-ephemeral placement class).
pub fn from_top(lsz: usize, round: usize) -> (r: bool)
    ensures
        r == from_top_spec(lsz as int, round as int),
{
    let d: usize = if lsz >= round {
        lsz - round
    } else {
        lsz + (usize::MAX - round + 1)
    };
    if lsz == 96 || lsz == 192 || (lsz == FLUSH_TRIGGER && d != 256) {
        d != 64
    } else {
        d == 524288 || d == 131072 || d == 32768 || d == 8192 || d == 2048 || d == 512 || d == 128
            || d == 32
    }
}

/// Decides whether a request of size `lsz` on round `round` is served from
/// the overflow pool.
pub fn pool_class(lsz: usize, round: usize) -> (r: bool)
    ensures
        r == pool_class_spec(lsz as int, round as int),
{
    (lsz == POOL_L0 && round != POOL_SKIP_ROUND) || lsz == 2688 || lsz == 5376 || lsz == 10752
        || lsz == 21504 || lsz == POOL_L5
}

/// Mathematical image of a [`LabByteAllocator`].
pub ghost struct LabModel {
    pub arena: ArenaModel,
    /// Cursor of the overflow pool, growing upward through the reserved
    /// sub-range at the top of the arena's nominal range.
    pub pool: int,
    /// Used-byte accounting across all placement classes.
    pub used: int,
    /// Freed ephemeral bytes accumulated toward the next batch flush.
    pub batch: int,
    /// The deferred-reclamation round counter; it never decreases.
    pub round: int,
}

impl LabModel {
    /// The state `new()` creates, before `init` hands the allocator its
    /// range.
    pub open spec fn empty() -> LabModel {
        LabModel { arena: ArenaModel::fresh(0, 0), pool: 0, used: 0, batch: 0, round: 0 }
    }

    /// The state directly after `init(start, size)`: the arena's nominal
    /// range is `[start, start + size)`, with the pool sub-range reserved
    /// above the top cursor at its upper end.
    pub open spec fn inited(start: int, size: int) -> LabModel {
        LabModel {
            arena: ArenaModel {
                base: start,
                low: start,
                high: start + size - POOL_TOTAL,
                limit: start + size,
            },
            pool: start + size - POOL_TOTAL,
            used: 0,
            batch: 0,
            round: 0,
        }
    }

    /// Base address of the reserved overflow-pool sub-range, which runs
    /// from here up to the arena's nominal end.
    pub open spec fn pool_base(self) -> int {
        self.arena.limit - POOL_TOTAL
    }

    /// The invariant every initialized, reachable state keeps: cursors
    /// ordered within the range, the pool cursor inside its sub-range,
    /// used-byte accounting bounded by the bytes actually carved out, and
    /// enough headroom that accounting arithmetic cannot overflow.
    pub open spec fn inv(self) -> bool {
        &&& self.arena.wf()
        &&& self.arena.base <= self.pool_base()
        &&& self.pool_base() <= self.pool <= self.arena.limit
        &&& 0 <= self.used
        &&& 0 <= self.batch <= usize::MAX
        &&& 0 <= self.round <= usize::MAX
        &&& self.used + self.arena.free_len() <= (self.arena.limit - self.arena.base) + (self.pool
            - self.pool_base())
        &&& self.arena.limit - self.arena.base + POOL_TOTAL <= usize::MAX
    }

    pub open spec fn total_bytes(self) -> int {
        self.pool_base() - self.arena.base
    }

    pub open spec fn available_bytes(self) -> int {
        self.arena.free_len()
    }

    /// A request succeeds exactly when it fits the free span between the
    /// two cursors, whatever its placement class.
    pub open spec fn fits(self, size: int) -> bool {
        size <= self.arena.free_len()
    }

    /// The address a successful allocation returns.
    pub open spec fn alloc_addr(self, size: int) -> int {
        if pool_class_spec(size, self.round) {
            self.pool
        } else if from_top_spec(size, self.round) {
            self.arena.high - size
        } else {
            self.arena.low
        }
    }

    /// State after `alloc(size)`.
    pub open spec fn alloc_step(self, size: int) -> LabModel {
        if !self.fits(size) {
            self
        } else if pool_class_spec(size, self.round) {
            LabModel { pool: self.pool + size, used: self.used + size, ..self }
        } else if from_top_spec(size, self.round) {
            LabModel { arena: self.arena.took_high(size), used: self.used + size, ..self }
        } else {
            LabModel { arena: self.arena.took_low(size), used: self.used + size, ..self }
        }
    }

    /// The accumulator directly after `dealloc(_, size)` credits it:
    /// ephemeral frees add their own size; otherwise a free of the largest
    /// pool size retires the whole reserved pool sub-range as one credit.
    pub open spec fn batch_credited(self, size: int) -> int {
        if from_top_spec(size, self.round) {
            sat_add(self.batch, size)
        } else if size == POOL_L5 {
            sat_add(self.batch, POOL_TOTAL as int)
        } else {
            self.batch
        }
    }

    /// Whether `dealloc(_, size)` flushes the accumulated batch.
    pub open spec fn flushes(self, size: int) -> bool {
        size == FLUSH_TRIGGER && self.batch_credited(size) > FLUSH_THRESHOLD
    }

    /// State after `dealloc(_, size)`: the accumulator is credited, and on
    /// a flush the whole batch returns to the top cursor in one step while
    /// the round counter advances.
    pub open spec fn dealloc_step(self, size: int) -> LabModel {
        let b = self.batch_credited(size);
        if self.flushes(size) {
            LabModel {
                arena: self.arena.gave_high(b),
                used: sat_sub(self.used, b),
                batch: 0,
                round: if self.round < usize::MAX { self.round + 1 } else { self.round },
                ..self
            }
        } else {
            LabModel { batch: b, ..self }
        }
    }
}

impl LabModel {
    /// The accounting identity of a state that has made no overflow-pool
    /// allocations: used plus available bytes equals the total.
    pub open spec fn accounted(self) -> bool {
        self.used + self.available_bytes() == self.total_bytes()
    }
}

/// Every allocation outside the overflow pool preserves the accounting
/// identity `used_bytes() + available_bytes() == total_bytes()`. (A pool
/// allocation deliberately does not: it consumes the reserved sub-range,
/// which the total does not count.)
pub proof fn lemma_lab_alloc_preserves_accounting(m: LabModel, size: int)
    requires
        m.inv(),
        m.accounted(),
        !pool_class_spec(size, m.round),
    ensures
        m.alloc_step(size).accounted(),
{
}

/// Every deallocation preserves the accounting identity, as long as a
/// flush it triggers does not saturate: the flushed batch is covered by
/// the used count and fits below the arena's nominal end.
pub proof fn lemma_lab_dealloc_preserves_accounting(m: LabModel, size: int)
    requires
        m.inv(),
        m.accounted(),
        m.flushes(size) ==> m.batch_credited(size) <= m.used && m.arena.high + m.batch_credited(
            size,
        ) <= m.arena.limit,
    ensures
        m.dealloc_step(size).accounted(),
{
}

/// A deallocation that does not flush moves no cursor: it only credits
/// the batch accumulator.
pub proof fn lemma_lab_no_flush_keeps_cursors(m: LabModel, size: int)
    requires
        !m.flushes(size),
    ensures
        m.dealloc_step(size).arena == m.arena,
        m.dealloc_step(size).used == m.used,
        m.dealloc_step(size).round == m.round,
        m.dealloc_step(size).batch == m.batch_credited(size),
{
}

/// A flush is exact: when a free of the trigger size finds the credited
/// batch above the threshold, the top cursor rises by exactly the
/// credited batch, the used count drops by the same amount, the batch
/// resets and the round counter advances by one. (The hypotheses rule
/// out the saturating edge cases.)
pub proof fn lemma_lab_flush_exact(m: LabModel, size: int)
    requires
        m.inv(),
        m.flushes(size),
        m.round < usize::MAX,
        m.batch_credited(size) <= m.used,
        m.arena.high + m.batch_credited(size) <= m.arena.limit,
    ensures
        m.dealloc_step(size).arena.high == m.arena.high + m.batch_credited(size),
        m.dealloc_step(size).used == m.used - m.batch_credited(size),
        m.dealloc_step(size).batch == 0,
        m.dealloc_step(size).round == m.round + 1,
        m.dealloc_step(size).arena.low == m.arena.low,
{
}

/// The placement class of a request under the baked-in policy: the
/// overflow pool takes precedence, then the top-ephemeral class, and
/// everything else grows from the bottom.
pub open spec fn lab_classify(size: int, round: int) -> Placement {
    if pool_class_spec(size, round) {
        Placement::Overflow
    } else if from_top_spec(size, round) {
        Placement::Ephemeral
    } else {
        Placement::Bottom
    }
}

/// One caller-visible event of an allocation trace. A release names the
/// live block it returns (callers may only release what they were
/// handed: anything else is outside the allocator's contract).
pub ghost enum LabEvent {
    Alloc { size: int },
    Free { idx: int },
}

/// Whether an event respects the discipline the design assumes of its
/// single well-behaved caller:
/// - allocations fit (pool requests fit the reserved sub-range), and an
///   ephemeral allocation only happens between reclamation rounds, while
///   no freed bytes are pending;
/// - a release names a live block whose ephemeral status the policy still
///   assigns to its size, is never the pool-retirement signal, and
///   releases ephemeral blocks stack-wise: each freed ephemeral block is
///   the lowest one live, directly above the pending freed span.
pub open spec fn lab_event_ok(m: LabModel, live: Seq<ClassedBlock>, ev: LabEvent) -> bool {
    match ev {
        LabEvent::Alloc { size } => {
            &&& 1 <= size <= usize::MAX
            &&& m.fits(size)
            &&& (lab_classify(size, m.round) is Overflow ==> m.pool + size <= m.arena.limit)
            &&& (lab_classify(size, m.round) is Ephemeral ==> m.batch == 0)
        },
        LabEvent::Free { idx } => {
            &&& 0 <= idx < live.len()
            &&& live[idx].size != POOL_L5
            &&& (from_top_spec(live[idx].size, m.round) <==> live[idx].class is Ephemeral)
            &&& (live[idx].class is Ephemeral ==> live[idx].addr == m.arena.high + m.batch)
        },
    }
}

/// The allocator state and the live-block set after an event.
pub open spec fn lab_event_step(m: LabModel, live: Seq<ClassedBlock>, ev: LabEvent) -> (
    LabModel,
    Seq<ClassedBlock>,
) {
    match ev {
        LabEvent::Alloc { size } => (
            m.alloc_step(size),
            live.push(
                ClassedBlock {
                    addr: m.alloc_addr(size),
                    size: size,
                    class: lab_classify(size, m.round),
                },
            ),
        ),
        LabEvent::Free { idx } => (m.dealloc_step(live[idx].size), live.remove(idx)),
    }
}

/// The live-block invariant: bottom blocks sit in the consumed bottom
/// region, ephemeral blocks stack above the pending freed span and below
/// the pool sub-range, pool blocks sit in the consumed part of the pool
/// sub-range, and all live blocks occupy pairwise disjoint byte ranges.
pub open spec fn lab_live_inv(m: LabModel, live: Seq<ClassedBlock>) -> bool {
    &&& m.inv()
    &&& m.arena.high + m.batch <= m.pool_base()
    &&& forall|i: int|
        0 <= i < live.len() ==> (#[trigger] live[i]).size >= 1 && live[i].size <= usize::MAX
    &&& forall|i: int|
        0 <= i < live.len() && (#[trigger] live[i]).class is Bottom ==> m.arena.base <= live[i].addr
            && live[i].addr + live[i].size <= m.arena.low
    &&& forall|i: int|
        0 <= i < live.len() && (#[trigger] live[i]).class is Ephemeral ==> m.arena.high + m.batch
            <= live[i].addr && live[i].addr + live[i].size <= m.pool_base()
    &&& forall|i: int|
        0 <= i < live.len() && (#[trigger] live[i]).class is Overflow ==> m.pool_base()
            <= live[i].addr && live[i].addr + live[i].size <= m.pool
    &&& forall|i: int, j: int|
        0 <= i < live.len() && 0 <= j < live.len() && i != j ==> ranges_disjoint(
            (#[trigger] live[i]).addr,
            live[i].size,
            (#[trigger] live[j]).addr,
            live[j].size,
        )
}

/// One disciplined event preserves the live-block invariant: in
/// particular, a fresh allocation is disjoint from every block still
/// live, and a flush only ever reclaims bytes no live block occupies.
pub proof fn lemma_lab_live_step(m: LabModel, live: Seq<ClassedBlock>, ev: LabEvent)
    requires
        lab_live_inv(m, live),
        lab_event_ok(m, live, ev),
    ensures
        lab_live_inv(lab_event_step(m, live, ev).0, lab_event_step(m, live, ev).1),
{
    let (m2, live2) = lab_event_step(m, live, ev);
    match ev {
        LabEvent::Alloc { size: _ } => {},
        LabEvent::Free { idx } => {
            let b = live[idx];
            assert(forall|j: int| 0 <= j < live2.len() ==> #[trigger] live2[j] == live[
                if j < idx {
                    j
                } else {
                    j + 1
                }
            ]);
            if b.class is Ephemeral {
                // The freed block sat directly above the pending span, so
                // every other ephemeral block, disjoint from it, starts at
                // or above its end: the grown span stays free of them.
                assert(forall|j: int|
                    0 <= j < live2.len() && (#[trigger] live2[j]).class is Ephemeral ==> b.addr
                        + b.size <= live2[j].addr);
            }
        },
    }
}

/// The allocator state after a trace of events.
pub open spec fn lab_trace_state(m: LabModel, live: Seq<ClassedBlock>, evs: Seq<LabEvent>) -> (
    LabModel,
    Seq<ClassedBlock>,
)
    decreases evs.len(),
{
    if evs.len() == 0 {
        (m, live)
    } else {
        let (m2, live2) = lab_event_step(m, live, evs[0]);
        lab_trace_state(m2, live2, evs.skip(1))
    }
}

/// Whether every event of a trace respects the caller discipline for the
/// state it meets.
pub open spec fn lab_trace_ok(m: LabModel, live: Seq<ClassedBlock>, evs: Seq<LabEvent>) -> bool
    decreases evs.len(),
{
    evs.len() == 0 || {
        &&& lab_event_ok(m, live, evs[0])
        &&& {
            let (m2, live2) = lab_event_step(m, live, evs[0]);
            lab_trace_ok(m2, live2, evs.skip(1))
        }
    }
}

/// No-overlap, over whole traces: starting from a freshly initialized
/// allocator (or any state whose live blocks satisfy the invariant), any
/// disciplined sequence of allocations and releases keeps every pair of
/// concurrently live blocks disjoint — batch flushes included.
pub proof fn lemma_lab_no_overlap(m: LabModel, live: Seq<ClassedBlock>, evs: Seq<LabEvent>)
    requires
        lab_live_inv(m, live),
        lab_trace_ok(m, live, evs),
    ensures
        lab_live_inv(lab_trace_state(m, live, evs).0, lab_trace_state(m, live, evs).1),
    decreases evs.len(),
{
    if evs.len() > 0 {
        lemma_lab_live_step(m, live, evs[0]);
        let (m2, live2) = lab_event_step(m, live, evs[0]);
        lemma_lab_no_overlap(m2, live2, evs.skip(1));
    }
}

/// A freshly initialized allocator, with no live blocks, satisfies the
/// live-block invariant: the starting point for [`lemma_lab_no_overlap`].
pub proof fn lemma_lab_inited_live_inv(start: int, size: int)
    requires
        0 <= start,
        POOL_TOTAL <= size,
        start + size <= usize::MAX,
        size + POOL_TOTAL <= usize::MAX,
    ensures
        lab_live_inv(LabModel::inited(start, size), Seq::empty()),
{
}

/// The round counter only ever increases: allocation never touches it,
/// and deallocation advances it exactly on a flush.
pub proof fn lemma_lab_round_monotonic(m: LabModel, size: int)
    ensures
        m.alloc_step(size).round == m.round,
        m.dealloc_step(size).round >= m.round,
        m.flushes(size) && m.round < usize::MAX ==> m.dealloc_step(size).round == m.round + 1,
        !m.flushes(size) ==> m.dealloc_step(size).round == m.round,
{
}

/// The workload-tuned dual-arena byte allocator.
pub struct LabByteAllocator {
    arena: Arena,
    pool: usize,
    used: usize,
    batch: usize,
    round: usize,
}

impl View for LabByteAllocator {
    type V = LabModel;

    closed spec fn view(&self) -> LabModel {
        LabModel {
            arena: self.arena@,
            pool: self.pool as int,
            used: self.used as int,
            batch: self.batch as int,
            round: self.round as int,
        }
    }
}

impl LabByteAllocator {
    /// Creates a new, not yet initialized allocator.
    pub fn new() -> (r: Self)
        ensures
            r@ == LabModel::empty(),
    {
        LabByteAllocator { arena: Arena::empty(), pool: 0, used: 0, batch: 0, round: 0 }
    }

    /// Hands the allocator its range `[start, start + size)`: the top
    /// `POOL_TOTAL` bytes are reserved for the overflow pool, and the top
    /// cursor starts below them. The range must hold the reserved
    /// sub-range and fit the address space with headroom for accounting.
    pub fn init(&mut self, start: usize, size: usize)
        requires
            POOL_TOTAL <= size,
            start as int + size as int <= usize::MAX as int,
            size as int + POOL_TOTAL as int <= usize::MAX as int,
        ensures
            final(self)@ == LabModel::inited(start as int, size as int),
            final(self)@.inv(),
    {
        let end = start + size;
        let pb = end - POOL_TOTAL;
        self.arena = Arena::with_top_reserve(start, pb, end);
        self.pool = pb;
        self.used = 0;
        self.batch = 0;
        self.round = 0;
    }

    /// Growing the arena is a deliberate no-op: out-of-memory is terminal
    /// for the arena as configured.
    pub fn add_memory(&mut self, start: usize, size: usize) -> (r: Result<(), AllocError>)
        ensures
            final(self)@ == old(self)@,
            r == Ok::<(), AllocError>(()),
    {
        let _ = start;
        let _ = size;
        Ok(())
    }

    /// Serves `size` bytes from the placement class the policy picks, or
    /// fails with `NoMemory` exactly when the request does not fit the
    /// free span. Overflow-pool requests must fit the reserved sub-range:
    /// the pool serves a bounded family of allocations by design.
    /// Alignment beyond the natural word size is not honored.
    pub fn alloc_bytes(&mut self, size: usize, align: usize) -> (r: Result<usize, AllocError>)
        requires
            old(self)@.inv(),
            pool_class_spec(size as int, old(self)@.round) ==> old(self)@.pool + size
                <= old(self)@.arena.limit,
        ensures
            final(self)@ == old(self)@.alloc_step(size as int),
            final(self)@.inv(),
            (r is Ok) <==> old(self)@.fits(size as int),
            r is Ok ==> r->Ok_0 as int == old(self)@.alloc_addr(size as int),
            r is Err ==> r->Err_0 == AllocError::NoMemory && final(self)@ == old(self)@,
    {
        let _ = align;
        if size > self.arena.free_len() {
            return Err(AllocError::NoMemory);
        }
        if pool_class(size, self.round) {
            let addr = self.pool;
            self.pool = self.pool + size;
            self.used = self.used + size;
            Ok(addr)
        } else if from_top(size, self.round) {
            let addr = self.arena.take_high(size);
            self.used = self.used + size;
            Ok(addr)
        } else {
            let addr = self.arena.take_low(size);
            self.used = self.used + size;
            Ok(addr)
        }
    }

    /// Releases `size` bytes at `pos`. The release is accounting only:
    /// ephemeral frees (and a retirement of the overflow pool, signalled
    /// by its largest size) credit the batch accumulator, and a free of
    /// the trigger size flushes the whole batch back to the top cursor
    /// once the accumulator exceeds the threshold. All other frees are
    /// deliberate no-op leaks.
    pub fn dealloc_bytes(&mut self, pos: usize, size: usize, align: usize)
        requires
            old(self)@.inv(),
        ensures
            final(self)@ == old(self)@.dealloc_step(size as int),
            final(self)@.inv(),
    {
        let _ = pos;
        let _ = align;
        if from_top(size, self.round) {
            self.batch = self.batch.saturating_add(size);
        } else if size == POOL_L5 {
            self.batch = self.batch.saturating_add(POOL_TOTAL);
        }
        if size == FLUSH_TRIGGER && self.batch > FLUSH_THRESHOLD {
            let b = self.batch;
            self.arena.give_high(b);
            self.used = self.used.saturating_sub(b);
            self.batch = 0;
            if self.round < usize::MAX {
                self.round = self.round + 1;
            }
        }
    }

    pub fn total_bytes(&self) -> (r: usize)
        requires
            self@.inv(),
        ensures
            r as int == self@.total_bytes(),
    {
        self.arena.limit() - POOL_TOTAL - self.arena.base()
    }

    pub fn used_bytes(&self) -> (r: usize)
        ensures
            r as int == self@.used,
    {
        self.used
    }

    pub fn available_bytes(&self) -> (r: usize)
        requires
            self@.inv(),
        ensures
            r as int == self@.available_bytes(),
    {
        self.arena.free_len()
    }
}

} // verus!
