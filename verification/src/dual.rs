//! The dual-arena byte allocator with its placement policy supplied as
//! data: the generalized form of the design that
//! [`LabByteAllocator`](crate::lab::LabByteAllocator) instantiates with
//! baked-in constants.
//!
//! One fixed range serves three placement classes: bottom-growing
//! requests bump the low cursor upward, top-ephemeral requests bump the
//! high cursor downward, and overflow-pool requests come from a sub-range
//! reserved above the high cursor's starting point. Deallocation is
//! accounting only: ephemeral frees accumulate in a batch, and a free of
//! the policy's trigger size returns the whole batch to the top cursor in
//! one step once it exceeds the policy's threshold.

use vstd::prelude::*;

use crate::arena::{ranges_disjoint, sat_add, sat_sub, AllocError, Arena, ArenaModel};
use crate::policy::{ClassedBlock, Placement, Policy, PolicyModel};

verus! {

/// Mathematical image of a [`DualArena`].
pub ghost struct DualModel {
    pub arena: ArenaModel,
    pub policy: PolicyModel,
    /// Cursor of the overflow pool, growing upward through the reserved
    /// sub-range at the top of the arena's nominal range.
    pub pool: int,
    /// Used-byte accounting across all placement classes.
    pub used: int,
    /// Freed ephemeral bytes accumulated toward the next batch flush.
    pub batch: int,
    /// The deferred-reclamation round counter; it never decreases.
    pub round: int,
}

impl DualModel {
    /// The state `new(policy)` creates, before `init` hands the allocator
    /// its range.
    pub open spec fn empty(policy: PolicyModel) -> DualModel {
        DualModel {
            arena: ArenaModel::fresh(0, 0),
            policy: policy,
            pool: 0,
            used: 0,
            batch: 0,
            round: 0,
        }
    }

    /// The state directly after `init(start, size)`: the arena's nominal
    /// range is `[start, start + size)`, with the policy's pool sub-range
    /// reserved above the top cursor at its upper end.
    pub open spec fn inited(policy: PolicyModel, start: int, size: int) -> DualModel {
        DualModel {
            arena: ArenaModel {
                base: start,
                low: start,
                high: start + size - policy.pool_total,
                limit: start + size,
            },
            policy: policy,
            pool: start + size - policy.pool_total,
            used: 0,
            batch: 0,
            round: 0,
        }
    }

    /// Base address of the reserved overflow-pool sub-range, which runs
    /// from here up to the arena's nominal end.
    pub open spec fn pool_base(self) -> int {
        self.arena.limit - self.policy.pool_total
    }

    /// The invariant every initialized, reachable state keeps: cursors
    /// ordered within the range, the pool cursor inside its sub-range,
    /// used-byte accounting bounded by the bytes actually carved out, and
    /// enough headroom that accounting arithmetic cannot overflow.
    pub open spec fn inv(self) -> bool {
        &&& self.arena.wf()
        &&& self.arena.base <= self.pool_base()
        &&& self.pool_base() <= self.pool <= self.arena.limit
        &&& 0 <= self.used
        &&& 0 <= self.batch <= usize::MAX
        &&& 0 <= self.round <= usize::MAX
        &&& self.used + self.arena.free_len() <= (self.arena.limit - self.arena.base) + (self.pool
            - self.pool_base())
        &&& self.arena.limit - self.arena.base + self.policy.pool_total <= usize::MAX
    }

    pub open spec fn total_bytes(self) -> int {
        self.pool_base() - self.arena.base
    }

    pub open spec fn available_bytes(self) -> int {
        self.arena.free_len()
    }

    /// A request succeeds exactly when it fits the free span between the
    /// two cursors, whatever its placement class.
    pub open spec fn fits(self, size: int) -> bool {
        size <= self.arena.free_len()
    }

    /// The address a successful allocation returns.
    pub open spec fn alloc_addr(self, size: usize) -> int {
        if self.policy.classify(size, self.round) is Overflow {
            self.pool
        } else if self.policy.classify(size, self.round) is Ephemeral {
            self.arena.high - size
        } else {
            self.arena.low
        }
    }

    /// State after `alloc(size)`.
    pub open spec fn alloc_step(self, size: usize) -> DualModel {
        if !self.fits(size as int) {
            self
        } else if self.policy.classify(size, self.round) is Overflow {
            DualModel { pool: self.pool + size, used: self.used + size, ..self }
        } else if self.policy.classify(size, self.round) is Ephemeral {
            DualModel { arena: self.arena.took_high(size as int), used: self.used + size, ..self }
        } else {
            DualModel { arena: self.arena.took_low(size as int), used: self.used + size, ..self }
        }
    }

    /// The accumulator directly after `dealloc(_, size)` credits it: an
    /// ephemeral-classified free adds its own size, and, independently, a
    /// free of the policy's retire size adds the whole reserved pool
    /// sub-range as one credit.
    pub open spec fn batch_credited(self, size: usize) -> int {
        let b = if self.policy.classify(size, self.round) is Ephemeral {
            sat_add(self.batch, size as int)
        } else {
            self.batch
        };
        if size == self.policy.pool_retire_size {
            sat_add(b, self.policy.pool_total as int)
        } else {
            b
        }
    }

    /// Whether `dealloc(_, size)` flushes the accumulated batch.
    pub open spec fn flushes(self, size: usize) -> bool {
        size == self.policy.flush_trigger && self.batch_credited(size)
            > self.policy.flush_threshold
    }

    /// State after `dealloc(_, size)`: the accumulator is credited, and on
    /// a flush the whole batch returns to the top cursor in one step while
    /// the round counter advances.
    pub open spec fn dealloc_step(self, size: usize) -> DualModel {
        let b = self.batch_credited(size);
        if self.flushes(size) {
            DualModel {
                arena: self.arena.gave_high(b),
                used: sat_sub(self.used, b),
                batch: 0,
                round: if self.round < usize::MAX { self.round + 1 } else { self.round },
                ..self
            }
        } else {
            DualModel { batch: b, ..self }
        }
    }
}

/// Sum of a sequence of request sizes.
pub open spec fn sizes_sum(sizes: Seq<usize>) -> int
    decreases sizes.len(),
{
    if sizes.len() == 0 {
        0
    } else {
        sizes[0] + sizes_sum(sizes.skip(1))
    }
}

/// The state after a run of deallocations of the given sizes.
pub open spec fn dealloc_seq(m: DualModel, sizes: Seq<usize>) -> DualModel
    decreases sizes.len(),
{
    if sizes.len() == 0 {
        m
    } else {
        dealloc_seq(m.dealloc_step(sizes[0]), sizes.skip(1))
    }
}

impl DualModel {
    /// The accounting identity of a state that has made no overflow-pool
    /// allocations: used plus available bytes equals the total.
    pub open spec fn accounted(self) -> bool {
        self.used + self.available_bytes() == self.total_bytes()
    }
}

/// Every allocation outside the overflow pool preserves the accounting
/// identity `used_bytes() + available_bytes() == total_bytes()`. (A pool
/// allocation deliberately does not: it consumes the reserved sub-range,
/// which the total does not count.)
pub proof fn lemma_alloc_preserves_accounting(m: DualModel, size: usize)
    requires
        m.inv(),
        m.accounted(),
        !(m.policy.classify(size, m.round) is Overflow),
    ensures
        m.alloc_step(size).accounted(),
{
}

/// Every deallocation preserves the accounting identity, as long as a
/// flush it triggers does not saturate: the flushed batch is covered by
/// the used count and fits below the arena's nominal end.
pub proof fn lemma_dealloc_preserves_accounting(m: DualModel, size: usize)
    requires
        m.inv(),
        m.accounted(),
        m.flushes(size) ==> m.batch_credited(size) <= m.used && m.arena.high + m.batch_credited(
            size,
        ) <= m.arena.limit,
    ensures
        m.dealloc_step(size).accounted(),
{
}

/// A deallocation that does not flush moves no cursor: it only credits
/// the batch accumulator.
pub proof fn lemma_no_flush_keeps_cursors(m: DualModel, size: usize)
    requires
        !m.flushes(size),
    ensures
        m.dealloc_step(size).arena == m.arena,
        m.dealloc_step(size).used == m.used,
        m.dealloc_step(size).round == m.round,
        m.dealloc_step(size).batch == m.batch_credited(size),
{
}

/// Freeing a run of ephemeral-classified blocks, none of them the trigger
/// or the retire size, only accumulates: the batch grows by exactly the
/// sizes' sum and nothing else changes.
pub proof fn lemma_batch_accumulation(m: DualModel, sizes: Seq<usize>)
    requires
        0 <= m.batch,
        m.batch + sizes_sum(sizes) <= usize::MAX,
        forall|i: int| 0 <= i < sizes.len() ==> m.policy.classify(
            #[trigger] sizes[i],
            m.round,
        ) is Ephemeral,
        forall|i: int| 0 <= i < sizes.len() ==> #[trigger] sizes[i] != m.policy.flush_trigger,
        forall|i: int| 0 <= i < sizes.len() ==> #[trigger] sizes[i] != m.policy.pool_retire_size,
    ensures
        dealloc_seq(m, sizes) == (DualModel { batch: m.batch + sizes_sum(sizes), ..m }),
    decreases sizes.len(),
{
    if sizes.len() == 0 {
        assert(m == (DualModel { batch: m.batch + 0, ..m }));
    } else {
        let s0 = sizes[0];
        assert(sizes_sum(sizes.skip(1)) >= 0) by {
            lemma_sizes_sum_nonneg(sizes.skip(1));
        }
        let m1 = m.dealloc_step(s0);
        assert(m1 == (DualModel { batch: m.batch + s0, ..m }));
        assert(forall|i: int|
            0 <= i < sizes.skip(1).len() ==> #[trigger] sizes.skip(1)[i] == sizes[i + 1]);
        lemma_batch_accumulation(m1, sizes.skip(1));
    }
}

/// A sequence sum of sizes is never negative.
proof fn lemma_sizes_sum_nonneg(sizes: Seq<usize>)
    ensures
        sizes_sum(sizes) >= 0,
    decreases sizes.len(),
{
    if sizes.len() > 0 {
        lemma_sizes_sum_nonneg(sizes.skip(1));
    }
}

/// A flush is exact: when a free of the trigger size finds the credited
/// batch above the threshold, the top cursor rises by exactly the
/// credited batch, the used count drops by the same amount, the batch
/// resets and the round counter advances by one. (The hypotheses rule
/// out the saturating edge cases: the batch is covered by the used count
/// and fits below the arena's nominal end.)
pub proof fn lemma_flush_exact(m: DualModel, size: usize)
    requires
        m.inv(),
        m.flushes(size),
        m.round < usize::MAX,
        m.batch_credited(size) <= m.used,
        m.arena.high + m.batch_credited(size) <= m.arena.limit,
    ensures
        m.dealloc_step(size).arena.high == m.arena.high + m.batch_credited(size),
        m.dealloc_step(size).used == m.used - m.batch_credited(size),
        m.dealloc_step(size).batch == 0,
        m.dealloc_step(size).round == m.round + 1,
        m.dealloc_step(size).arena.low == m.arena.low,
{
}

/// Batch reclamation, end to end: starting a round with an empty
/// accumulator, free `k` ephemeral blocks and then a block of the trigger
/// size. Writing `credited` for the sizes' sum plus whatever the trigger
/// free itself credits: if `credited` exceeds the threshold, the top
/// cursor rises by exactly `credited` and the round counter advances by
/// one; if it does not, the top cursor is unchanged and the accumulator
/// holds `credited` for a later flush.
pub proof fn lemma_batch_reclamation(m: DualModel, sizes: Seq<usize>, trigger: usize)
    requires
        m.inv(),
        m.batch == 0,
        m.round < usize::MAX,
        trigger == m.policy.flush_trigger,
        trigger != m.policy.pool_retire_size,
        forall|i: int| 0 <= i < sizes.len() ==> m.policy.classify(
            #[trigger] sizes[i],
            m.round,
        ) is Ephemeral,
        forall|i: int| 0 <= i < sizes.len() ==> #[trigger] sizes[i] != m.policy.flush_trigger,
        forall|i: int| 0 <= i < sizes.len() ==> #[trigger] sizes[i] != m.policy.pool_retire_size,
        sizes_sum(sizes) + trigger as int <= usize::MAX,
        dealloc_seq(m, sizes).batch_credited(trigger) <= m.used,
        m.arena.high + dealloc_seq(m, sizes).batch_credited(trigger) <= m.arena.limit,
    ensures
        dealloc_seq(m, sizes).batch == sizes_sum(sizes),
        dealloc_seq(m, sizes).arena == m.arena,
        dealloc_seq(m, sizes).batch_credited(trigger) > m.policy.flush_threshold ==> {
            let fin = dealloc_seq(m, sizes).dealloc_step(trigger);
            &&& fin.arena.high == m.arena.high + dealloc_seq(m, sizes).batch_credited(trigger)
            &&& fin.round == m.round + 1
            &&& fin.batch == 0
        },
        dealloc_seq(m, sizes).batch_credited(trigger) <= m.policy.flush_threshold ==> {
            let fin = dealloc_seq(m, sizes).dealloc_step(trigger);
            &&& fin.arena == m.arena
            &&& fin.round == m.round
            &&& fin.batch == dealloc_seq(m, sizes).batch_credited(trigger)
        },
{
    lemma_sizes_sum_nonneg(sizes);
    lemma_batch_accumulation(m, sizes);
    let mk = dealloc_seq(m, sizes);
    if mk.batch_credited(trigger) > m.policy.flush_threshold {
        lemma_flush_exact(mk, trigger);
    } else {
        lemma_no_flush_keeps_cursors(mk, trigger);
    }
}

/// The block `[a, a + s)` lies in the state's free footprint: the free
/// span between the cursors, or the unconsumed part of the pool
/// sub-range.
pub open spec fn in_free_footprint(m: DualModel, a: int, s: int) -> bool {
    (m.arena.low <= a && a + s <= m.arena.high) || (m.pool <= a && a + s <= m.arena.limit)
}

impl DualModel {
    /// The free span lies entirely below the unconsumed pool range. This
    /// holds from `init` until a flush retires the pool sub-range into
    /// the free span.
    pub open spec fn pool_separated(self) -> bool {
        self.arena.high <= self.pool
    }
}

/// One successful allocation hands out a block from the free footprint,
/// and everything that stays in the footprint afterwards is disjoint
/// from that block.
pub proof fn lemma_alloc_footprint(m: DualModel, size: usize)
    requires
        m.inv(),
        m.pool_separated(),
        m.fits(size as int),
        m.policy.classify(size, m.round) is Overflow ==> m.pool + size <= m.arena.limit,
    ensures
        in_free_footprint(m, m.alloc_addr(size), size as int),
        m.alloc_step(size).inv(),
        m.alloc_step(size).pool_separated(),
        forall|a: int, s: int|
            0 <= s && in_free_footprint(m.alloc_step(size), a, s) ==> in_free_footprint(m, a, s),
        size >= 1 ==> forall|a: int, s: int|
            1 <= s && in_free_footprint(m.alloc_step(size), a, s) ==> ranges_disjoint(
                a,
                s,
                m.alloc_addr(size),
                size as int,
            ),
{
}

/// Whether every allocation in the run fits the state it meets (with
/// overflow-pool requests fitting the reserved sub-range).
pub open spec fn all_allocs_fit(m: DualModel, sizes: Seq<usize>) -> bool
    decreases sizes.len(),
{
    sizes.len() == 0 || {
        &&& m.fits(sizes[0] as int)
        &&& (m.policy.classify(sizes[0], m.round) is Overflow ==> m.pool + sizes[0]
            <= m.arena.limit)
        &&& all_allocs_fit(m.alloc_step(sizes[0]), sizes.skip(1))
    }
}

/// The state after a run of allocations of the given sizes.
pub open spec fn alloc_seq_state(m: DualModel, sizes: Seq<usize>) -> DualModel
    decreases sizes.len(),
{
    if sizes.len() == 0 {
        m
    } else {
        alloc_seq_state(m.alloc_step(sizes[0]), sizes.skip(1))
    }
}

/// The addresses a run of allocations of the given sizes hands out.
pub open spec fn alloc_seq_addrs(m: DualModel, sizes: Seq<usize>) -> Seq<int>
    decreases sizes.len(),
{
    if sizes.len() == 0 {
        Seq::empty()
    } else {
        seq![m.alloc_addr(sizes[0])].add(alloc_seq_addrs(m.alloc_step(sizes[0]), sizes.skip(1)))
    }
}

/// No-overlap: all blocks handed out by a run of successful allocations
/// with no intervening flush occupy pairwise disjoint byte ranges, and
/// every one of them lies inside the free footprint the run started
/// from (so none of them overlaps a block handed out earlier and still
/// live outside that footprint).
pub proof fn lemma_allocs_disjoint(m: DualModel, sizes: Seq<usize>)
    requires
        m.inv(),
        m.pool_separated(),
        all_allocs_fit(m, sizes),
        forall|i: int| 0 <= i < sizes.len() ==> #[trigger] sizes[i] >= 1,
    ensures
        alloc_seq_addrs(m, sizes).len() == sizes.len(),
        forall|i: int|
            0 <= i < sizes.len() ==> in_free_footprint(
                m,
                #[trigger] alloc_seq_addrs(m, sizes)[i],
                sizes[i] as int,
            ),
        forall|i: int, j: int|
            0 <= i < j < sizes.len() ==> ranges_disjoint(
                #[trigger] alloc_seq_addrs(m, sizes)[i],
                sizes[i] as int,
                #[trigger] alloc_seq_addrs(m, sizes)[j],
                sizes[j] as int,
            ),
    decreases sizes.len(),
{
    if sizes.len() > 0 {
        let s0 = sizes[0];
        let m1 = m.alloc_step(s0);
        lemma_alloc_footprint(m, s0);
        assert(forall|i: int|
            0 <= i < sizes.skip(1).len() ==> #[trigger] sizes.skip(1)[i] == sizes[i + 1]);
        lemma_allocs_disjoint(m1, sizes.skip(1));
        let addrs = alloc_seq_addrs(m, sizes);
        let rest = alloc_seq_addrs(m1, sizes.skip(1));
        assert(forall|i: int| 0 <= i < rest.len() ==> addrs[i + 1] == #[trigger] rest[i]);
    }
}

/// The round counter only ever increases: allocation never touches it,
/// and deallocation advances it exactly on a flush.
pub proof fn lemma_round_monotonic(m: DualModel, size: usize)
    ensures
        m.alloc_step(size).round == m.round,
        m.dealloc_step(size).round >= m.round,
        m.flushes(size) && m.round < usize::MAX ==> m.dealloc_step(size).round == m.round + 1,
        !m.flushes(size) ==> m.dealloc_step(size).round == m.round,
{
}

/// One caller-visible event of an allocation trace. A release names the
/// live block it returns (callers may only release what they were
/// handed: anything else is outside the allocator's contract).
pub ghost enum DualEvent {
    Alloc { size: usize },
    Free { idx: int },
}

/// Whether an event respects the discipline the design assumes of its
/// single well-behaved caller:
/// - allocations fit (pool requests fit the reserved sub-range), and an
///   ephemeral allocation only happens between reclamation rounds, while
///   no freed bytes are pending;
/// - a release names a live block whose placement class the policy still
///   assigns to its size, is never the pool-retirement signal, and
///   releases ephemeral blocks stack-wise: each freed ephemeral block is
///   the lowest one live, directly above the pending freed span.
pub open spec fn dual_event_ok(m: DualModel, live: Seq<ClassedBlock>, ev: DualEvent) -> bool {
    match ev {
        DualEvent::Alloc { size } => {
            &&& size >= 1
            &&& m.fits(size as int)
            &&& (m.policy.classify(size, m.round) is Overflow ==> m.pool + size <= m.arena.limit)
            &&& (m.policy.classify(size, m.round) is Ephemeral ==> m.batch == 0)
        },
        DualEvent::Free { idx } => {
            &&& 0 <= idx < live.len()
            &&& live[idx].size != m.policy.pool_retire_size
            &&& (m.policy.classify(live[idx].size as usize, m.round) is Ephemeral
                <==> live[idx].class is Ephemeral)
            &&& (live[idx].class is Ephemeral ==> live[idx].addr == m.arena.high + m.batch)
        },
    }
}

/// The allocator state and the live-block set after an event.
pub open spec fn dual_event_step(m: DualModel, live: Seq<ClassedBlock>, ev: DualEvent) -> (
    DualModel,
    Seq<ClassedBlock>,
) {
    match ev {
        DualEvent::Alloc { size } => (
            m.alloc_step(size),
            live.push(
                ClassedBlock {
                    addr: m.alloc_addr(size),
                    size: size as int,
                    class: m.policy.classify(size, m.round),
                },
            ),
        ),
        DualEvent::Free { idx } => (m.dealloc_step(live[idx].size as usize), live.remove(idx)),
    }
}

/// The live-block invariant of the dual arena: bottom blocks sit in the
/// consumed bottom region, ephemeral blocks stack above the pending
/// freed span and below the pool sub-range, pool blocks sit in the
/// consumed part of the pool sub-range, and all live blocks occupy
/// pairwise disjoint byte ranges.
pub open spec fn dual_live_inv(m: DualModel, live: Seq<ClassedBlock>) -> bool {
    &&& m.inv()
    &&& m.arena.high + m.batch <= m.pool_base()
    &&& forall|i: int|
        0 <= i < live.len() ==> (#[trigger] live[i]).size >= 1 && 0 <= live[i].size <= usize::MAX
    &&& forall|i: int|
        0 <= i < live.len() && (#[trigger] live[i]).class is Bottom ==> m.arena.base <= live[i].addr
            && live[i].addr + live[i].size <= m.arena.low
    &&& forall|i: int|
        0 <= i < live.len() && (#[trigger] live[i]).class is Ephemeral ==> m.arena.high + m.batch
            <= live[i].addr && live[i].addr + live[i].size <= m.pool_base()
    &&& forall|i: int|
        0 <= i < live.len() && (#[trigger] live[i]).class is Overflow ==> m.pool_base()
            <= live[i].addr && live[i].addr + live[i].size <= m.pool
    &&& forall|i: int, j: int|
        0 <= i < live.len() && 0 <= j < live.len() && i != j ==> ranges_disjoint(
            (#[trigger] live[i]).addr,
            live[i].size,
            (#[trigger] live[j]).addr,
            live[j].size,
        )
}

/// One disciplined event preserves the live-block invariant: in
/// particular, a fresh allocation is disjoint from every block still
/// live, and a flush only ever reclaims bytes no live block occupies.
pub proof fn lemma_dual_live_step(m: DualModel, live: Seq<ClassedBlock>, ev: DualEvent)
    requires
        dual_live_inv(m, live),
        dual_event_ok(m, live, ev),
    ensures
        dual_live_inv(dual_event_step(m, live, ev).0, dual_event_step(m, live, ev).1),
{
    let (m2, live2) = dual_event_step(m, live, ev);
    match ev {
        DualEvent::Alloc { size: _ } => {},
        DualEvent::Free { idx } => {
            let b = live[idx];
            assert(forall|j: int| 0 <= j < live2.len() ==> #[trigger] live2[j] == live[
                if j < idx {
                    j
                } else {
                    j + 1
                }
            ]);
            if b.class is Ephemeral {
                // The freed block sat directly above the pending span, so
                // every other ephemeral block, disjoint from it, starts at
                // or above its end: the grown span stays free of them.
                assert(forall|j: int|
                    0 <= j < live2.len() && (#[trigger] live2[j]).class is Ephemeral ==> b.addr
                        + b.size <= live2[j].addr);
            }
        },
    }
}

/// The allocator state after a trace of events.
pub open spec fn dual_trace_state(m: DualModel, live: Seq<ClassedBlock>, evs: Seq<DualEvent>) -> (
    DualModel,
    Seq<ClassedBlock>,
)
    decreases evs.len(),
{
    if evs.len() == 0 {
        (m, live)
    } else {
        let (m2, live2) = dual_event_step(m, live, evs[0]);
        dual_trace_state(m2, live2, evs.skip(1))
    }
}

/// Whether every event of a trace respects the caller discipline for the
/// state it meets.
pub open spec fn dual_trace_ok(m: DualModel, live: Seq<ClassedBlock>, evs: Seq<DualEvent>) -> bool
    decreases evs.len(),
{
    evs.len() == 0 || {
        &&& dual_event_ok(m, live, evs[0])
        &&& {
            let (m2, live2) = dual_event_step(m, live, evs[0]);
            dual_trace_ok(m2, live2, evs.skip(1))
        }
    }
}

/// No-overlap, over whole traces: starting from a freshly initialized
/// allocator (or any state whose live blocks satisfy the invariant), any
/// disciplined sequence of allocations and releases keeps every pair of
/// concurrently live blocks disjoint — batch flushes included.
pub proof fn lemma_dual_no_overlap(m: DualModel, live: Seq<ClassedBlock>, evs: Seq<DualEvent>)
    requires
        dual_live_inv(m, live),
        dual_trace_ok(m, live, evs),
    ensures
        dual_live_inv(dual_trace_state(m, live, evs).0, dual_trace_state(m, live, evs).1),
    decreases evs.len(),
{
    if evs.len() > 0 {
        lemma_dual_live_step(m, live, evs[0]);
        let (m2, live2) = dual_event_step(m, live, evs[0]);
        lemma_dual_no_overlap(m2, live2, evs.skip(1));
    }
}

/// A freshly initialized allocator, with no live blocks, satisfies the
/// live-block invariant: the starting point for [`lemma_dual_no_overlap`].
pub proof fn lemma_dual_inited_live_inv(policy: PolicyModel, start: int, size: int)
    requires
        0 <= start,
        policy.pool_total <= size,
        start + size <= usize::MAX,
        size + policy.pool_total <= usize::MAX,
    ensures
        dual_live_inv(DualModel::inited(policy, start, size), Seq::empty()),
{
}

/// The dual-arena byte allocator, driven by an injected [`Policy`].
pub struct DualArena {
    arena: Arena,
    policy: Policy,
    pool: usize,
    used: usize,
    batch: usize,
    round: usize,
}

impl View for DualArena {
    type V = DualModel;

    closed spec fn view(&self) -> DualModel {
        DualModel {
            arena: self.arena@,
            policy: self.policy@,
            pool: self.pool as int,
            used: self.used as int,
            batch: self.batch as int,
            round: self.round as int,
        }
    }
}

impl DualArena {
    /// Creates a new, not yet initialized allocator driven by `policy`.
    pub fn new(policy: Policy) -> (r: Self)
        ensures
            r@ == DualModel::empty(policy@),
    {
        DualArena { arena: Arena::empty(), policy: policy, pool: 0, used: 0, batch: 0, round: 0 }
    }

    /// Hands the allocator its range `[start, start + size)`: the top
    /// `pool_total` bytes are reserved for the overflow pool, and the top
    /// cursor starts below them. The range must hold the reserved
    /// sub-range and fit the address space with headroom for accounting.
    pub fn init(&mut self, start: usize, size: usize)
        requires
            old(self)@.policy.pool_total <= size,
            start as int + size as int <= usize::MAX as int,
            size as int + old(self)@.policy.pool_total as int <= usize::MAX as int,
        ensures
            final(self)@ == DualModel::inited(old(self)@.policy, start as int, size as int),
            final(self)@.inv(),
    {
        let end = start + size;
        let pb = end - self.policy.pool_total;
        self.arena = Arena::with_top_reserve(start, pb, end);
        self.pool = pb;
        self.used = 0;
        self.batch = 0;
        self.round = 0;
    }

    /// Growing the arena is a deliberate no-op: out-of-memory is terminal
    /// for the arena as configured.
    pub fn add_memory(&mut self, start: usize, size: usize) -> (r: Result<(), AllocError>)
        ensures
            final(self)@ == old(self)@,
            r == Ok::<(), AllocError>(()),
    {
        let _ = start;
        let _ = size;
        Ok(())
    }

    /// Serves `size` bytes from the placement class the policy picks, or
    /// fails with `NoMemory` exactly when the request does not fit the
    /// free span. Overflow-pool requests must fit the reserved sub-range:
    /// the pool serves a bounded family of allocations by design.
    /// Alignment beyond the natural word size is not honored.
    pub fn alloc_bytes(&mut self, size: usize, align: usize) -> (r: Result<usize, AllocError>)
        requires
            old(self)@.inv(),
            old(self)@.policy.classify(size, old(self)@.round) is Overflow ==> old(self)@.pool
                + size <= old(self)@.arena.limit,
        ensures
            final(self)@ == old(self)@.alloc_step(size),
            final(self)@.inv(),
            (r is Ok) <==> old(self)@.fits(size as int),
            r is Ok ==> r->Ok_0 as int == old(self)@.alloc_addr(size),
            r is Err ==> r->Err_0 == AllocError::NoMemory && final(self)@ == old(self)@,
    {
        let _ = align;
        if size > self.arena.free_len() {
            return Err(AllocError::NoMemory);
        }
        match self.policy.classify(size, self.round) {
            Placement::Overflow => {
                let addr = self.pool;
                self.pool = self.pool + size;
                self.used = self.used + size;
                Ok(addr)
            },
            Placement::Ephemeral => {
                let addr = self.arena.take_high(size);
                self.used = self.used + size;
                Ok(addr)
            },
            Placement::Bottom => {
                let addr = self.arena.take_low(size);
                self.used = self.used + size;
                Ok(addr)
            },
        }
    }

    /// Releases `size` bytes at `pos`. The release is accounting only: an
    /// ephemeral-classified free credits the batch accumulator, a free of
    /// the policy's retire size credits the whole reserved pool sub-range,
    /// and a free of the trigger size flushes the batch back to the top
    /// cursor once the accumulator exceeds the threshold. All other frees
    /// are deliberate no-op leaks.
    pub fn dealloc_bytes(&mut self, pos: usize, size: usize, align: usize)
        requires
            old(self)@.inv(),
        ensures
            final(self)@ == old(self)@.dealloc_step(size),
            final(self)@.inv(),
    {
        let _ = pos;
        let _ = align;
        let is_eph = match self.policy.classify(size, self.round) {
            Placement::Ephemeral => true,
            Placement::Overflow => false,
            Placement::Bottom => false,
        };
        if is_eph {
            self.batch = self.batch.saturating_add(size);
        }
        if size == self.policy.pool_retire_size {
            self.batch = self.batch.saturating_add(self.policy.pool_total);
        }
        if size == self.policy.flush_trigger && self.batch > self.policy.flush_threshold {
            let b = self.batch;
            self.arena.give_high(b);
            self.used = self.used.saturating_sub(b);
            self.batch = 0;
            if self.round < usize::MAX {
                self.round = self.round + 1;
            }
        }
    }

    pub fn total_bytes(&self) -> (r: usize)
        requires
            self@.inv(),
        ensures
            r as int == self@.total_bytes(),
    {
        self.arena.limit() - self.policy.pool_total - self.arena.base()
    }

    pub fn used_bytes(&self) -> (r: usize)
        ensures
            r as int == self@.used,
    {
        self.used
    }

    pub fn available_bytes(&self) -> (r: usize)
        requires
            self@.inv(),
        ensures
            r as int == self@.available_bytes(),
    {
        self.arena.free_len()
    }

    /// The current reclamation round.
    pub fn round(&self) -> (r: usize)
        ensures
            r as int == self@.round,
    {
        self.round
    }
}

} // verus!
