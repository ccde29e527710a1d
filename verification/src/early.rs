//! The bootstrap allocator: a double-ended bump allocator that serves byte
//! requests upward from the bottom of a fixed range and page requests
//! downward from its top, before any general-purpose allocator exists.
//!
//! ```text
//! [ bytes-used | free span | pages-used ]
//! base        low -->  <-- high        limit
//! ```
//!
//! Bytes are reclaimed only when the freed block is exactly the last one
//! handed out (strict last-in-first-out release); anything else is a
//! deliberate no-op leak. Pages are never returned to the free span; a bulk
//! page deallocation only decrements the accounting counter.

use vstd::prelude::*;

use crate::arena::{ranges_disjoint, AllocError, Arena, ArenaModel};

verus! {

/// The word size that boot-time ranges are aligned to (64-bit platforms).
pub const WORD_SIZE: usize = 8;

/// `a` rounded up to the next multiple of [`WORD_SIZE`].
pub open spec fn word_align_up(a: int) -> int {
    ((a + 7) / 8) * 8
}

/// `a` rounded down to a multiple of [`WORD_SIZE`].
pub open spec fn word_align_down(a: int) -> int {
    (a / 8) * 8
}

/// `x` is a positive power of two.
pub open spec fn is_pow2(x: int) -> bool
    decreases x,
{
    if x <= 0 {
        false
    } else if x == 1 {
        true
    } else {
        x % 2 == 0 && is_pow2(x / 2)
    }
}

/// Mathematical image of an [`EarlyAllocator`].
pub ghost struct EarlyModel {
    pub arena: ArenaModel,
    /// Bytes handed out from the bottom and not yet reclaimed.
    pub bused: int,
    /// Bytes of pages handed out from the top, minus bulk page
    /// deallocations, which adjust this counter only.
    pub pused: int,
}

impl EarlyModel {
    /// The invariant every reachable allocator state keeps: the cursors
    /// never cross, byte accounting mirrors the bottom cursor exactly, and
    /// page accounting never exceeds the top region's footprint (it can
    /// fall short of it after a bulk page deallocation).
    pub open spec fn wf(self) -> bool {
        &&& self.arena.wf()
        &&& self.bused == self.arena.low - self.arena.base
        &&& 0 <= self.pused <= self.arena.limit - self.arena.high
    }

    /// The state every allocator starts from.
    pub open spec fn empty() -> EarlyModel {
        EarlyModel { arena: ArenaModel::fresh(0, 0), bused: 0, pused: 0 }
    }

    /// The state directly after `init(start, size)`: the range is aligned
    /// inward to whole words and both counters are cleared.
    pub open spec fn inited(start: int, size: int) -> EarlyModel {
        EarlyModel {
            arena: ArenaModel::fresh(
                word_align_up(start),
                word_align_down(word_align_up(start) + size),
            ),
            bused: 0,
            pused: 0,
        }
    }

    pub open spec fn total_bytes(self) -> int {
        self.arena.limit - self.arena.base
    }

    pub open spec fn available_bytes(self) -> int {
        self.total_bytes() - self.bused - self.pused
    }

    /// A byte request succeeds exactly when it fits the free span.
    pub open spec fn bytes_fit(self, size: int) -> bool {
        size <= self.arena.free_len()
    }

    /// State after a successful byte allocation of `size`.
    pub open spec fn bytes_taken(self, size: int) -> EarlyModel {
        EarlyModel { arena: self.arena.took_low(size), bused: self.bused + size, ..self }
    }

    /// A byte deallocation reclaims only an exact last-allocation release:
    /// the freed block must end at the bottom cursor and must not reach
    /// below the accounted byte region.
    pub open spec fn bytes_reclaimable(self, pos: int, size: int) -> bool {
        pos + size == self.arena.low && size <= self.bused
    }

    /// State after `dealloc(pos, size)`: a reclaim or a no-op leak.
    pub open spec fn bytes_freed(self, pos: int, size: int) -> EarlyModel {
        if self.bytes_reclaimable(pos, size) {
            EarlyModel { arena: self.arena.gave_low(size), bused: self.bused - size, ..self }
        } else {
            self
        }
    }

    /// A page request is malformed unless its alignment is a whole multiple
    /// of the page size and that multiple is a power of two.
    pub open spec fn pages_param_ok(align_pow2: int, page_size: int) -> bool {
        align_pow2 % page_size == 0 && is_pow2(align_pow2 / page_size)
    }

    /// A page request succeeds exactly when its span fits the free span.
    pub open spec fn pages_fit(self, num_pages: int, page_size: int) -> bool {
        num_pages * page_size <= self.arena.free_len()
    }

    /// State after a successful page allocation.
    pub open spec fn pages_taken(self, num_pages: int, page_size: int) -> EarlyModel {
        EarlyModel {
            arena: self.arena.took_high(num_pages * page_size),
            pused: self.pused + num_pages * page_size,
            ..self
        }
    }

    /// State after a bulk page deallocation: the accounting counter drops
    /// by the span, saturating at zero; the address range is not returned.
    pub open spec fn pages_freed(self, num_pages: int, page_size: int) -> EarlyModel {
        if num_pages * page_size <= self.pused {
            EarlyModel { pused: self.pused - num_pages * page_size, ..self }
        } else {
            EarlyModel { pused: 0, ..self }
        }
    }
}

/// The bootstrap-only allocator over a fixed range: bytes forward from the
/// bottom, pages backward from the top. `PAGE_SIZE` is the platform page
/// size in bytes.
pub struct EarlyAllocator<const PAGE_SIZE: usize> {
    arena: Arena,
    bused: usize,
    pused: usize,
}

impl<const PAGE_SIZE: usize> View for EarlyAllocator<PAGE_SIZE> {
    type V = EarlyModel;

    closed spec fn view(&self) -> EarlyModel {
        EarlyModel { arena: self.arena@, bused: self.bused as int, pused: self.pused as int }
    }
}

impl<const PAGE_SIZE: usize> EarlyAllocator<PAGE_SIZE> {
    /// Creates a new, not yet initialized allocator over the empty range.
    pub fn new() -> (r: Self)
        ensures
            r@ == EarlyModel::empty(),
            r@.wf(),
    {
        EarlyAllocator { arena: Arena::empty(), bused: 0, pused: 0 }
    }

    /// Hands the allocator its range: `start` is aligned upward and the
    /// computed end downward to the platform word size, and both counters
    /// are cleared. Callers supply a range whose aligned start, plus the
    /// size, stays within the address space.
    pub fn init(&mut self, start: usize, size: usize)
        requires
            word_align_up(start as int) + size as int <= usize::MAX as int,
        ensures
            final(self)@ == EarlyModel::inited(start as int, size as int),
            final(self)@.wf(),
    {
        proof {
            assert(word_align_up(start as int) >= start as int);
            assert(word_align_up(start as int) % 8 == 0);
            assert(usize::MAX as int % 8 == 7);
            assert(start as int + 7 <= usize::MAX as int);
        }
        let al_start = (start + (WORD_SIZE - 1)) / WORD_SIZE * WORD_SIZE;
        let end = (al_start + size) / WORD_SIZE * WORD_SIZE;
        assert(al_start as int <= end as int);
        self.arena = Arena::new(al_start, end);
        self.bused = 0;
        self.pused = 0;
    }

    /// Extending the range after initialization is unsupported: this
    /// allocator serves a single fixed region.
    pub fn add_memory(&mut self, start: usize, size: usize) -> (r: Result<(), AllocError>)
        ensures
            final(self)@ == old(self)@,
            r == Err::<(), AllocError>(AllocError::Unsupported),
    {
        let _ = start;
        let _ = size;
        Err(AllocError::Unsupported)
    }

    /// Serves `size` bytes from the bottom cursor, or fails with
    /// `NoMemory` exactly when the request does not fit the free span.
    /// Alignment beyond the natural word size is not honored: callers
    /// pre-align boot-time requests.
    pub fn alloc_bytes(&mut self, size: usize, align: usize) -> (r: Result<usize, AllocError>)
        requires
            old(self)@.wf(),
        ensures
            final(self)@ == (if old(self)@.bytes_fit(size as int) {
                old(self)@.bytes_taken(size as int)
            } else {
                old(self)@
            }),
            final(self)@.wf(),
            (r is Ok) <==> old(self)@.bytes_fit(size as int),
            r is Ok ==> r->Ok_0 as int == old(self)@.arena.low,
            r is Err ==> r->Err_0 == AllocError::NoMemory,
    {
        let _ = align;
        if size > self.arena.free_len() {
            return Err(AllocError::NoMemory);
        }
        let addr = self.arena.take_low(size);
        self.bused = self.bused + size;
        Ok(addr)
    }

    /// Releases `size` bytes at `pos`. Only an exact last-allocation
    /// release (the block ends at the bottom cursor) is reclaimed; any
    /// other release is a deliberate no-op leak.
    pub fn dealloc_bytes(&mut self, pos: usize, size: usize, align: usize)
        requires
            old(self)@.wf(),
        ensures
            final(self)@ == old(self)@.bytes_freed(pos as int, size as int),
            final(self)@.wf(),
    {
        let _ = align;
        if size <= self.bused && pos == self.arena.low() - size {
            self.arena.give_low(size);
            self.bused = self.bused - size;
        }
    }

    pub fn total_bytes(&self) -> (r: usize)
        requires
            self@.wf(),
        ensures
            r as int == self@.total_bytes(),
    {
        self.arena.limit() - self.arena.base()
    }

    pub fn used_bytes(&self) -> (r: usize)
        ensures
            r as int == self@.bused,
    {
        self.bused
    }

    pub fn available_bytes(&self) -> (r: usize)
        requires
            self@.wf(),
        ensures
            r as int == self@.available_bytes(),
    {
        self.arena.limit() - self.arena.base() - self.bused - self.pused
    }

    /// Reserves `num_pages` pages from the top cursor, which moves
    /// strictly downward, and returns the new cursor as the page block's
    /// address. Fails with `InvalidParam` on a malformed alignment and
    /// with `NoMemory` exactly when the span does not fit the free span.
    /// Alignment beyond the page itself is not honored (no large pages).
    pub fn alloc_pages(&mut self, num_pages: usize, align_pow2: usize) -> (r: Result<
        usize,
        AllocError,
    >)
        requires
            old(self)@.wf(),
            PAGE_SIZE >= 1,
        ensures
            final(self)@ == (if EarlyModel::pages_param_ok(align_pow2 as int, PAGE_SIZE as int)
                && old(self)@.pages_fit(num_pages as int, PAGE_SIZE as int) {
                old(self)@.pages_taken(num_pages as int, PAGE_SIZE as int)
            } else {
                old(self)@
            }),
            final(self)@.wf(),
            !EarlyModel::pages_param_ok(align_pow2 as int, PAGE_SIZE as int) ==> r == Err::<
                usize,
                AllocError,
            >(AllocError::InvalidParam),
            EarlyModel::pages_param_ok(align_pow2 as int, PAGE_SIZE as int) && !old(
                self,
            )@.pages_fit(num_pages as int, PAGE_SIZE as int) ==> r == Err::<usize, AllocError>(
                AllocError::NoMemory,
            ),
            EarlyModel::pages_param_ok(align_pow2 as int, PAGE_SIZE as int) && old(
                self,
            )@.pages_fit(num_pages as int, PAGE_SIZE as int) ==> r == Ok::<usize, AllocError>(
                (old(self)@.arena.high - num_pages as int * PAGE_SIZE as int) as usize,
            ),
    {
        if align_pow2 % PAGE_SIZE != 0 {
            return Err(AllocError::InvalidParam);
        }
        if !is_power_of_two(align_pow2 / PAGE_SIZE) {
            return Err(AllocError::InvalidParam);
        }
        let free = self.arena.free_len();
        if num_pages > free / PAGE_SIZE {
            proof {
                lemma_mul_div_order(num_pages as int, free as int, PAGE_SIZE as int);
            }
            return Err(AllocError::NoMemory);
        }
        proof {
            lemma_mul_div_bound(num_pages as int, free as int, PAGE_SIZE as int);
        }
        let span = num_pages * PAGE_SIZE;
        let addr = self.arena.take_high(span);
        self.pused = self.pused + span;
        Ok(addr)
    }

    /// Bulk page release: decrements the page accounting counter by the
    /// span, saturating at zero. The address range itself is never
    /// returned to the free span before the general allocator is live.
    pub fn dealloc_pages(&mut self, pos: usize, num_pages: usize)
        requires
            old(self)@.wf(),
            PAGE_SIZE >= 1,
        ensures
            final(self)@ == old(self)@.pages_freed(num_pages as int, PAGE_SIZE as int),
            final(self)@.wf(),
    {
        let _ = pos;
        if num_pages <= self.pused / PAGE_SIZE {
            proof {
                lemma_mul_div_bound(num_pages as int, self.pused as int, PAGE_SIZE as int);
            }
            self.pused = self.pused - num_pages * PAGE_SIZE;
        } else {
            proof {
                lemma_mul_div_order(num_pages as int, self.pused as int, PAGE_SIZE as int);
            }
            self.pused = 0;
        }
    }

    pub fn total_pages(&self) -> (r: usize)
        requires
            self@.wf(),
            PAGE_SIZE >= 1,
        ensures
            r as int == self@.total_bytes() / PAGE_SIZE as int,
    {
        (self.arena.limit() - self.arena.base()) / PAGE_SIZE
    }

    pub fn used_pages(&self) -> (r: usize)
        requires
            PAGE_SIZE >= 1,
        ensures
            r as int == self@.pused / PAGE_SIZE as int,
    {
        self.pused / PAGE_SIZE
    }

    pub fn available_pages(&self) -> (r: usize)
        requires
            self@.wf(),
            PAGE_SIZE >= 1,
        ensures
            r as int == self@.available_bytes() / PAGE_SIZE as int,
    {
        (self.arena.limit() - self.arena.base() - self.bused - self.pused) / PAGE_SIZE
    }
}

/// Accounting identity: used bytes, used page bytes and available bytes
/// always partition the total, in every well-formed state.
pub proof fn lemma_early_accounting(m: EarlyModel)
    requires
        m.wf(),
    ensures
        m.bused + m.pused + m.available_bytes() == m.total_bytes(),
        m.pused == 0 ==> m.bused + m.available_bytes() == m.total_bytes(),
{
}

/// Exhaustion: while no pages have been bulk-released (so the page
/// accounting still mirrors the top region exactly), a byte request
/// succeeds if and only if it is at most the available byte count.
pub proof fn lemma_early_exhaustion(m: EarlyModel, size: int)
    requires
        m.wf(),
        m.pused == m.arena.limit - m.arena.high,
    ensures
        m.bytes_fit(size) <==> size <= m.available_bytes(),
{
}

/// Last-in-first-out symmetry: allocating `size` bytes and immediately
/// releasing the block the allocator returned restores the allocator's
/// state exactly, bottom cursor included.
pub proof fn lemma_lifo_roundtrip(m: EarlyModel, size: int)
    requires
        m.wf(),
        m.bytes_fit(size),
        size >= 0,
    ensures
        m.bytes_taken(size).bytes_freed(m.arena.low, size) == m,
{
}

/// The state after a strict last-in-first-out sequence: each size in turn
/// is allocated and the returned block at once released.
pub open spec fn lifo_pairs(m: EarlyModel, sizes: Seq<int>) -> EarlyModel
    decreases sizes.len(),
{
    if sizes.len() == 0 {
        m
    } else {
        lifo_pairs(m.bytes_taken(sizes[0]).bytes_freed(m.arena.low, sizes[0]), sizes.skip(1))
    }
}

/// Last-in-first-out symmetry over a whole sequence: a run of
/// allocate-then-release pairs, each released in strict reverse order of
/// allocation, returns the bottom cursor (and all accounting) to its
/// pre-sequence value.
pub proof fn lemma_lifo_roundtrip_seq(m: EarlyModel, sizes: Seq<int>)
    requires
        m.wf(),
        forall|i: int| 0 <= i < sizes.len() ==> 0 <= #[trigger] sizes[i] <= m.arena.free_len(),
    ensures
        lifo_pairs(m, sizes) == m,
    decreases sizes.len(),
{
    if sizes.len() > 0 {
        lemma_lifo_roundtrip(m, sizes[0]);
        assert(forall|i: int|
            0 <= i < sizes.skip(1).len() ==> #[trigger] sizes.skip(1)[i] == sizes[i + 1]);
        lemma_lifo_roundtrip_seq(m, sizes.skip(1));
    }
}

/// Page monotonicity: the top cursor strictly decreases across a
/// successful page allocation (for a nonzero span), and the address a
/// second allocation returns is exactly the first returned address minus
/// the second span; it can never lie above it.
pub proof fn lemma_pages_monotonic(m: EarlyModel, n1: int, n2: int, page_size: int)
    requires
        m.wf(),
        page_size >= 1,
        n1 >= 0,
        n2 >= 0,
        m.pages_fit(n1, page_size),
        m.pages_taken(n1, page_size).pages_fit(n2, page_size),
    ensures
        m.pages_taken(n1, page_size).arena.high == m.arena.high - n1 * page_size,
        n1 >= 1 ==> m.pages_taken(n1, page_size).arena.high < m.arena.high,
        m.pages_taken(n1, page_size).pages_taken(n2, page_size).arena.high == (m.arena.high - n1
            * page_size) - n2 * page_size,
{
    vstd::arithmetic::mul::lemma_mul_strictly_positive(n1, page_size);
    if n1 >= 1 {
        vstd::arithmetic::mul::lemma_mul_inequality(1, n1, page_size);
    }
}

/// The block `[a, a + s)` lies in the state's free span.
pub open spec fn in_free_span(m: EarlyModel, a: int, s: int) -> bool {
    m.arena.low <= a && a + s <= m.arena.high
}

/// One step of an allocation run: a byte request (`pages` false, `amount`
/// in bytes) or a page request (`pages` true, `amount` in pages).
pub open spec fn early_step(m: EarlyModel, pages: bool, amount: int, ps: int) -> EarlyModel {
    if pages {
        m.pages_taken(amount, ps)
    } else {
        m.bytes_taken(amount)
    }
}

/// The address that step hands out.
pub open spec fn early_step_addr(m: EarlyModel, pages: bool, amount: int, ps: int) -> int {
    if pages {
        m.arena.high - amount * ps
    } else {
        m.arena.low
    }
}

/// The byte span that step consumes.
pub open spec fn early_step_span(pages: bool, amount: int, ps: int) -> int {
    if pages {
        amount * ps
    } else {
        amount
    }
}

/// Whether that step fits the state it meets.
pub open spec fn early_step_fits(m: EarlyModel, pages: bool, amount: int, ps: int) -> bool {
    if pages {
        m.pages_fit(amount, ps)
    } else {
        m.bytes_fit(amount)
    }
}

/// One successful allocation (bytes or pages) hands out a block from the
/// free span, and everything that stays in the free span afterwards is
/// disjoint from that block.
pub proof fn lemma_early_alloc_footprint(m: EarlyModel, pages: bool, amount: int, ps: int)
    requires
        m.wf(),
        ps >= 1,
        amount >= 0,
        early_step_fits(m, pages, amount, ps),
    ensures
        in_free_span(m, early_step_addr(m, pages, amount, ps), early_step_span(pages, amount, ps)),
        early_step(m, pages, amount, ps).wf(),
        forall|a: int, s: int|
            0 <= s && in_free_span(early_step(m, pages, amount, ps), a, s) ==> in_free_span(
                m,
                a,
                s,
            ),
        forall|a: int, s: int|
            1 <= s && in_free_span(early_step(m, pages, amount, ps), a, s) ==> ranges_disjoint(
                a,
                s,
                early_step_addr(m, pages, amount, ps),
                early_step_span(pages, amount, ps),
            ),
{
    if pages {
        vstd::arithmetic::mul::lemma_mul_nonnegative(amount, ps);
    }
}

/// Whether every allocation in a run fits the state it meets. Each run
/// entry is `(pages, amount)`.
pub open spec fn early_all_fit(m: EarlyModel, ops: Seq<(bool, int)>, ps: int) -> bool
    decreases ops.len(),
{
    ops.len() == 0 || {
        &&& ops[0].1 >= 0
        &&& early_step_fits(m, ops[0].0, ops[0].1, ps)
        &&& early_all_fit(early_step(m, ops[0].0, ops[0].1, ps), ops.skip(1), ps)
    }
}

/// The addresses a run of allocations hands out.
pub open spec fn early_run_addrs(m: EarlyModel, ops: Seq<(bool, int)>, ps: int) -> Seq<int>
    decreases ops.len(),
{
    if ops.len() == 0 {
        Seq::empty()
    } else {
        seq![early_step_addr(m, ops[0].0, ops[0].1, ps)].add(
            early_run_addrs(early_step(m, ops[0].0, ops[0].1, ps), ops.skip(1), ps),
        )
    }
}

/// No-overlap: all blocks handed out by a run of successful byte and page
/// allocations occupy pairwise disjoint byte ranges, and every one of
/// them lies inside the free span the run started from — so byte blocks
/// and page blocks never collide, and none of them overlaps a block
/// handed out before the run.
pub proof fn lemma_early_allocs_disjoint(m: EarlyModel, ops: Seq<(bool, int)>, ps: int)
    requires
        m.wf(),
        ps >= 1,
        early_all_fit(m, ops, ps),
        forall|i: int|
            0 <= i < ops.len() ==> early_step_span(
                (#[trigger] ops[i]).0,
                ops[i].1,
                ps,
            ) >= 1,
    ensures
        early_run_addrs(m, ops, ps).len() == ops.len(),
        forall|i: int|
            0 <= i < ops.len() ==> in_free_span(
                m,
                #[trigger] early_run_addrs(m, ops, ps)[i],
                early_step_span(ops[i].0, ops[i].1, ps),
            ),
        forall|i: int, j: int|
            0 <= i < j < ops.len() ==> ranges_disjoint(
                #[trigger] early_run_addrs(m, ops, ps)[i],
                early_step_span(ops[i].0, ops[i].1, ps),
                #[trigger] early_run_addrs(m, ops, ps)[j],
                early_step_span(ops[j].0, ops[j].1, ps),
            ),
    decreases ops.len(),
{
    if ops.len() > 0 {
        let m1 = early_step(m, ops[0].0, ops[0].1, ps);
        lemma_early_alloc_footprint(m, ops[0].0, ops[0].1, ps);
        assert(forall|i: int|
            0 <= i < ops.skip(1).len() ==> #[trigger] ops.skip(1)[i] == ops[i + 1]);
        lemma_early_allocs_disjoint(m1, ops.skip(1), ps);
        let addrs = early_run_addrs(m, ops, ps);
        let rest = early_run_addrs(m1, ops.skip(1), ps);
        assert(forall|i: int| 0 <= i < rest.len() ==> addrs[i + 1] == #[trigger] rest[i]);
    }
}

/// A block handed out by the allocator and not yet released: its address
/// range, and whether it came from the page end.
pub ghost struct LiveBlock {
    pub addr: int,
    pub size: int,
    pub pages: bool,
}

/// One caller-visible event of an allocation trace. A release names the
/// live block it returns (callers may only release what they were handed:
/// anything else is outside the allocator's contract).
pub ghost enum EarlyEvent {
    AllocBytes { size: int },
    FreeBytes { idx: int },
    AllocPages { count: int },
    FreePages { idx: int, count: int },
}

/// Whether an event is legal for the state it meets: allocations fit the
/// free span, and releases name a live block of the right kind.
pub open spec fn event_ok(m: EarlyModel, live: Seq<LiveBlock>, ev: EarlyEvent, ps: int) -> bool {
    match ev {
        EarlyEvent::AllocBytes { size } => size >= 1 && m.bytes_fit(size),
        EarlyEvent::FreeBytes { idx } => 0 <= idx < live.len() && !live[idx].pages,
        EarlyEvent::AllocPages { count } => count >= 1 && m.pages_fit(count, ps),
        EarlyEvent::FreePages { idx, count } => 0 <= idx < live.len() && live[idx].pages && count
            >= 0 && live[idx].size == count * ps,
    }
}

/// The allocator state and the live-block set after an event.
pub open spec fn event_step(m: EarlyModel, live: Seq<LiveBlock>, ev: EarlyEvent, ps: int) -> (
    EarlyModel,
    Seq<LiveBlock>,
) {
    match ev {
        EarlyEvent::AllocBytes { size } => (
            m.bytes_taken(size),
            live.push(LiveBlock { addr: m.arena.low, size: size, pages: false }),
        ),
        EarlyEvent::FreeBytes { idx } => (
            m.bytes_freed(live[idx].addr, live[idx].size),
            live.remove(idx),
        ),
        EarlyEvent::AllocPages { count } => (
            m.pages_taken(count, ps),
            live.push(LiveBlock { addr: m.arena.high - count * ps, size: count * ps, pages: true }),
        ),
        EarlyEvent::FreePages { idx, count } => (m.pages_freed(count, ps), live.remove(idx)),
    }
}

/// The live-block invariant: every live byte block lies inside the
/// accounted byte region, every live page block inside the page region,
/// and all live blocks occupy pairwise disjoint byte ranges.
pub open spec fn live_inv(m: EarlyModel, live: Seq<LiveBlock>) -> bool {
    &&& m.wf()
    &&& forall|i: int| 0 <= i < live.len() ==> (#[trigger] live[i]).size >= 1
    &&& forall|i: int|
        0 <= i < live.len() && !(#[trigger] live[i]).pages ==> m.arena.base <= live[i].addr
            && live[i].addr + live[i].size <= m.arena.low
    &&& forall|i: int|
        0 <= i < live.len() && (#[trigger] live[i]).pages ==> m.arena.high <= live[i].addr
            && live[i].addr + live[i].size <= m.arena.limit
    &&& forall|i: int, j: int|
        0 <= i < live.len() && 0 <= j < live.len() && i != j ==> ranges_disjoint(
            (#[trigger] live[i]).addr,
            live[i].size,
            (#[trigger] live[j]).addr,
            live[j].size,
        )
}

/// One legal event preserves the live-block invariant: in particular, a
/// fresh allocation is disjoint from every block still live.
pub proof fn lemma_live_step(m: EarlyModel, live: Seq<LiveBlock>, ev: EarlyEvent, ps: int)
    requires
        ps >= 1,
        live_inv(m, live),
        event_ok(m, live, ev, ps),
    ensures
        live_inv(event_step(m, live, ev, ps).0, event_step(m, live, ev, ps).1),
{
    let (m2, live2) = event_step(m, live, ev, ps);
    match ev {
        EarlyEvent::AllocBytes { size: _ } => {},
        EarlyEvent::AllocPages { count } => {
            vstd::arithmetic::mul::lemma_mul_strictly_positive(count, ps);
        },
        EarlyEvent::FreeBytes { idx } => {
            let b = live[idx];
            assert(forall|j: int| 0 <= j < live2.len() ==> #[trigger] live2[j] == live[
                if j < idx {
                    j
                } else {
                    j + 1
                }
            ]);
            if m.bytes_reclaimable(b.addr, b.size) {
                // The freed block was the topmost byte block: every other
                // byte block, being disjoint from it, ends below it.
                assert(forall|j: int|
                    0 <= j < live2.len() && !(#[trigger] live2[j]).pages ==> live2[j].addr
                        + live2[j].size <= m.arena.low - b.size);
            }
        },
        EarlyEvent::FreePages { idx, count } => {
            vstd::arithmetic::mul::lemma_mul_nonnegative(count, ps);
            assert(forall|j: int| 0 <= j < live2.len() ==> #[trigger] live2[j] == live[
                if j < idx {
                    j
                } else {
                    j + 1
                }
            ]);
        },
    }
}

/// The allocator state after a trace of events.
pub open spec fn trace_state(m: EarlyModel, live: Seq<LiveBlock>, evs: Seq<EarlyEvent>, ps: int) -> (
    EarlyModel,
    Seq<LiveBlock>,
)
    decreases evs.len(),
{
    if evs.len() == 0 {
        (m, live)
    } else {
        let (m2, live2) = event_step(m, live, evs[0], ps);
        trace_state(m2, live2, evs.skip(1), ps)
    }
}

/// Whether every event of a trace is legal for the state it meets.
pub open spec fn trace_ok(m: EarlyModel, live: Seq<LiveBlock>, evs: Seq<EarlyEvent>, ps: int) -> bool
    decreases evs.len(),
{
    evs.len() == 0 || {
        &&& event_ok(m, live, evs[0], ps)
        &&& {
            let (m2, live2) = event_step(m, live, evs[0], ps);
            trace_ok(m2, live2, evs.skip(1), ps)
        }
    }
}

/// No-overlap, over whole traces: starting from any state whose live
/// blocks satisfy the invariant (a freshly initialized allocator with no
/// live blocks does), any legal sequence of allocations and releases
/// keeps every pair of concurrently live blocks disjoint.
pub proof fn lemma_early_no_overlap(
    m: EarlyModel,
    live: Seq<LiveBlock>,
    evs: Seq<EarlyEvent>,
    ps: int,
)
    requires
        ps >= 1,
        live_inv(m, live),
        trace_ok(m, live, evs, ps),
    ensures
        live_inv(trace_state(m, live, evs, ps).0, trace_state(m, live, evs, ps).1),
    decreases evs.len(),
{
    if evs.len() > 0 {
        lemma_live_step(m, live, evs[0], ps);
        let (m2, live2) = event_step(m, live, evs[0], ps);
        lemma_early_no_overlap(m2, live2, evs.skip(1), ps);
    }
}

/// A freshly initialized allocator, with no live blocks, satisfies the
/// live-block invariant: the starting point for [`lemma_early_no_overlap`].
pub proof fn lemma_inited_live_inv(start: int, size: int)
    requires
        word_align_up(start) + size <= usize::MAX,
        0 <= start,
        0 <= size,
    ensures
        live_inv(EarlyModel::inited(start, size), Seq::empty()),
{
}

/// If `n <= x / d` (for positive `d`) then `n * d <= x`.
proof fn lemma_mul_div_bound(n: int, x: int, d: int)
    requires
        d >= 1,
        x >= 0,
        n <= x / d,
    ensures
        n * d <= x,
{
    vstd::arithmetic::div_mod::lemma_fundamental_div_mod(x, d);
    vstd::arithmetic::mul::lemma_mul_inequality(n, x / d, d);
}

/// If `n > x / d` (for positive `d`, `n >= 0`) then `n * d > x`.
proof fn lemma_mul_div_order(n: int, x: int, d: int)
    requires
        d >= 1,
        x >= 0,
        n > x / d,
    ensures
        n * d > x,
{
    vstd::arithmetic::div_mod::lemma_fundamental_div_mod(x, d);
    vstd::arithmetic::mul::lemma_mul_inequality(x / d + 1, n, d);
    vstd::arithmetic::mul::lemma_mul_is_distributive_add_other_way(d, x / d, 1);
}

/// Whether `x` is a positive power of two, by repeated halving.
pub fn is_power_of_two(x: usize) -> (r: bool)
    ensures
        r == is_pow2(x as int),
{
    if x == 0 {
        return false;
    }
    let mut v: usize = x;
    while v % 2 == 0
        invariant
            v >= 1,
            is_pow2(x as int) == is_pow2(v as int),
        decreases v,
    {
        v = v / 2;
    }
    v == 1
}

} // verus!
