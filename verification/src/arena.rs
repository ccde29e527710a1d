//! The shared range-bookkeeping core: an address range `[base, limit)`
//! carved by two cursors, and the error kinds the allocators report.

use vstd::prelude::*;

verus! {

/// Failure kinds reported by the allocators.
#[derive(Clone, Copy, Debug, PartialEq, Eq, Structural)]
pub enum AllocError {
    /// The free span is too small for the request.
    NoMemory,
    /// A malformed alignment or page-count request.
    InvalidParam,
    /// The allocator variant does not offer the requested capability.
    Unsupported,
}

/// The byte ranges `[a1, a1 + s1)` and `[a2, a2 + s2)` share no address.
pub open spec fn ranges_disjoint(a1: int, s1: int, a2: int, s2: int) -> bool {
    a1 + s1 <= a2 || a2 + s2 <= a1
}

/// `a + b` on machine words, saturating at the word's maximum.
pub open spec fn sat_add(a: int, b: int) -> int {
    if a + b <= usize::MAX {
        a + b
    } else {
        usize::MAX as int
    }
}

/// `a - b`, saturating at zero.
pub open spec fn sat_sub(a: int, b: int) -> int {
    if a - b >= 0 {
        a - b
    } else {
        0
    }
}

/// Mathematical image of an [`Arena`].
pub ghost struct ArenaModel {
    pub base: int,
    pub low: int,
    pub high: int,
    pub limit: int,
}

impl ArenaModel {
    /// Cursor ordering kept by every reachable arena: the cursors stay
    /// inside `[base, limit)` and never cross.
    pub open spec fn wf(self) -> bool {
        0 <= self.base <= self.low <= self.high <= self.limit <= usize::MAX
    }

    /// Length of the free span `[low, high)`.
    pub open spec fn free_len(self) -> int {
        self.high - self.low
    }

    /// The arena directly after `init(base, limit)`: both cursors at rest.
    pub open spec fn fresh(base: int, limit: int) -> ArenaModel {
        ArenaModel { base: base, low: base, high: limit, limit: limit }
    }

    /// State after taking `size` bytes from the bottom of the free span.
    pub open spec fn took_low(self, size: int) -> ArenaModel {
        ArenaModel { low: self.low + size, ..self }
    }

    /// State after taking `size` bytes from the top of the free span.
    pub open spec fn took_high(self, size: int) -> ArenaModel {
        ArenaModel { high: self.high - size, ..self }
    }

    /// State after returning `amount` bytes below the top cursor, capped so
    /// the cursor never passes `limit`.
    pub open spec fn gave_high(self, amount: int) -> ArenaModel {
        if self.high + amount <= self.limit {
            ArenaModel { high: self.high + amount, ..self }
        } else {
            ArenaModel { high: self.limit, ..self }
        }
    }

    /// State after returning `size` bytes just below the bottom cursor.
    pub open spec fn gave_low(self, size: int) -> ArenaModel {
        ArenaModel { low: self.low - size, ..self }
    }
}

/// An address range `[base, limit)` with two ownership cursors. Bytes are
/// served upward from `low`; pages or ephemeral blocks are served downward
/// from `high`; `[low, high)` is the free span. All cursor arithmetic of
/// the allocators is centralized here.
pub struct Arena {
    base: usize,
    low: usize,
    high: usize,
    limit: usize,
}

impl View for Arena {
    type V = ArenaModel;

    closed spec fn view(&self) -> ArenaModel {
        ArenaModel {
            base: self.base as int,
            low: self.low as int,
            high: self.high as int,
            limit: self.limit as int,
        }
    }
}

impl Arena {
    /// An arena over the empty range at address zero.
    pub fn empty() -> (r: Arena)
        ensures
            r@ == ArenaModel::fresh(0, 0),
    {
        Arena { base: 0, low: 0, high: 0, limit: 0 }
    }

    /// An arena over `[base, limit)` with the whole range free.
    pub fn new(base: usize, limit: usize) -> (r: Arena)
        requires
            base <= limit,
        ensures
            r@ == ArenaModel::fresh(base as int, limit as int),
            r@.wf(),
    {
        Arena { base: base, low: base, high: limit, limit: limit }
    }

    /// An arena over `[base, limit)` whose top cursor starts at `high`,
    /// leaving `[high, limit)` reserved above it.
    pub fn with_top_reserve(base: usize, high: usize, limit: usize) -> (r: Arena)
        requires
            base <= high <= limit,
        ensures
            r@ == (ArenaModel {
                base: base as int,
                low: base as int,
                high: high as int,
                limit: limit as int,
            }),
            r@.wf(),
    {
        Arena { base: base, low: base, high: high, limit: limit }
    }

    pub fn base(&self) -> (r: usize)
        ensures
            r as int == self@.base,
    {
        self.base
    }

    pub fn low(&self) -> (r: usize)
        ensures
            r as int == self@.low,
    {
        self.low
    }

    pub fn high(&self) -> (r: usize)
        ensures
            r as int == self@.high,
    {
        self.high
    }

    pub fn limit(&self) -> (r: usize)
        ensures
            r as int == self@.limit,
    {
        self.limit
    }

    /// Length of the free span `[low, high)`.
    pub fn free_len(&self) -> (r: usize)
        requires
            self@.wf(),
        ensures
            r as int == self@.free_len(),
    {
        self.high - self.low
    }

    /// Take `size` bytes from the bottom of the free span; returns the base
    /// address of the taken block.
    pub fn take_low(&mut self, size: usize) -> (r: usize)
        requires
            old(self)@.wf(),
            size as int <= old(self)@.free_len(),
        ensures
            final(self)@ == old(self)@.took_low(size as int),
            final(self)@.wf(),
            r as int == old(self)@.low,
    {
        let r = self.low;
        self.low = self.low + size;
        r
    }

    /// Take `size` bytes from the top of the free span; returns the base
    /// address of the taken block, which is the new top cursor.
    pub fn take_high(&mut self, size: usize) -> (r: usize)
        requires
            old(self)@.wf(),
            size as int <= old(self)@.free_len(),
        ensures
            final(self)@ == old(self)@.took_high(size as int),
            final(self)@.wf(),
            r as int == old(self)@.high - size,
    {
        self.high = self.high - size;
        self.high
    }

    /// Return `amount` bytes to the free span below the top cursor, capped
    /// so the cursor never passes `limit`.
    pub fn give_high(&mut self, amount: usize)
        requires
            old(self)@.wf(),
        ensures
            final(self)@ == old(self)@.gave_high(amount as int),
            final(self)@.wf(),
    {
        if amount <= self.limit - self.high {
            self.high = self.high + amount;
        } else {
            self.high = self.limit;
        }
    }

    /// Return `size` bytes just below the bottom cursor.
    pub fn give_low(&mut self, size: usize)
        requires
            old(self)@.wf(),
            size as int <= old(self)@.low - old(self)@.base,
        ensures
            final(self)@ == old(self)@.gave_low(size as int),
            final(self)@.wf(),
    {
        self.low = self.low - size;
    }
}

} // verus!
