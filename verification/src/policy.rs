//! The placement policy as data: which request sizes are short-lived,
//! which belong to the bounded overflow pool, and when accumulated frees
//! are flushed. The policy's correctness is workload-specific, so it is
//! injected into [`DualArena`](crate::dual::DualArena) at construction
//! rather than baked in.

use vstd::prelude::*;

verus! {

/// Where a request is served from: one of the three placement classes.
#[derive(Clone, Copy, Debug, PartialEq, Eq, Structural)]
pub enum Placement {
    /// Served upward from the bottom cursor; assumed long-lived and never
    /// individually reclaimed.
    Bottom,
    /// Served downward from the top cursor; assumed short-lived and
    /// eligible for batch reclamation.
    Ephemeral,
    /// Served from the reserved overflow-pool sub-range at the top of the
    /// arena; never reclaimed individually.
    Overflow,
}

/// A block handed out by a dual-arena allocator and not yet released:
/// its address range and the placement class that served it.
pub ghost struct ClassedBlock {
    pub addr: int,
    pub size: int,
    pub class: Placement,
}

/// Mathematical image of a [`Policy`].
pub ghost struct PolicyModel {
    pub eph_sizes: Seq<usize>,
    pub stack_sizes: Seq<usize>,
    pub pool_sizes: Seq<usize>,
    pub pool_skip_size: usize,
    pub pool_skip_round: usize,
    pub pool_retire_size: usize,
    pub pool_total: usize,
    pub flush_trigger: usize,
    pub flush_threshold: usize,
}

/// Some entry of `stack` plus `round` equals `size`.
pub open spec fn stack_matches(stack: Seq<usize>, size: usize, round: int) -> bool {
    exists|i: int| 0 <= i < stack.len() && stack[i] + round == size
}

impl PolicyModel {
    /// The overflow-pool class: one of the pool sizes, except that the
    /// designated skip size is not pool-routed on its skip round.
    pub open spec fn is_pool(self, size: usize, round: int) -> bool {
        self.pool_sizes.contains(size) && !(size == self.pool_skip_size && round
            == self.pool_skip_round as int)
    }

    /// The top-ephemeral class: an always-ephemeral size, or a size whose
    /// round-adjusted value lands on the stack-like ladder (the observed
    /// size is a ladder entry plus the current round).
    pub open spec fn is_eph(self, size: usize, round: int) -> bool {
        self.eph_sizes.contains(size) || stack_matches(self.stack_sizes, size, round)
    }

    /// The placement class of a request, as a pure function of its size
    /// and the current reclamation round. Everything not matched is
    /// bottom-growing: the documented, safe fallback.
    pub open spec fn classify(self, size: usize, round: int) -> Placement {
        if self.is_pool(size, round) {
            Placement::Overflow
        } else if self.is_eph(size, round) {
            Placement::Ephemeral
        } else {
            Placement::Bottom
        }
    }
}

/// A placement policy for the dual-arena allocator, as plain data. A size
/// in `pool_sizes` goes to the overflow pool (except `pool_skip_size` on
/// round `pool_skip_round`); a size in `eph_sizes`, or a size equal to a
/// `stack_sizes` entry plus the current round, is top-ephemeral; anything
/// else grows from the bottom. Freeing `pool_retire_size` retires the
/// whole `pool_total`-byte pool sub-range into the reclamation batch, and
/// freeing `flush_trigger` flushes the batch once it exceeds
/// `flush_threshold`.
pub struct Policy {
    pub eph_sizes: Vec<usize>,
    pub stack_sizes: Vec<usize>,
    pub pool_sizes: Vec<usize>,
    pub pool_skip_size: usize,
    pub pool_skip_round: usize,
    pub pool_retire_size: usize,
    pub pool_total: usize,
    pub flush_trigger: usize,
    pub flush_threshold: usize,
}

impl View for Policy {
    type V = PolicyModel;

    open spec fn view(&self) -> PolicyModel {
        PolicyModel {
            eph_sizes: self.eph_sizes@,
            stack_sizes: self.stack_sizes@,
            pool_sizes: self.pool_sizes@,
            pool_skip_size: self.pool_skip_size,
            pool_skip_round: self.pool_skip_round,
            pool_retire_size: self.pool_retire_size,
            pool_total: self.pool_total,
            flush_trigger: self.flush_trigger,
            flush_threshold: self.flush_threshold,
        }
    }
}

/// Whether `v` holds `x`.
fn sizes_contain(v: &Vec<usize>, x: usize) -> (r: bool)
    ensures
        r == v@.contains(x),
{
    let n = v.len();
    let mut j: usize = 0;
    while j < n
        invariant
            n == v@.len(),
            0 <= j <= n,
            forall|i: int| 0 <= i < j ==> v@[i] != x,
        decreases n - j,
    {
        if v[j] == x {
            assert(v@[j as int] == x);
            return true;
        }
        j = j + 1;
    }
    false
}

/// Whether some ladder entry plus `round` equals `size`.
fn stack_match(v: &Vec<usize>, size: usize, round: usize) -> (r: bool)
    ensures
        r == stack_matches(v@, size, round as int),
{
    let n = v.len();
    let mut j: usize = 0;
    while j < n
        invariant
            n == v@.len(),
            0 <= j <= n,
            forall|i: int| 0 <= i < j ==> v@[i] + round as int != size,
        decreases n - j,
    {
        let s = v[j];
        if s <= size && size - s == round {
            assert(stack_matches(v@, size, round as int)) by {
                assert(v@[j as int] + round as int == size);
            }
            return true;
        }
        j = j + 1;
    }
    false
}

impl Policy {
    /// Decides the placement class of a request of `size` bytes on the
    /// given reclamation round.
    pub fn classify(&self, size: usize, round: usize) -> (c: Placement)
        ensures
            c == self@.classify(size, round as int),
    {
        if sizes_contain(&self.pool_sizes, size) && !(size == self.pool_skip_size && round
            == self.pool_skip_round) {
            Placement::Overflow
        } else if sizes_contain(&self.eph_sizes, size) || stack_match(
            &self.stack_sizes,
            size,
            round,
        ) {
            Placement::Ephemeral
        } else {
            Placement::Bottom
        }
    }
}

} // verus!
