//! Arena-style memory allocators for a kernel's boot and steady-state phases.
//!
//! Two allocators compose the subsystem. The [`early::EarlyAllocator`] is a
//! bootstrap-only double-ended bump allocator: bytes grow upward from the
//! bottom of a fixed range while pages grow downward from its top. The
//! [`lab::LabByteAllocator`] is the steady-state byte allocator: it routes
//! each request to one of three placement classes (bottom-growing,
//! top-ephemeral, overflow pool) and reclaims ephemeral space in deferred
//! batches. [`dual::DualArena`] is the same dual-arena design with the
//! placement policy supplied as data rather than baked-in constants.
//!
//! No allocator here touches real memory: each manages a numeric address
//! range handed to it at initialization and returns addresses from it.

pub mod arena;
pub mod dual;
pub mod early;
pub mod lab;
pub mod policy;
