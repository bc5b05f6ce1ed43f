//! The vocabulary in which place operations state the permissions they need
//! from the borrow checker: what kind of access, and for how long.
use vstd::prelude::*;

verus! {

/// How long an access permission has to be held.
pub trait Timing {
}

/// Only for the duration of the operation itself.
pub struct Instant;

/// For the lifetime `'a`.
pub struct Lifetime<'a>(pub core::marker::PhantomData<&'a ()>);

/// Until the value produced by the operation is dropped.
pub struct UntilDrop;

impl Timing for Instant {
}

impl<'a> Timing for Lifetime<'a> {
}

impl Timing for UntilDrop {
}

/// The kind of access permission an operation needs.
#[derive(PartialEq, Eq, Structural, Clone, Copy, Debug)]
pub enum AccessKind {
    /// May coexist with other shared accesses of the same place.
    Shared,
    /// Excludes every other access of the same place.
    Exclusive,
    /// Not tracked by the borrow checker; the caller answers for it.
    Untracked,
}

} // verus!
