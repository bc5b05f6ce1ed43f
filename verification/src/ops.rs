//! The place operations.
//!
//! A *place* is a location in memory, named by a place expression: a local
//! variable, `*place`, `place[idx]`, `place.field`. Every place expression is
//! represented by a [`PlaceHandle`]; the operations that are available on the
//! place are those whose traits the handle implements:
//!
//! - `let _ = place` reads ([`ReadPlace`], [`MovePlace`] when moving out),
//! - `place = value` writes ([`WritePlace`]),
//! - `&place`, `&mut place`, `&raw const place`, ... borrow ([`BorrowPlace`]),
//! - `*place` dereferences the pointer stored in the place ([`DerefPlace`]),
//! - `place.field` projects to a subplace ([`ProjectPlace`]),
//! - `place[idx]` indexes ([`IndexPlace`]),
//! - dropping partially moved-out values uses [`DropPlace`] and [`DropHusk`].
//!
//! Every operation states the access it needs ([`AccessKind`]) and whether the
//! borrow checker's guarantees alone make it safe (`SAFE`). In this model the
//! operations act on an explicit [`Memory`]; what an operation needs from the
//! memory (an initialized value, an allocated place) is its `requires`.
use vstd::prelude::*;
use crate::borrowck::{AccessKind, Timing};
use crate::memory::{Byte, Memory};
use crate::ptr::{Metadata, Ptr};
use crate::subplace::{HasVariant, Matchable, Subplace};

verus! {

/// A type standing for a place: a value of it represents a place holding a
/// `Self::Target` (a reference stands for its pointee, for instance).
pub trait PlaceProxy {
    type Target: ?Sized;
}

/// A proxy from which a handle to the represented place can be created, given
/// a pointer to where the proxy itself is stored.
pub trait CreateHandle<ProxyTiming: Timing>: PlaceProxy {
    /// The handle used for operating on the represented place.
    type Handle: PlaceHandle<Target = Self::Target>;

    /// The access permission that `handle_from_raw` needs.
    const ACCESS: AccessKind;

    /// What `handle_from_raw` needs from the memory at `this`.
    spec fn handle_requires(this: Ptr<Self>, mem: Seq<Byte>) -> bool;

    /// The handle that `handle_from_raw` creates.
    spec fn spec_handle(this: Ptr<Self>, mem: Seq<Byte>) -> Self::Handle;

    /// Creates a handle to the place represented by the proxy stored at `this`.
    fn handle_from_raw(this: Ptr<Self>, mem: &Memory) -> (h: Self::Handle)
        requires
            Self::handle_requires(this, mem@),
        ensures
            h == Self::spec_handle(this, mem@),
    ;
}

/// A handle to a place holding a `Self::Target`.
pub trait PlaceHandle: Sized {
    type Target: ?Sized;
}

/// `let _ = place;` -- read the value of a place.
pub trait ReadPlace: PlaceHandle {
    const ACCESS: AccessKind;
    const SAFE: bool;

    spec fn read_requires(&self, mem: Seq<Byte>) -> bool;

    /// The bytes of the value that is read.
    spec fn spec_read(&self, mem: Seq<Byte>) -> Seq<u8>;

    fn read_place(self, mem: &Memory) -> (value: Vec<u8>)
        requires
            self.read_requires(mem@),
        ensures
            value@ == self.spec_read(mem@),
    ;
}

/// `let _ = place;` -- move out of a place: a read, after which the borrow
/// checker treats the place as uninitialized.
pub trait MovePlace: ReadPlace {
}

/// `place = value;` -- write to a place.
pub trait WritePlace: PlaceHandle {
    const ACCESS: AccessKind;
    const SAFE: bool;

    spec fn write_requires(&self, mem: Seq<Byte>, value: Seq<u8>) -> bool;

    /// The memory after the write.
    spec fn spec_write(&self, mem: Seq<Byte>, value: Seq<u8>) -> Seq<Byte>;

    fn write_place(self, mem: &mut Memory, value: &[u8])
        requires
            self.write_requires(old(mem)@, value@),
        ensures
            final(mem)@ == self.spec_write(old(mem)@, value@),
    ;
}

/// `&place`, `&mut place`, `&raw const place`, ... -- borrow a place as `Output`.
pub trait BorrowPlace<Output>: PlaceHandle {
    const ACCESS: AccessKind;
    type Timing: Timing;
    const SAFE: bool;

    spec fn borrow_requires(&self, mem: Seq<Byte>) -> bool;

    /// The borrow and the memory after borrowing (borrowing a reference-counted
    /// place counts the new reference).
    spec fn spec_borrow(&self, mem: Seq<Byte>) -> (Output, Seq<Byte>);

    fn borrow(self, mem: &mut Memory) -> (out: Output)
        requires
            self.borrow_requires(old(mem)@),
        ensures
            (out, final(mem)@) == self.spec_borrow(old(mem)@),
    ;
}

/// `place[idx]` -- the type of the place `self[idx]`.
pub trait Indexable<Idx> {
    type Element: ?Sized;
}

/// `place[idx]` -- index into the place handled by `H`.
pub trait IndexPlace<Idx, H, PointeeTiming, PointerTiming>: Indexable<Idx> where
    H: PlaceHandle<Target = Self>,
    PointeeTiming: Timing,
    PointerTiming: Timing,
 {
    type ElementHandle: PlaceHandle<Target = Self::Element>;

    const POINTEE_ACCESS: AccessKind;
    const POINTER_ACCESS: AccessKind;
    const SAFE: bool;

    spec fn index_requires(handle: H, idx: Idx) -> bool;

    spec fn spec_index(handle: H, idx: Idx) -> Self::ElementHandle;

    fn index(handle: H, idx: Idx) -> (h: Self::ElementHandle)
        requires
            Self::index_requires(handle, idx),
        ensures
            h == Self::spec_index(handle, idx),
    ;
}

/// `*place` -- dereference the pointer stored in a place.
///
/// Two places are accessed: the pointer's (with `POINTER_ACCESS` for
/// `PointerTiming`) and the pointee's (with `POINTEE_ACCESS` for `PointeeTiming`).
pub trait DerefPlace<PointeeTiming, PointerTiming>: PlaceHandle where
    Self::Target: CreateHandle<PointeeTiming>,
    PointeeTiming: Timing,
    PointerTiming: Timing,
 {
    const POINTEE_ACCESS: AccessKind;
    const POINTER_ACCESS: AccessKind;
    const SAFE: bool;

    spec fn deref_requires(&self, mem: Seq<Byte>) -> bool;

    spec fn spec_deref(&self, mem: Seq<Byte>) -> <Self::Target as CreateHandle<
        PointeeTiming,
    >>::Handle;

    fn deref_place(self, mem: &Memory) -> (h: <Self::Target as CreateHandle<
        PointeeTiming,
    >>::Handle)
        requires
            self.deref_requires(mem@),
        ensures
            h == self.spec_deref(mem@),
    ;
}

/// `place.field` -- project a handle to a subplace.
pub trait ProjectPlace<S>: PlaceHandle where S: Subplace<Source = Self::Target> {
    type Projected: PlaceHandle<Target = S::Target>;

    spec fn project_requires(&self, subplace: S) -> bool;

    spec fn spec_project(&self, subplace: S) -> Self::Projected;

    fn project_place(self, subplace: S) -> (h: Self::Projected)
        requires
            self.project_requires(subplace),
        ensures
            h == self.spec_project(subplace),
    ;
}

/// A type that physically contains a place of type `Self::Inner`.
pub trait PlaceWrapper {
    type Inner: ?Sized;
}

/// `place.field` through a wrapper: the wrapper exposes the subplaces of its
/// inner place, at the same offsets, under a changed type.
pub trait WrapPlace<S>: PlaceWrapper where S: Subplace<Source = Self::Inner> {
    type Wrapped: Subplace<Source = Self>;

    spec fn spec_wrap(subplace: S) -> Self::Wrapped;

    fn wrap(subplace: S) -> (w: Self::Wrapped)
        ensures
            w == Self::spec_wrap(subplace),
            forall|m: Metadata|
                #![trigger w.spec_offset(m)]
                #![trigger w.offset_requires(m)]
                #![trigger subplace.spec_offset(m)]
                w.offset_requires(m) == subplace.offset_requires(m) && w.spec_offset(m)
                    == subplace.spec_offset(m),
    ;

    /// For every metadata, the wrapped subplace has the precondition, offset
    /// and target metadata of the subplace it wraps.
    proof fn lemma_wrap_offsets(subplace: S)
        ensures
            forall|m: Metadata|
                #![trigger Self::spec_wrap(subplace).spec_offset(m)]
                #![trigger Self::spec_wrap(subplace).offset_requires(m)]
                #![trigger subplace.spec_offset(m)]
                Self::spec_wrap(subplace).offset_requires(m) == subplace.offset_requires(m)
                    && Self::spec_wrap(subplace).spec_offset(m) == subplace.spec_offset(m),
    ;
}

/// Drop the value stored in a place, leaving the place itself alive.
pub trait DropPlace: PlaceHandle {
    spec fn drop_requires(&self, mem: Seq<Byte>) -> bool;

    spec fn spec_drop(&self, mem: Seq<Byte>) -> Seq<Byte>;

    fn drop_place(self, mem: &mut Memory)
        requires
            self.drop_requires(old(mem)@),
        ensures
            final(mem)@ == self.spec_drop(old(mem)@),
    ;
}

/// Destroy a proxy whose place has been moved out of or dropped.
pub trait DropHusk: PlaceProxy {
    spec fn husk_requires(this: Ptr<Self>, mem: Seq<Byte>) -> bool;

    spec fn spec_drop_husk(this: Ptr<Self>, mem: Seq<Byte>) -> Seq<Byte>;

    fn drop_husk(this: Ptr<Self>, mem: &mut Memory)
        requires
            Self::husk_requires(this, old(mem)@),
        ensures
            final(mem)@ == Self::spec_drop_husk(this, old(mem)@),
    ;
}

/// Obtain the pointer metadata of the contents of a place.
pub trait ReadMetadata: PlaceHandle {
    spec fn spec_metadata(&self) -> Metadata;

    fn metadata(self) -> (m: Metadata)
        ensures
            m == self.spec_metadata(),
    ;
}

/// Obtain the variant of the value stored in a place.
pub trait ReadVariant: PlaceHandle where Self::Target: Matchable {
    spec fn variant_requires(&self, mem: Seq<Byte>) -> bool;

    spec fn spec_read_variant(&self, mem: Seq<Byte>) -> usize;

    fn read_variant(self, mem: &Memory) -> (v: usize)
        requires
            self.variant_requires(mem@),
        ensures
            v == self.spec_read_variant(mem@),
            v < <Self::Target as Matchable>::VARIANT_COUNT,
    ;
}

/// Cast a handle to a place holding an enum to a handle to one of its variants.
pub trait VariantPlace<const VARIANT: usize>: ReadVariant where
    Self::Target: Matchable + HasVariant<VARIANT>,
 {
    type ToVariant: PlaceHandle<Target = <Self::Target as HasVariant<VARIANT>>::VariantType>;

    spec fn spec_cast(&self) -> Self::ToVariant;

    fn cast(self) -> (h: Self::ToVariant)
        ensures
            h == self.spec_cast(),
    ;
}

} // verus!
