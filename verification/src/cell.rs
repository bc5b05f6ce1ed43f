//! Cells: wrappers exposing the subplaces of the place they wrap, and the
//! handle of `RefMut`.
use vstd::prelude::*;
use crate::borrowck::{AccessKind, Instant};
use crate::memory::{Byte, Memory};
use crate::ops::{CreateHandle, PlaceHandle, PlaceProxy, PlaceWrapper, WrapPlace};
use crate::ptr::Ptr;
use crate::subplace::{Subplace, TransmutedSubplace};

verus! {

/// `core::cell::Cell`, known to Verus only by name: nothing is read inside it.
#[verifier::external_type_specification]
#[verifier::external_body]
#[verifier::reject_recursive_types(T)]
pub struct ExCell<T: ?Sized>(core::cell::Cell<T>);

/// `core::cell::UnsafeCell`, known to Verus only by name: nothing is read inside it.
#[verifier::external_type_specification]
#[verifier::external_body]
#[verifier::reject_recursive_types(T)]
pub struct ExUnsafeCell<T: ?Sized>(core::cell::UnsafeCell<T>);

impl<T: ?Sized> PlaceWrapper for core::cell::Cell<T> {
    type Inner = T;
}

/// A field of a `Cell<S>` is a `Cell` of the field.
impl<S: Subplace> WrapPlace<S> for core::cell::Cell<S::Source> {
    type Wrapped = TransmutedSubplace<S, core::cell::Cell<S::Source>, core::cell::Cell<S::Target>>;

    open spec fn spec_wrap(subplace: S) -> Self::Wrapped {
        TransmutedSubplace::spec_new(subplace)
    }

    fn wrap(subplace: S) -> (w: Self::Wrapped) {
        TransmutedSubplace::new_unchecked(subplace)
    }

    proof fn lemma_wrap_offsets(subplace: S) {
        TransmutedSubplace::<
            S,
            core::cell::Cell<S::Source>,
            core::cell::Cell<S::Target>,
        >::lemma_new(subplace);
    }
}

impl<T: ?Sized> PlaceWrapper for core::cell::UnsafeCell<T> {
    type Inner = T;
}

/// A field of an `UnsafeCell<S>` is an `UnsafeCell` of the field.
impl<S: Subplace> WrapPlace<S> for core::cell::UnsafeCell<S::Source> {
    type Wrapped = TransmutedSubplace<
        S,
        core::cell::UnsafeCell<S::Source>,
        core::cell::UnsafeCell<S::Target>,
    >;

    open spec fn spec_wrap(subplace: S) -> Self::Wrapped {
        TransmutedSubplace::spec_new(subplace)
    }

    fn wrap(subplace: S) -> (w: Self::Wrapped) {
        TransmutedSubplace::new_unchecked(subplace)
    }

    proof fn lemma_wrap_offsets(subplace: S) {
        TransmutedSubplace::<
            S,
            core::cell::UnsafeCell<S::Source>,
            core::cell::UnsafeCell<S::Target>,
        >::lemma_new(subplace);
    }
}

/// A `RefMut<'b, T>`: an exclusive borrow of the contents of a `RefCell`.
pub struct CellRefMut<'b, T> {
    value: Ptr<T>,
    _lt: core::marker::PhantomData<&'b mut T>,
}

/// Handle to the contents behind a `RefMut`; it needs no pointer of its own.
pub struct CellMutHandle<'b, T> {
    phantom: core::marker::PhantomData<&'b mut T>,
}

impl<'b, T> PlaceProxy for CellRefMut<'b, T> {
    type Target = T;
}

impl<'b, T> CreateHandle<Instant> for CellRefMut<'b, T> {
    type Handle = CellMutHandle<'b, T>;

    const ACCESS: AccessKind = AccessKind::Shared;

    open spec fn handle_requires(this: Ptr<Self>, mem: Seq<Byte>) -> bool {
        true
    }

    closed spec fn spec_handle(this: Ptr<Self>, mem: Seq<Byte>) -> CellMutHandle<'b, T> {
        CellMutHandle { phantom: core::marker::PhantomData }
    }

    fn handle_from_raw(this: Ptr<Self>, mem: &Memory) -> (h: CellMutHandle<'b, T>) {
        CellMutHandle { phantom: core::marker::PhantomData }
    }
}

impl<'b, T> PlaceHandle for CellMutHandle<'b, T> {
    type Target = T;
}

} // verus!
