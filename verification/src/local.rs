//! Handles to local variables: what `&raw const local` gives the compiler to
//! start a place expression with.
use vstd::prelude::*;
use crate::borrowck::{AccessKind, Instant, Timing};
use crate::memory::{Byte, Memory};
use crate::ops::{
    CreateHandle,
    DerefPlace,
    PlaceHandle,
    ProjectPlace,
    ReadPlace,
    ReadVariant,
    VariantPlace,
};
use crate::ptr::{Metadata, Ptr, ptr_of};
use crate::ptr::raw::{place_readable, place_value, projectable, projected};
use crate::subplace::{HasVariant, Matchable, Subplace};

verus! {

/// Handle to a local variable, given by its address.
pub struct LocalHandle<T: ?Sized> {
    ptr: Ptr<T>,
}

impl<T: ?Sized> Clone for LocalHandle<T> {
    fn clone(&self) -> (h: Self)
        ensures
            h == *self,
    {
        LocalHandle { ptr: self.ptr }
    }
}

impl<T: ?Sized> Copy for LocalHandle<T> {
}

impl<T: ?Sized> LocalHandle<T> {
    /// The pointer to the local variable.
    pub closed spec fn ptr(&self) -> Ptr<T> {
        self.ptr
    }

    /// The handle to the local variable at `p`.
    pub closed spec fn spec_from_ptr(p: Ptr<T>) -> Self {
        LocalHandle { ptr: p }
    }

    pub broadcast proof fn lemma_from_ptr(p: Ptr<T>)
        ensures
            (#[trigger] Self::spec_from_ptr(p)).ptr() == p,
    {
    }

    /// The handle to the local variable at `ptr` (`&raw const local`).
    pub fn new(ptr: Ptr<T>) -> (h: Self)
        ensures
            h == Self::spec_from_ptr(ptr),
    {
        LocalHandle { ptr }
    }

    /// The pointer to the local variable.
    pub fn as_ptr(&self) -> (p: Ptr<T>)
        ensures
            p == self.ptr(),
    {
        self.ptr.cast_mut()
    }
}

impl<T: ?Sized> PlaceHandle for LocalHandle<T> {
    type Target = T;
}

/// `*local`: the local holds a pointer-like proxy; the handle is the proxy's.
impl<PT: Timing, P: ?Sized + CreateHandle<PT>> DerefPlace<PT, Instant> for LocalHandle<P> {
    const POINTEE_ACCESS: AccessKind = P::ACCESS;
    const POINTER_ACCESS: AccessKind = P::ACCESS;
    const SAFE: bool = true;

    open spec fn deref_requires(&self, mem: Seq<Byte>) -> bool {
        P::handle_requires(self.ptr(), mem)
    }

    open spec fn spec_deref(&self, mem: Seq<Byte>) -> P::Handle {
        P::spec_handle(self.ptr(), mem)
    }

    fn deref_place(self, mem: &Memory) -> (h: P::Handle) {
        P::handle_from_raw(self.as_ptr(), mem)
    }
}

impl<T: ?Sized + Matchable> ReadVariant for LocalHandle<T> {
    open spec fn variant_requires(&self, mem: Seq<Byte>) -> bool {
        T::variant_requires(self.ptr(), mem)
    }

    open spec fn spec_read_variant(&self, mem: Seq<Byte>) -> usize {
        T::spec_variant_at(self.ptr(), mem)
    }

    fn read_variant(self, mem: &Memory) -> (v: usize) {
        T::variant_at(self.ptr, mem)
    }
}

impl<T: ?Sized + Matchable + HasVariant<VARIANT>, const VARIANT: usize> VariantPlace<VARIANT> for LocalHandle<T> {
    type ToVariant = LocalHandle<<T as HasVariant<VARIANT>>::VariantType>;

    /// The same place, seen as the variant's contents.
    open spec fn spec_cast(&self) -> Self::ToVariant {
        LocalHandle::spec_from_ptr(ptr_of(self.ptr().addr, Metadata::Thin))
    }

    fn cast(self) -> (h: Self::ToVariant) {
        LocalHandle { ptr: self.ptr.cast() }
    }
}

impl<S: Subplace> ProjectPlace<S> for LocalHandle<S::Source> {
    type Projected = LocalHandle<S::Target>;

    open spec fn project_requires(&self, subplace: S) -> bool {
        projectable(self.ptr(), subplace)
    }

    open spec fn spec_project(&self, subplace: S) -> LocalHandle<S::Target> {
        LocalHandle::spec_from_ptr(projected(self.ptr(), subplace))
    }

    fn project_place(self, subplace: S) -> (h: LocalHandle<S::Target>) {
        LocalHandle { ptr: self.ptr.project_place(subplace) }
    }
}

impl<T> ReadPlace for LocalHandle<T> {
    const ACCESS: AccessKind = AccessKind::Shared;
    const SAFE: bool = true;

    open spec fn read_requires(&self, mem: Seq<Byte>) -> bool {
        place_readable(self.ptr(), mem)
    }

    open spec fn spec_read(&self, mem: Seq<Byte>) -> Seq<u8> {
        place_value(self.ptr(), mem)
    }

    fn read_place(self, mem: &Memory) -> (value: Vec<u8>) {
        self.ptr.read_place(mem)
    }
}

/// Projecting a local's handle lands on the subplace: the address moves by the
/// subplace's offset and the metadata is the subplace's.
pub proof fn lemma_local_project<S: Subplace>(h: LocalHandle<S::Source>, s: S)
    requires
        s.offset_requires(h.ptr().meta),
        h.ptr().addr + s.spec_offset(h.ptr().meta).0 <= usize::MAX,
    ensures
        h.project_requires(s),
        h.spec_project(s).ptr().addr == h.ptr().addr + s.spec_offset(h.ptr().meta).0,
        h.spec_project(s).ptr().meta == s.spec_offset(h.ptr().meta).1,
{
    LocalHandle::<S::Target>::lemma_from_ptr(projected(h.ptr(), s));
}

/// Reading a local gives the bytes stored in it.
pub proof fn lemma_local_read<T>(h: LocalHandle<T>, m: Seq<Byte>)
    requires
        h.read_requires(m),
    ensures
        h.spec_read(m).len() == vstd::layout::size_of::<T>(),
        forall|i: int|
            0 <= i < vstd::layout::size_of::<T>() ==> #[trigger] h.spec_read(m)[i]
                == crate::memory::byte_value(m[h.ptr().addr + i]),
{
}

/// `*local` creates the handle of the proxy stored in the local.
pub proof fn lemma_local_deref<PT: Timing, P: ?Sized + CreateHandle<PT>>(
    h: LocalHandle<P>,
    m: Seq<Byte>,
)
    ensures
        <LocalHandle<P> as DerefPlace<PT, Instant>>::deref_requires(&h, m) == P::handle_requires(
            h.ptr(),
            m,
        ),
        <LocalHandle<P> as DerefPlace<PT, Instant>>::spec_deref(&h, m) == P::spec_handle(
            h.ptr(),
            m,
        ),
{
}

/// The handle to a variant of an enum held by a local is a handle to a sized
/// place at the local's address.
pub proof fn lemma_local_variant<T: ?Sized + Matchable + HasVariant<VARIANT>, const VARIANT: usize>(
    h: LocalHandle<T>,
)
    ensures
        <LocalHandle<T> as VariantPlace<VARIANT>>::spec_cast(&h).ptr().addr == h.ptr().addr,
        <LocalHandle<T> as VariantPlace<VARIANT>>::spec_cast(&h).ptr().meta == Metadata::Thin,
{
    LocalHandle::<<T as HasVariant<VARIANT>>::VariantType>::lemma_from_ptr(
        ptr_of(h.ptr().addr, Metadata::Thin),
    );
}

} // verus!
