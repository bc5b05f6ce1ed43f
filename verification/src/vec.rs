//! `Vec<T>` of the memory model and the handle to its elements.
//!
//! A vector is stored as the pointer to its buffer, its length (together the
//! fat pointer to its elements) and its capacity.
use vstd::prelude::*;
use crate::borrowck::{AccessKind, Instant, Lifetime};
use crate::memory::{Byte, Memory};
use crate::ops::{BorrowPlace, CreateHandle, PlaceHandle, PlaceProxy};
use crate::ptr::{Ptr, ptr_loadable, ptr_loaded};
use crate::ptr::non_null::NonNull;
use crate::reference::SharedRef;

verus! {

/// A vector `Vec<T>`: its elements `[T]` and its capacity.
pub struct VecPtr<T> {
    elems: Ptr<[T]>,
    cap: usize,
}

/// Handle to the elements of a vector.
pub struct VecHandle<T> {
    ptr: NonNull<[T]>,
}

impl<T> VecHandle<T> {
    /// The pointer to the elements.
    pub closed spec fn ptr(&self) -> Ptr<[T]> {
        self.ptr.ptr()
    }

    pub closed spec fn spec_from_ptr(p: Ptr<[T]>) -> Self {
        VecHandle { ptr: NonNull::spec_from_ptr(p) }
    }

    pub broadcast proof fn lemma_from_ptr(p: Ptr<[T]>)
        ensures
            (#[trigger] Self::spec_from_ptr(p)).ptr() == p,
    {
        NonNull::lemma_from_ptr(p);
    }
}

impl<T> PlaceProxy for VecPtr<T> {
    type Target = [T];
}

/// The elements of the vector stored at `this`: its buffer pointer and length.
impl<T> CreateHandle<Instant> for VecPtr<T> {
    type Handle = VecHandle<T>;

    const ACCESS: AccessKind = AccessKind::Shared;

    open spec fn handle_requires(this: Ptr<Self>, mem: Seq<Byte>) -> bool {
        &&& ptr_loadable::<[T]>(mem, this.addr as int)
        &&& ptr_loaded::<[T]>(mem, this.addr as int).addr != 0
    }

    open spec fn spec_handle(this: Ptr<Self>, mem: Seq<Byte>) -> VecHandle<T> {
        VecHandle::spec_from_ptr(ptr_loaded::<[T]>(mem, this.addr as int))
    }

    fn handle_from_raw(this: Ptr<Self>, mem: &Memory) -> (h: VecHandle<T>) {
        let elems = Ptr::<[T]>::load(mem, this.addr);
        VecHandle { ptr: NonNull::new_unchecked(elems) }
    }
}

impl<T> PlaceHandle for VecHandle<T> {
    type Target = [T];
}

impl<'a, T> BorrowPlace<SharedRef<'a, [T]>> for VecHandle<T> {
    const ACCESS: AccessKind = AccessKind::Shared;

    type Timing = Lifetime<'a>;

    const SAFE: bool = true;

    open spec fn borrow_requires(&self, mem: Seq<Byte>) -> bool {
        true
    }

    open spec fn spec_borrow(&self, mem: Seq<Byte>) -> (SharedRef<'a, [T]>, Seq<Byte>) {
        (SharedRef::spec_from_ptr(self.ptr()), mem)
    }

    fn borrow(self, mem: &mut Memory) -> (out: SharedRef<'a, [T]>) {
        SharedRef::from_raw(self.ptr.as_ptr())
    }
}

/// The handle of a vector whose buffer pointer and length `elems` are stored
/// at `at` handles those elements, and borrowing them as a shared slice
/// points at them and changes no memory.
pub proof fn lemma_vec_handle_stored<'a, T: 'a>(m: Seq<Byte>, at: usize, elems: Ptr<[T]>)
    requires
        crate::memory::in_bounds(m, at as int, 16),
        elems.meta is Len,
        elems.addr != 0,
    ensures
        ({
            let this = crate::ptr::ptr_of::<VecPtr<T>>(at, crate::ptr::Metadata::Thin);
            let m2 = crate::memory::stored(m, at as int, crate::ptr::ptr_bytes(elems));
            let h = <VecPtr<T> as CreateHandle<Instant>>::spec_handle(this, m2);
            &&& <VecPtr<T> as CreateHandle<Instant>>::handle_requires(this, m2)
            &&& h.ptr() == elems
            &&& <VecHandle<T> as BorrowPlace<SharedRef<'a, [T]>>>::spec_borrow(&h, m2).0.ptr()
                == elems
            &&& <VecHandle<T> as BorrowPlace<SharedRef<'a, [T]>>>::spec_borrow(&h, m2).1 == m2
        }),
{
    crate::ptr::lemma_load_stored::<[T]>(m, at as int, elems);
    VecHandle::<T>::lemma_from_ptr(elems);
    SharedRef::<'a, [T]>::lemma_from_ptr(elems);
}

} // verus!
