//! References: `&'a T` and `&'a mut T` of the memory model, and their handles.
use vstd::prelude::*;
use crate::borrowck::{AccessKind, Instant, Lifetime, Timing};
use crate::memory::{Byte, Memory, in_bounds, stored};
use crate::ops::{
    BorrowPlace,
    CreateHandle,
    DerefPlace,
    DropPlace,
    PlaceHandle,
    PlaceProxy,
    ProjectPlace,
    ReadPlace,
    WritePlace,
};
use crate::ptr::{
    Metadata,
    Pointee,
    Ptr,
    lemma_load_stored,
    meta_fits,
    ptr_bytes,
    ptr_loadable,
    ptr_loaded,
    ptr_of,
    stored_ptr_len,
};
use crate::ptr::raw::{
    lemma_read_after_write,
    place_allocated,
    place_dropped,
    place_readable,
    place_value,
    place_writable,
    place_written,
    projectable,
    projected,
};
use crate::subplace::Subplace;

verus! {

/// A shared reference `&'a T`: a pointer to a place valid for `'a`.
pub struct SharedRef<'a, T: ?Sized> {
    ptr: Ptr<T>,
    _lt: core::marker::PhantomData<&'a T>,
}

/// An exclusive reference `&'a mut T`: a pointer to a place valid for `'a`.
pub struct UniqueRef<'a, T: ?Sized> {
    ptr: Ptr<T>,
    _lt: core::marker::PhantomData<&'a mut T>,
}

/// Handle to the place behind a `&'a T`.
pub struct RefHandle<'a, T: ?Sized> {
    ptr: Ptr<T>,
    _lt: core::marker::PhantomData<&'a T>,
}

/// Handle to the place behind a `&'a mut T`.
pub struct MutHandle<'a, T: ?Sized> {
    ptr: Ptr<T>,
    _lt: core::marker::PhantomData<&'a mut T>,
}

impl<'a, T: ?Sized> SharedRef<'a, T> {
    /// The pointer the reference consists of.
    pub closed spec fn ptr(&self) -> Ptr<T> {
        self.ptr
    }

    /// The reference consisting of the pointer `p`.
    pub closed spec fn spec_from_ptr(p: Ptr<T>) -> Self {
        SharedRef { ptr: p, _lt: core::marker::PhantomData }
    }

    pub broadcast proof fn lemma_from_ptr(p: Ptr<T>)
        ensures
            (#[trigger] Self::spec_from_ptr(p)).ptr() == p,
    {
    }

    pub fn as_ptr(&self) -> (p: Ptr<T>)
        ensures
            p == self.ptr(),
    {
        self.ptr
    }

    /// The reference to the place `ptr` points at (`&*ptr`, `&mut *ptr`).
    pub fn from_raw(ptr: Ptr<T>) -> (r: Self)
        ensures
            r == Self::spec_from_ptr(ptr),
    {
        SharedRef { ptr, _lt: core::marker::PhantomData }
    }
}

impl<'a, T: ?Sized> UniqueRef<'a, T> {
    /// The pointer the reference consists of.
    pub closed spec fn ptr(&self) -> Ptr<T> {
        self.ptr
    }

    /// The reference consisting of the pointer `p`.
    pub closed spec fn spec_from_ptr(p: Ptr<T>) -> Self {
        UniqueRef { ptr: p, _lt: core::marker::PhantomData }
    }

    pub broadcast proof fn lemma_from_ptr(p: Ptr<T>)
        ensures
            (#[trigger] Self::spec_from_ptr(p)).ptr() == p,
    {
    }

    pub fn as_ptr(&self) -> (p: Ptr<T>)
        ensures
            p == self.ptr(),
    {
        self.ptr
    }

    /// The reference to the place `ptr` points at (`&*ptr`, `&mut *ptr`).
    pub fn from_raw(ptr: Ptr<T>) -> (r: Self)
        ensures
            r == Self::spec_from_ptr(ptr),
    {
        UniqueRef { ptr, _lt: core::marker::PhantomData }
    }
}

impl<'a, T: ?Sized> RefHandle<'a, T> {
    /// The pointer to the handled place.
    pub closed spec fn ptr(&self) -> Ptr<T> {
        self.ptr
    }

    /// The handle to the place `p` points at.
    pub closed spec fn spec_from_ptr(p: Ptr<T>) -> Self {
        RefHandle { ptr: p, _lt: core::marker::PhantomData }
    }

    pub broadcast proof fn lemma_from_ptr(p: Ptr<T>)
        ensures
            (#[trigger] Self::spec_from_ptr(p)).ptr() == p,
    {
    }
}

impl<'a, T: ?Sized> Clone for MutHandle<'a, T> {
    fn clone(&self) -> (h: Self)
        ensures
            h == *self,
    {
        MutHandle { ptr: self.ptr, _lt: core::marker::PhantomData }
    }
}

impl<'a, T: ?Sized> Copy for MutHandle<'a, T> {
}

impl<'a, T: ?Sized> MutHandle<'a, T> {
    /// The pointer to the handled place.
    pub closed spec fn ptr(&self) -> Ptr<T> {
        self.ptr
    }

    /// The handle to the place `p` points at.
    pub closed spec fn spec_from_ptr(p: Ptr<T>) -> Self {
        MutHandle { ptr: p, _lt: core::marker::PhantomData }
    }

    pub broadcast proof fn lemma_from_ptr(p: Ptr<T>)
        ensures
            (#[trigger] Self::spec_from_ptr(p)).ptr() == p,
    {
    }

    /// The handle to the place `ptr` points at, which must not be null.
    pub fn from_raw(ptr: Ptr<T>) -> (h: Self)
        requires
            ptr.addr != 0,
        ensures
            h == Self::spec_from_ptr(ptr),
    {
        MutHandle { ptr, _lt: core::marker::PhantomData }
    }
}

pub broadcast group group_reference_lemmas {
    SharedRef::lemma_from_ptr,
    UniqueRef::lemma_from_ptr,
    RefHandle::lemma_from_ptr,
    MutHandle::lemma_from_ptr,
}

/// A reference to `T` is stored at `at` and is not null.
pub open spec fn ref_loadable<T: ?Sized + Pointee>(m: Seq<Byte>, at: int) -> bool {
    &&& ptr_loadable::<T>(m, at)
    &&& ptr_loaded::<T>(m, at).addr != 0
}

/// Storing a reference to `target` at `at` and dereferencing it gives the
/// handle to `target`'s place, for shared and exclusive references alike.
pub proof fn lemma_deref_stored_ref<'a, T: ?Sized + Pointee>(m: Seq<Byte>, at: usize, target: Ptr<T>)
    requires
        in_bounds(m, at as int, stored_ptr_len::<T>()),
        meta_fits::<T>(target.meta),
        target.addr != 0,
    ensures
        ({
            let this = ptr_of::<SharedRef<'a, T>>(at, Metadata::Thin);
            let m2 = stored(m, at as int, ptr_bytes(target));
            &&& <SharedRef<'a, T> as CreateHandle<Lifetime<'a>>>::handle_requires(this, m2)
            &&& <SharedRef<'a, T> as CreateHandle<Lifetime<'a>>>::spec_handle(this, m2).ptr() == target
        }),
        ({
            let this = ptr_of::<UniqueRef<'a, T>>(at, Metadata::Thin);
            let m2 = stored(m, at as int, ptr_bytes(target));
            &&& <UniqueRef<'a, T> as CreateHandle<Instant>>::handle_requires(this, m2)
            &&& <UniqueRef<'a, T> as CreateHandle<Instant>>::spec_handle(this, m2).ptr() == target
        }),
{
    lemma_load_stored::<T>(m, at as int, target);
}

impl<'a, T: ?Sized> PlaceProxy for SharedRef<'a, T> {
    type Target = T;
}

impl<'a, T: ?Sized + Pointee> CreateHandle<Lifetime<'a>> for SharedRef<'a, T> {
    type Handle = RefHandle<'a, T>;

    const ACCESS: AccessKind = AccessKind::Shared;

    open spec fn handle_requires(this: Ptr<Self>, mem: Seq<Byte>) -> bool {
        ref_loadable::<T>(mem, this.addr as int)
    }

    open spec fn spec_handle(this: Ptr<Self>, mem: Seq<Byte>) -> RefHandle<'a, T> {
        RefHandle::spec_from_ptr(ptr_loaded::<T>(mem, this.addr as int))
    }

    /// The handle to the place the reference stored at `this` points at.
    fn handle_from_raw(this: Ptr<Self>, mem: &Memory) -> (h: RefHandle<'a, T>) {
        let ptr = Ptr::<T>::load(mem, this.addr);
        RefHandle { ptr, _lt: core::marker::PhantomData }
    }
}

impl<'a, T: ?Sized> PlaceProxy for UniqueRef<'a, T> {
    type Target = T;
}

impl<'a, T: ?Sized + Pointee> CreateHandle<Instant> for UniqueRef<'a, T> {
    type Handle = MutHandle<'a, T>;

    const ACCESS: AccessKind = AccessKind::Shared;

    open spec fn handle_requires(this: Ptr<Self>, mem: Seq<Byte>) -> bool {
        ref_loadable::<T>(mem, this.addr as int)
    }

    open spec fn spec_handle(this: Ptr<Self>, mem: Seq<Byte>) -> MutHandle<'a, T> {
        MutHandle::spec_from_ptr(ptr_loaded::<T>(mem, this.addr as int))
    }

    /// The handle to the place the reference stored at `this` points at.
    fn handle_from_raw(this: Ptr<Self>, mem: &Memory) -> (h: MutHandle<'a, T>) {
        let ptr = Ptr::<T>::load(mem, this.addr);
        MutHandle { ptr, _lt: core::marker::PhantomData }
    }
}

impl<'a, T: ?Sized> PlaceHandle for RefHandle<'a, T> {
    type Target = T;
}

impl<'a, S: Subplace<Target: 'a>> ProjectPlace<S> for RefHandle<'a, S::Source> {
    type Projected = RefHandle<'a, S::Target>;

    open spec fn project_requires(&self, subplace: S) -> bool {
        projectable(self.ptr(), subplace)
    }

    open spec fn spec_project(&self, subplace: S) -> RefHandle<'a, S::Target> {
        RefHandle::spec_from_ptr(projected(self.ptr(), subplace))
    }

    fn project_place(self, subplace: S) -> (h: RefHandle<'a, S::Target>) {
        RefHandle { ptr: self.ptr.project_place(subplace), _lt: core::marker::PhantomData }
    }
}

impl<'a, PT: Timing, P: ?Sized + CreateHandle<PT>> DerefPlace<PT, Instant> for RefHandle<'a, P> {
    const POINTEE_ACCESS: AccessKind = P::ACCESS;
    const POINTER_ACCESS: AccessKind = AccessKind::Shared;
    const SAFE: bool = true;

    open spec fn deref_requires(&self, mem: Seq<Byte>) -> bool {
        P::handle_requires(self.ptr(), mem)
    }

    open spec fn spec_deref(&self, mem: Seq<Byte>) -> P::Handle {
        P::spec_handle(self.ptr(), mem)
    }

    fn deref_place(self, mem: &Memory) -> (h: P::Handle) {
        P::handle_from_raw(self.ptr, mem)
    }
}

impl<'a, 'b, T: ?Sized> BorrowPlace<SharedRef<'b, T>> for RefHandle<'a, T> where 'a: 'b {
    const ACCESS: AccessKind = AccessKind::Shared;

    type Timing = Lifetime<'b>;

    const SAFE: bool = true;

    open spec fn borrow_requires(&self, mem: Seq<Byte>) -> bool {
        true
    }

    open spec fn spec_borrow(&self, mem: Seq<Byte>) -> (SharedRef<'b, T>, Seq<Byte>) {
        (SharedRef::spec_from_ptr(self.ptr()), mem)
    }

    fn borrow(self, mem: &mut Memory) -> (out: SharedRef<'b, T>) {
        SharedRef { ptr: self.ptr, _lt: core::marker::PhantomData }
    }
}

impl<'a, T> ReadPlace for RefHandle<'a, T> {
    const ACCESS: AccessKind = AccessKind::Shared;
    const SAFE: bool = true;

    open spec fn read_requires(&self, mem: Seq<Byte>) -> bool {
        place_readable(self.ptr(), mem)
    }

    open spec fn spec_read(&self, mem: Seq<Byte>) -> Seq<u8> {
        place_value(self.ptr(), mem)
    }

    fn read_place(self, mem: &Memory) -> (value: Vec<u8>) {
        self.ptr.read_place(mem)
    }
}

impl<'a, T: ?Sized> PlaceHandle for MutHandle<'a, T> {
    type Target = T;
}

impl<'a, T> WritePlace for MutHandle<'a, T> {
    const ACCESS: AccessKind = AccessKind::Exclusive;
    const SAFE: bool = true;

    open spec fn write_requires(&self, mem: Seq<Byte>, value: Seq<u8>) -> bool {
        place_writable(self.ptr(), mem, value)
    }

    open spec fn spec_write(&self, mem: Seq<Byte>, value: Seq<u8>) -> Seq<Byte> {
        place_written(self.ptr(), mem, value)
    }

    fn write_place(self, mem: &mut Memory, value: &[u8]) {
        self.ptr.write_place(mem, value)
    }
}

impl<'a, T> DropPlace for MutHandle<'a, T> {
    open spec fn drop_requires(&self, mem: Seq<Byte>) -> bool {
        place_allocated(self.ptr(), mem)
    }

    open spec fn spec_drop(&self, mem: Seq<Byte>) -> Seq<Byte> {
        place_dropped(self.ptr(), mem)
    }

    fn drop_place(self, mem: &mut Memory) {
        self.ptr.drop_place(mem)
    }
}

impl<'a, T> ReadPlace for MutHandle<'a, T> {
    const ACCESS: AccessKind = AccessKind::Exclusive;
    const SAFE: bool = true;

    open spec fn read_requires(&self, mem: Seq<Byte>) -> bool {
        place_readable(self.ptr(), mem)
    }

    open spec fn spec_read(&self, mem: Seq<Byte>) -> Seq<u8> {
        place_value(self.ptr(), mem)
    }

    fn read_place(self, mem: &Memory) -> (value: Vec<u8>) {
        self.ptr.read_place(mem)
    }
}

impl<'a, S: Subplace<Target: 'a>> ProjectPlace<S> for MutHandle<'a, S::Source> {
    type Projected = MutHandle<'a, S::Target>;

    open spec fn project_requires(&self, subplace: S) -> bool {
        projectable(self.ptr(), subplace)
    }

    open spec fn spec_project(&self, subplace: S) -> MutHandle<'a, S::Target> {
        MutHandle::spec_from_ptr(projected(self.ptr(), subplace))
    }

    fn project_place(self, subplace: S) -> (h: MutHandle<'a, S::Target>) {
        MutHandle { ptr: self.ptr.project_place(subplace), _lt: core::marker::PhantomData }
    }
}

impl<'a, PT: Timing, P: ?Sized + CreateHandle<PT>> DerefPlace<PT, Instant> for MutHandle<'a, P> {
    const POINTEE_ACCESS: AccessKind = P::ACCESS;
    const POINTER_ACCESS: AccessKind = AccessKind::Shared;
    const SAFE: bool = true;

    open spec fn deref_requires(&self, mem: Seq<Byte>) -> bool {
        P::handle_requires(self.ptr(), mem)
    }

    open spec fn spec_deref(&self, mem: Seq<Byte>) -> P::Handle {
        P::spec_handle(self.ptr(), mem)
    }

    fn deref_place(self, mem: &Memory) -> (h: P::Handle) {
        P::handle_from_raw(self.ptr, mem)
    }
}

impl<'a, 'b, T: ?Sized> BorrowPlace<UniqueRef<'b, T>> for MutHandle<'a, T> where 'a: 'b {
    const ACCESS: AccessKind = AccessKind::Exclusive;

    type Timing = Lifetime<'b>;

    const SAFE: bool = true;

    open spec fn borrow_requires(&self, mem: Seq<Byte>) -> bool {
        true
    }

    open spec fn spec_borrow(&self, mem: Seq<Byte>) -> (UniqueRef<'b, T>, Seq<Byte>) {
        (UniqueRef::spec_from_ptr(self.ptr()), mem)
    }

    fn borrow(self, mem: &mut Memory) -> (out: UniqueRef<'b, T>) {
        UniqueRef { ptr: self.ptr, _lt: core::marker::PhantomData }
    }
}

/// Through an exclusive reference's handle, a read gives back what a write wrote.
pub proof fn lemma_mut_handle_read_after_write<'a, T>(h: MutHandle<'a, T>, m: Seq<Byte>, value: Seq<u8>)
    requires
        h.write_requires(m, value),
    ensures
        h.read_requires(h.spec_write(m, value)),
        h.spec_read(h.spec_write(m, value)) == value,
{
    lemma_read_after_write(h.ptr(), m, value);
}

/// Projecting the handle of a shared or exclusive reference lands on the
/// subplace: the address moves by the subplace's offset and the metadata is
/// the subplace's.
pub proof fn lemma_ref_handles_project<'a, S: Subplace<Target: 'a>>(
    r: RefHandle<'a, S::Source>,
    u: MutHandle<'a, S::Source>,
    s: S,
)
    requires
        s.offset_requires(r.ptr().meta),
        r.ptr().addr + s.spec_offset(r.ptr().meta).0 <= usize::MAX,
        s.offset_requires(u.ptr().meta),
        u.ptr().addr + s.spec_offset(u.ptr().meta).0 <= usize::MAX,
    ensures
        r.project_requires(s),
        r.spec_project(s).ptr().addr == r.ptr().addr + s.spec_offset(r.ptr().meta).0,
        r.spec_project(s).ptr().meta == s.spec_offset(r.ptr().meta).1,
        u.project_requires(s),
        u.spec_project(s).ptr().addr == u.ptr().addr + s.spec_offset(u.ptr().meta).0,
        u.spec_project(s).ptr().meta == s.spec_offset(u.ptr().meta).1,
{
    broadcast use group_reference_lemmas;

}

/// Reading through the handle of a shared or exclusive reference gives the
/// bytes of the place it points at.
pub proof fn lemma_ref_handles_read<'a, T>(r: RefHandle<'a, T>, u: MutHandle<'a, T>, m: Seq<Byte>)
    ensures
        r.read_requires(m) ==> r.spec_read(m).len() == vstd::layout::size_of::<T>(),
        r.read_requires(m) ==> forall|i: int|
            0 <= i < vstd::layout::size_of::<T>() ==> #[trigger] r.spec_read(m)[i]
                == crate::memory::byte_value(m[r.ptr().addr + i]),
        u.read_requires(m) ==> u.spec_read(m).len() == vstd::layout::size_of::<T>(),
        u.read_requires(m) ==> forall|i: int|
            0 <= i < vstd::layout::size_of::<T>() ==> #[trigger] u.spec_read(m)[i]
                == crate::memory::byte_value(m[u.ptr().addr + i]),
{
}

/// Writing through an exclusive reference's handle stores the value's bytes
/// in the place, and leaves every other byte as it was.
pub proof fn lemma_mut_handle_write<'a, T>(u: MutHandle<'a, T>, m: Seq<Byte>, value: Seq<u8>)
    requires
        u.write_requires(m, value),
    ensures
        u.spec_write(m, value).len() == m.len(),
        forall|i: int|
            0 <= i < value.len() ==> #[trigger] u.spec_write(m, value)[u.ptr().addr + i]
                == Byte::Init(value[i]),
        forall|i: int|
            0 <= i < m.len() && !(u.ptr().addr <= i < u.ptr().addr + value.len())
                ==> #[trigger] u.spec_write(m, value)[i] == m[i],
{
    assert forall|i: int|
        0 <= i < value.len() implies #[trigger] u.spec_write(m, value)[u.ptr().addr + i]
        == Byte::Init(value[i]) by {}
}

/// Dropping the value behind an exclusive reference's handle leaves every
/// byte of the place allocated but uninitialized, and every other byte as it
/// was.
pub proof fn lemma_mut_handle_drop<'a, T>(u: MutHandle<'a, T>, m: Seq<Byte>)
    requires
        u.drop_requires(m),
    ensures
        u.spec_drop(m).len() == m.len(),
        forall|i: int|
            u.ptr().addr <= i < u.ptr().addr + vstd::layout::size_of::<T>() ==> #[trigger] u.spec_drop(
                m,
            )[i] == Byte::Uninit,
        forall|i: int|
            0 <= i < m.len() && !(u.ptr().addr <= i < u.ptr().addr + vstd::layout::size_of::<T>())
                ==> #[trigger] u.spec_drop(m)[i] == m[i],
{
}

/// `*place` through a reference's handle creates the handle of the proxy
/// stored in the place the reference points at.
pub proof fn lemma_ref_handles_deref<'a, PT: Timing, P: ?Sized + CreateHandle<PT>>(
    r: RefHandle<'a, P>,
    u: MutHandle<'a, P>,
    m: Seq<Byte>,
)
    ensures
        <RefHandle<'a, P> as DerefPlace<PT, Instant>>::deref_requires(&r, m) == P::handle_requires(
            r.ptr(),
            m,
        ),
        <RefHandle<'a, P> as DerefPlace<PT, Instant>>::spec_deref(&r, m) == P::spec_handle(
            r.ptr(),
            m,
        ),
        <MutHandle<'a, P> as DerefPlace<PT, Instant>>::deref_requires(&u, m) == P::handle_requires(
            u.ptr(),
            m,
        ),
        <MutHandle<'a, P> as DerefPlace<PT, Instant>>::spec_deref(&u, m) == P::spec_handle(
            u.ptr(),
            m,
        ),
{
}

/// Borrowing the place of a reference's handle gives a reference of the same
/// kind to that place and changes no memory.
pub proof fn lemma_ref_handles_borrow<'a, 'b, T: ?Sized>(
    r: RefHandle<'a, T>,
    u: MutHandle<'a, T>,
    m: Seq<Byte>,
)
    where
        'a: 'b,
    ensures
        <RefHandle<'a, T> as BorrowPlace<SharedRef<'b, T>>>::spec_borrow(&r, m).0.ptr() == r.ptr(),
        <RefHandle<'a, T> as BorrowPlace<SharedRef<'b, T>>>::spec_borrow(&r, m).1 == m,
        <MutHandle<'a, T> as BorrowPlace<UniqueRef<'b, T>>>::spec_borrow(&u, m).0.ptr() == u.ptr(),
        <MutHandle<'a, T> as BorrowPlace<UniqueRef<'b, T>>>::spec_borrow(&u, m).1 == m,
{
    broadcast use group_reference_lemmas;

}

} // verus!
