//! Places behind smart pointers that only offer `Deref`: the handle keeps a
//! pointer to the smart pointer and the offset of the place in its target, and
//! dereferences whenever the place is used.
use vstd::prelude::*;
use crate::borrowck::AccessKind;
use crate::boxed::{BoxPtr, box_loadable};
use crate::borrowck::{Instant, Lifetime};
use crate::memory::{Byte, Memory, byte_value, in_bounds, stored};
use crate::ops::CreateHandle;
use crate::ops::{PlaceHandle, PlaceProxy, ProjectPlace, ReadMetadata, ReadPlace, WritePlace};
use crate::ptr::{
    Metadata,
    Pointee,
    Ptr,
    lemma_load_stored,
    meta_fits,
    ptr_bytes,
    ptr_of,
    ptr_loaded,
    stored_ptr_len,
};
use crate::ptr::non_null::NonNull;
use crate::ptr::raw::{
    place_readable,
    place_value,
    place_writable,
    place_written,
    projectable,
    projected,
};
use crate::reference::{SharedRef, UniqueRef, ref_loadable};
use crate::subplace::Subplace;

verus! {

/// A pointer-like proxy stored in memory that can be dereferenced.
pub trait Deref: PlaceProxy {
    spec fn deref_requires(this: Ptr<Self>, mem: Seq<Byte>) -> bool;

    /// The pointer to the target of the proxy stored at `this`.
    spec fn spec_deref(this: Ptr<Self>, mem: Seq<Byte>) -> Ptr<Self::Target>;

    fn deref(this: Ptr<Self>, mem: &Memory) -> (p: Ptr<Self::Target>)
        requires
            Self::deref_requires(this, mem@),
        ensures
            p == Self::spec_deref(this, mem@),
    ;
}

/// A proxy whose target may be mutated through it.
pub trait DerefMut: Deref {
    spec fn deref_mut_requires(this: Ptr<Self>, mem: Seq<Byte>) -> bool;

    /// The pointer to the target of the proxy stored at `this`, for mutation.
    spec fn spec_deref_mut(this: Ptr<Self>, mem: Seq<Byte>) -> Ptr<Self::Target>;

    fn deref_mut(this: Ptr<Self>, mem: &Memory) -> (p: Ptr<Self::Target>)
        requires
            Self::deref_mut_requires(this, mem@),
        ensures
            p == Self::spec_deref_mut(this, mem@),
    ;
}

impl<'a, T: ?Sized + Pointee> Deref for SharedRef<'a, T> {
    open spec fn deref_requires(this: Ptr<Self>, mem: Seq<Byte>) -> bool {
        ref_loadable::<T>(mem, this.addr as int)
    }

    open spec fn spec_deref(this: Ptr<Self>, mem: Seq<Byte>) -> Ptr<T> {
        ptr_loaded::<T>(mem, this.addr as int)
    }

    fn deref(this: Ptr<Self>, mem: &Memory) -> (p: Ptr<T>) {
        Ptr::load(mem, this.addr)
    }
}

impl<'a, T: ?Sized + Pointee> Deref for UniqueRef<'a, T> {
    open spec fn deref_requires(this: Ptr<Self>, mem: Seq<Byte>) -> bool {
        ref_loadable::<T>(mem, this.addr as int)
    }

    open spec fn spec_deref(this: Ptr<Self>, mem: Seq<Byte>) -> Ptr<T> {
        ptr_loaded::<T>(mem, this.addr as int)
    }

    fn deref(this: Ptr<Self>, mem: &Memory) -> (p: Ptr<T>) {
        Ptr::load(mem, this.addr)
    }
}

impl<'a, T: ?Sized + Pointee> DerefMut for UniqueRef<'a, T> {
    open spec fn deref_mut_requires(this: Ptr<Self>, mem: Seq<Byte>) -> bool {
        ref_loadable::<T>(mem, this.addr as int)
    }

    open spec fn spec_deref_mut(this: Ptr<Self>, mem: Seq<Byte>) -> Ptr<T> {
        ptr_loaded::<T>(mem, this.addr as int)
    }

    fn deref_mut(this: Ptr<Self>, mem: &Memory) -> (p: Ptr<T>) {
        Ptr::load(mem, this.addr)
    }
}

impl<T: ?Sized + Pointee> Deref for BoxPtr<T> {
    open spec fn deref_requires(this: Ptr<Self>, mem: Seq<Byte>) -> bool {
        box_loadable::<T>(mem, this.addr as int)
    }

    open spec fn spec_deref(this: Ptr<Self>, mem: Seq<Byte>) -> Ptr<T> {
        ptr_loaded::<T>(mem, this.addr as int)
    }

    fn deref(this: Ptr<Self>, mem: &Memory) -> (p: Ptr<T>) {
        Ptr::load(mem, this.addr)
    }
}

impl<T: ?Sized + Pointee> DerefMut for BoxPtr<T> {
    open spec fn deref_mut_requires(this: Ptr<Self>, mem: Seq<Byte>) -> bool {
        box_loadable::<T>(mem, this.addr as int)
    }

    open spec fn spec_deref_mut(this: Ptr<Self>, mem: Seq<Byte>) -> Ptr<T> {
        ptr_loaded::<T>(mem, this.addr as int)
    }

    fn deref_mut(this: Ptr<Self>, mem: &Memory) -> (p: Ptr<T>) {
        Ptr::load(mem, this.addr)
    }
}

/// Handle to the place at byte offset `offset` in the target of the smart
/// pointer `P` that `ptr` points at.
pub struct DerefHandle<P, T: ?Sized> {
    ptr: NonNull<P>,
    offset: usize,
    _target: core::marker::PhantomData<T>,
}

impl<P, T: ?Sized> Clone for DerefHandle<P, T> {
    fn clone(&self) -> (h: Self)
        ensures
            h == *self,
    {
        DerefHandle { ptr: self.ptr, offset: self.offset, _target: core::marker::PhantomData }
    }
}

impl<P, T: ?Sized> Copy for DerefHandle<P, T> {
}

impl<P: Deref, T: ?Sized> DerefHandle<P, T> {
    /// Where the smart pointer is stored.
    pub closed spec fn pointer(&self) -> Ptr<P> {
        self.ptr.ptr()
    }

    /// The offset of the place in the smart pointer's target.
    pub closed spec fn offset(&self) -> usize {
        self.offset
    }

    /// The handle to the place at `offset` in the target of the smart pointer at `p`.
    pub closed spec fn spec_new(p: Ptr<P>, offset: usize) -> Self {
        DerefHandle { ptr: NonNull::spec_from_ptr(p), offset, _target: core::marker::PhantomData }
    }

    pub broadcast proof fn lemma_new(p: Ptr<P>, offset: usize)
        ensures
            (#[trigger] Self::spec_new(p, offset)).pointer() == p,
            Self::spec_new(p, offset).offset() == offset,
    {
        NonNull::lemma_from_ptr(p);
    }

    /// The handle to the whole target of the smart pointer stored at `ptr`.
    pub fn new(ptr: Ptr<P>) -> (h: Self)
        requires
            ptr.addr != 0,
        ensures
            h == Self::spec_new(ptr, 0),
    {
        DerefHandle { ptr: NonNull::new_unchecked(ptr), offset: 0, _target: core::marker::PhantomData }
    }

    /// The handled place can be located in `mem`.
    pub open spec fn located(&self, mem: Seq<Byte>) -> bool {
        &&& P::deref_requires(self.pointer(), mem)
        &&& P::spec_deref(self.pointer(), mem).addr + self.offset() <= usize::MAX
    }

    /// The handled place in `mem`: `offset` bytes into the smart pointer's target.
    pub open spec fn target(&self, mem: Seq<Byte>) -> Ptr<T> {
        ptr_of((P::spec_deref(self.pointer(), mem).addr + self.offset()) as usize, Metadata::Thin)
    }
}

impl<P: DerefMut, T: ?Sized> DerefHandle<P, T> {
    /// The handled place can be located in `mem` for mutation.
    pub open spec fn located_mut(&self, mem: Seq<Byte>) -> bool {
        &&& P::deref_mut_requires(self.pointer(), mem)
        &&& P::spec_deref_mut(self.pointer(), mem).addr + self.offset() <= usize::MAX
    }

    /// The handled place in `mem` for mutation: `offset` bytes into the target
    /// that the smart pointer gives for mutation.
    pub open spec fn target_mut(&self, mem: Seq<Byte>) -> Ptr<T> {
        ptr_of(
            (P::spec_deref_mut(self.pointer(), mem).addr + self.offset()) as usize,
            Metadata::Thin,
        )
    }
}

impl<P: Deref, T> DerefHandle<P, T> {
    /// A shared reference to the handled place.
    fn get_ref<'a>(self, mem: &Memory) -> (r: SharedRef<'a, T>)
        requires
            self.located(mem@),
        ensures
            r == SharedRef::<'a, T>::spec_from_ptr(self.target(mem@)),
    {
        let target = P::deref(self.ptr.as_ptr(), mem);
        let ptr: Ptr<T> = target.cast();
        let ptr = ptr.byte_add(self.offset);
        SharedRef::from_raw(ptr)
    }

    /// An exclusive reference to the handled place.
    fn get_mut<'a>(self, mem: &Memory) -> (r: UniqueRef<'a, T>)
        where
            P: DerefMut,
        requires
            self.located_mut(mem@),
        ensures
            r == UniqueRef::<'a, T>::spec_from_ptr(self.target_mut(mem@)),
    {
        let target = P::deref_mut(self.ptr.as_ptr(), mem);
        let ptr: Ptr<T> = target.cast();
        let ptr = ptr.byte_add(self.offset);
        UniqueRef::from_raw(ptr)
    }
}

impl<P, T: ?Sized> PlaceHandle for DerefHandle<P, T> {
    type Target = T;
}

impl<P: Deref, T: Copy> ReadPlace for DerefHandle<P, T> {
    const ACCESS: AccessKind = AccessKind::Shared;
    const SAFE: bool = true;

    open spec fn read_requires(&self, mem: Seq<Byte>) -> bool {
        &&& self.located(mem)
        &&& place_readable(self.target(mem), mem)
    }

    open spec fn spec_read(&self, mem: Seq<Byte>) -> Seq<u8> {
        place_value(self.target(mem), mem)
    }

    fn read_place(self, mem: &Memory) -> (value: Vec<u8>) {
        let r = self.get_ref(mem);
        proof {
            SharedRef::<T>::lemma_from_ptr(self.target(mem@));
        }
        r.as_ptr().read_place(mem)
    }
}

/// The metadata of a sized place is `()`.
impl<P, T> ReadMetadata for DerefHandle<P, T> {
    open spec fn spec_metadata(&self) -> Metadata {
        Metadata::Thin
    }

    fn metadata(self) -> (m: Metadata) {
        Metadata::Thin
    }
}

impl<P: Deref, S: Subplace<Source: Sized>> ProjectPlace<S> for DerefHandle<P, S::Source> {
    type Projected = DerefHandle<P, S::Target>;

    open spec fn project_requires(&self, subplace: S) -> bool {
        &&& subplace.offset_requires(Metadata::Thin)
        &&& self.offset() + subplace.spec_offset(Metadata::Thin).0 <= usize::MAX
    }

    /// The subplace lies `offset` bytes further into the same target.
    open spec fn spec_project(&self, subplace: S) -> DerefHandle<P, S::Target> {
        DerefHandle::spec_new(
            self.pointer(),
            (self.offset() + subplace.spec_offset(Metadata::Thin).0) as usize,
        )
    }

    fn project_place(self, subplace: S) -> (h: DerefHandle<P, S::Target>) {
        proof {
            NonNull::lemma_ext(self.ptr);
        }
        let meta = self.metadata();
        let (offset, _) = subplace.offset(meta);
        DerefHandle { ptr: self.ptr, offset: self.offset + offset, _target: core::marker::PhantomData }
    }
}

/// Projecting a deref handle handles the same place as projecting the place it
/// handles: the handle only accumulates the offset and dereferences later.
pub proof fn lemma_deref_handle_project<P: Deref, A, S: Subplace<Source = A>>(
    h: DerefHandle<P, A>,
    s: S,
    mem: Seq<Byte>,
)
    requires
        h.project_requires(s),
        h.located(mem),
        P::spec_deref(h.pointer(), mem).addr + h.offset() + s.spec_offset(Metadata::Thin).0
            <= usize::MAX,
        s.spec_offset(Metadata::Thin).1 == Metadata::Thin,
    ensures
        h.spec_project(s).located(mem),
        projectable(h.target(mem), s),
        h.spec_project(s).target(mem) == projected(h.target(mem), s),
{
    DerefHandle::<P, S::Target>::lemma_new(
        h.pointer(),
        (h.offset() + s.spec_offset(Metadata::Thin).0) as usize,
    );
}

impl<P: DerefMut, T> WritePlace for DerefHandle<P, T> {
    const ACCESS: AccessKind = AccessKind::Exclusive;
    const SAFE: bool = true;

    open spec fn write_requires(&self, mem: Seq<Byte>, value: Seq<u8>) -> bool {
        &&& self.located_mut(mem)
        &&& place_writable(self.target_mut(mem), mem, value)
    }

    open spec fn spec_write(&self, mem: Seq<Byte>, value: Seq<u8>) -> Seq<Byte> {
        place_written(self.target_mut(mem), mem, value)
    }

    fn write_place(self, mem: &mut Memory, value: &[u8]) {
        let r = self.get_mut(mem);
        proof {
            UniqueRef::<T>::lemma_from_ptr(self.target_mut(old(mem)@));
        }
        r.as_ptr().write_place(mem, value)
    }
}

/// Dereferencing a reference or a box stored in memory gives the pointer
/// stored in it, for shared and exclusive access alike.
pub proof fn lemma_deref_stored<'a, T: ?Sized + Pointee + 'a>(m: Seq<Byte>, at: usize, target: Ptr<T>)
    requires
        in_bounds(m, at as int, stored_ptr_len::<T>()),
        meta_fits::<T>(target.meta),
        target.addr != 0,
    ensures
        ({
            let m2 = stored(m, at as int, ptr_bytes(target));
            &&& <SharedRef<'a, T> as Deref>::deref_requires(ptr_of(at, Metadata::Thin), m2)
            &&& <SharedRef<'a, T> as Deref>::spec_deref(ptr_of(at, Metadata::Thin), m2) == target
            &&& <UniqueRef<'a, T> as Deref>::deref_requires(ptr_of(at, Metadata::Thin), m2)
            &&& <UniqueRef<'a, T> as Deref>::spec_deref(ptr_of(at, Metadata::Thin), m2) == target
            &&& <UniqueRef<'a, T> as DerefMut>::deref_mut_requires(ptr_of(at, Metadata::Thin), m2)
            &&& <UniqueRef<'a, T> as DerefMut>::spec_deref_mut(ptr_of(at, Metadata::Thin), m2)
                == target
            &&& <BoxPtr<T> as Deref>::deref_requires(ptr_of(at, Metadata::Thin), m2)
            &&& <BoxPtr<T> as Deref>::spec_deref(ptr_of(at, Metadata::Thin), m2) == target
            &&& <BoxPtr<T> as DerefMut>::deref_mut_requires(ptr_of(at, Metadata::Thin), m2)
            &&& <BoxPtr<T> as DerefMut>::spec_deref_mut(ptr_of(at, Metadata::Thin), m2) == target
        }),
{
    lemma_load_stored::<T>(m, at as int, target);
}

/// `Deref` on a stored reference or box gives the pointer that the handle
/// made from it points with.
pub proof fn lemma_deref_as_handle<'a, T: ?Sized + Pointee + 'a>(
    r: Ptr<SharedRef<'a, T>>,
    u: Ptr<UniqueRef<'a, T>>,
    b: Ptr<BoxPtr<T>>,
    m: Seq<Byte>,
)
    ensures
        <SharedRef<'a, T> as Deref>::deref_requires(r, m) ==> <SharedRef<'a, T> as Deref>::spec_deref(
            r,
            m,
        ) == <SharedRef<'a, T> as CreateHandle<Lifetime<'a>>>::spec_handle(r, m).ptr(),
        <UniqueRef<'a, T> as Deref>::deref_requires(u, m) ==> <UniqueRef<'a, T> as Deref>::spec_deref(
            u,
            m,
        ) == <UniqueRef<'a, T> as CreateHandle<Instant>>::spec_handle(u, m).ptr(),
        <UniqueRef<'a, T> as DerefMut>::deref_mut_requires(u, m) ==> <UniqueRef<
            'a,
            T,
        > as DerefMut>::spec_deref_mut(u, m) == <UniqueRef<'a, T> as CreateHandle<
            Instant,
        >>::spec_handle(u, m).ptr(),
        <BoxPtr<T> as Deref>::deref_requires(b, m) ==> <BoxPtr<T> as Deref>::spec_deref(b, m)
            == <BoxPtr<T> as CreateHandle<Instant>>::spec_handle(b, m).ptr(),
        <BoxPtr<T> as DerefMut>::deref_mut_requires(b, m) ==> <BoxPtr<T> as DerefMut>::spec_deref_mut(
            b,
            m,
        ) == <BoxPtr<T> as CreateHandle<Instant>>::spec_handle(b, m).ptr(),
{
    SharedRef::<'a, T>::lemma_from_ptr(ptr_loaded::<T>(m, r.addr as int));
    UniqueRef::<'a, T>::lemma_from_ptr(ptr_loaded::<T>(m, u.addr as int));
    crate::reference::RefHandle::<'a, T>::lemma_from_ptr(ptr_loaded::<T>(m, r.addr as int));
    crate::reference::MutHandle::<'a, T>::lemma_from_ptr(ptr_loaded::<T>(m, u.addr as int));
    crate::boxed::BoxHandle::<T>::lemma_from_ptr(ptr_loaded::<T>(m, b.addr as int));
}

/// A deref handle over a shared reference stored at `at`, pointing at
/// `target`, handles `target`'s place: a read gives the bytes stored there.
pub proof fn lemma_deref_handle_reads_target<'a, T: Copy + 'a>(
    m: Seq<Byte>,
    at: usize,
    target: Ptr<T>,
)
    requires
        in_bounds(m, at as int, 8),
        target.addr != 0,
        target.meta == Metadata::Thin,
    ensures
        ({
            let m2 = stored(m, at as int, ptr_bytes(target));
            let h = DerefHandle::<SharedRef<'a, T>, T>::spec_new(ptr_of(at, Metadata::Thin), 0);
            &&& h.located(m2)
            &&& h.target(m2) == target
            &&& h.read_requires(m2) == place_readable(target, m2)
            &&& h.read_requires(m2) ==> h.spec_read(m2).len() == vstd::layout::size_of::<T>()
            &&& h.read_requires(m2) ==> forall|i: int|
                0 <= i < vstd::layout::size_of::<T>() ==> #[trigger] h.spec_read(m2)[i]
                    == byte_value(m2[target.addr + i])
        }),
{
    lemma_load_stored::<T>(m, at as int, target);
    DerefHandle::<SharedRef<'a, T>, T>::lemma_new(ptr_of(at, Metadata::Thin), 0);
}

/// Projecting a deref handle keeps the smart pointer and adds the subplace's
/// offset to the offset of the place in its target.
pub proof fn lemma_deref_handle_project_offset<P: Deref, S: Subplace<Source: Sized>>(
    h: DerefHandle<P, S::Source>,
    s: S,
)
    requires
        h.project_requires(s),
    ensures
        h.spec_project(s).pointer() == h.pointer(),
        h.spec_project(s).offset() == h.offset() + s.spec_offset(Metadata::Thin).0,
{
    DerefHandle::<P, S::Target>::lemma_new(
        h.pointer(),
        (h.offset() + s.spec_offset(Metadata::Thin).0) as usize,
    );
}

/// A deref handle over an exclusive reference stored at `at`, pointing at
/// `target`, writes to `target`'s place: the value's bytes are stored there
/// and every other byte is left as it was.
pub proof fn lemma_deref_handle_writes_target<'a, T: 'a>(
    m: Seq<Byte>,
    at: usize,
    target: Ptr<T>,
    value: Seq<u8>,
)
    requires
        in_bounds(m, at as int, 8),
        target.addr != 0,
        target.meta == Metadata::Thin,
    ensures
        ({
            let m2 = stored(m, at as int, ptr_bytes(target));
            let h = DerefHandle::<UniqueRef<'a, T>, T>::spec_new(ptr_of(at, Metadata::Thin), 0);
            let m3 = h.spec_write(m2, value);
            &&& h.located_mut(m2)
            &&& h.target_mut(m2) == target
            &&& h.write_requires(m2, value) == place_writable(target, m2, value)
            &&& h.write_requires(m2, value) ==> m3.len() == m2.len()
            &&& h.write_requires(m2, value) ==> forall|i: int|
                0 <= i < value.len() ==> #[trigger] m3[target.addr + i] == Byte::Init(value[i])
            &&& h.write_requires(m2, value) ==> forall|i: int|
                0 <= i < m2.len() && !(target.addr <= i < target.addr + value.len())
                    ==> #[trigger] m3[i] == m2[i]
        }),
{
    lemma_load_stored::<T>(m, at as int, target);
    DerefHandle::<UniqueRef<'a, T>, T>::lemma_new(ptr_of(at, Metadata::Thin), 0);
    let m2 = stored(m, at as int, ptr_bytes(target));
    let h = DerefHandle::<UniqueRef<'a, T>, T>::spec_new(ptr_of(at, Metadata::Thin), 0);
    if h.write_requires(m2, value) {
        let m3 = h.spec_write(m2, value);
        assert forall|i: int| 0 <= i < value.len() implies #[trigger] m3[target.addr + i]
            == Byte::Init(value[i]) by {}
    }
}

/// A deref handle reads the place `offset` bytes into the target that the
/// smart pointer gives, and writes to the place `offset` bytes into the target
/// that it gives for mutation, leaving every other byte as it was.
pub proof fn lemma_deref_handle_place<P: DerefMut, T: Copy>(
    h: DerefHandle<P, T>,
    m: Seq<Byte>,
    value: Seq<u8>,
)
    ensures
        h.located(m) ==> h.target(m).addr == P::spec_deref(h.pointer(), m).addr + h.offset(),
        h.read_requires(m) ==> h.spec_read(m).len() == vstd::layout::size_of::<T>(),
        h.read_requires(m) ==> forall|i: int|
            0 <= i < vstd::layout::size_of::<T>() ==> #[trigger] h.spec_read(m)[i] == byte_value(
                m[P::spec_deref(h.pointer(), m).addr + h.offset() + i],
            ),
        h.write_requires(m, value) ==> h.spec_write(m, value).len() == m.len(),
        h.write_requires(m, value) ==> forall|i: int|
            0 <= i < value.len() ==> #[trigger] h.spec_write(m, value)[P::spec_deref_mut(
                h.pointer(),
                m,
            ).addr + h.offset() + i] == Byte::Init(value[i]),
        h.write_requires(m, value) ==> forall|i: int|
            0 <= i < m.len() && !(P::spec_deref_mut(h.pointer(), m).addr + h.offset() <= i
                < P::spec_deref_mut(h.pointer(), m).addr + h.offset() + value.len())
                ==> #[trigger] h.spec_write(m, value)[i] == m[i],
{
    if h.write_requires(m, value) {
        let a = P::spec_deref_mut(h.pointer(), m).addr + h.offset();
        assert forall|i: int| 0 <= i < value.len() implies #[trigger] h.spec_write(m, value)[a + i]
            == Byte::Init(value[i]) by {}
    }
}

} // verus!
