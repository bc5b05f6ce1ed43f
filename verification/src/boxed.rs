//! `Box<T>` of the memory model and its handle.
use vstd::prelude::*;
use crate::borrowck::{AccessKind, Instant};
use crate::memory::{Byte, Memory, range_allocated, range_init, bytes_at, filled};
use crate::ops::{
    CreateHandle,
    DropHusk,
    DropPlace,
    PlaceHandle,
    PlaceProxy,
    ProjectPlace,
    ReadPlace,
    WritePlace,
};
use crate::ptr::{Pointee, Ptr, ptr_loadable, ptr_loaded, stored_ptr_len};
use crate::ptr::raw::{
    place_allocated,
    place_dropped,
    place_readable,
    place_value,
    place_writable,
    place_written,
    projectable,
    projected,
};
use crate::subplace::Subplace;

verus! {

/// A box `Box<T>`: a non-null pointer owning its allocation.
pub struct BoxPtr<T: ?Sized> {
    ptr: Ptr<T>,
}

/// Handle to the place owned by a `Box<T>`.
pub struct BoxHandle<T: ?Sized> {
    ptr: Ptr<T>,
}

impl<T: ?Sized> BoxHandle<T> {
    /// The pointer to the handled place.
    pub closed spec fn ptr(&self) -> Ptr<T> {
        self.ptr
    }

    /// The handle to the place `p` points at.
    pub closed spec fn spec_from_ptr(p: Ptr<T>) -> Self {
        BoxHandle { ptr: p }
    }

    pub broadcast proof fn lemma_from_ptr(p: Ptr<T>)
        ensures
            (#[trigger] Self::spec_from_ptr(p)).ptr() == p,
    {
    }
}

/// A box pointing at a `T` is stored at `at`, and is not null.
pub open spec fn box_loadable<T: ?Sized + Pointee>(m: Seq<Byte>, at: int) -> bool {
    &&& ptr_loadable::<T>(m, at)
    &&& ptr_loaded::<T>(m, at).addr != 0
}

impl<T: ?Sized> PlaceProxy for BoxPtr<T> {
    type Target = T;
}

impl<T: ?Sized + Pointee> CreateHandle<Instant> for BoxPtr<T> {
    type Handle = BoxHandle<T>;

    const ACCESS: AccessKind = AccessKind::Shared;

    open spec fn handle_requires(this: Ptr<Self>, mem: Seq<Byte>) -> bool {
        box_loadable::<T>(mem, this.addr as int)
    }

    open spec fn spec_handle(this: Ptr<Self>, mem: Seq<Byte>) -> BoxHandle<T> {
        BoxHandle::spec_from_ptr(ptr_loaded::<T>(mem, this.addr as int))
    }

    /// The handle to the place owned by the box stored at `this`.
    fn handle_from_raw(this: Ptr<Self>, mem: &Memory) -> (h: BoxHandle<T>) {
        let ptr = Ptr::<T>::load(mem, this.addr);
        BoxHandle { ptr }
    }
}

impl<T: ?Sized> PlaceHandle for BoxHandle<T> {
    type Target = T;
}

impl<S: Subplace> ProjectPlace<S> for BoxHandle<S::Source> {
    type Projected = BoxHandle<S::Target>;

    open spec fn project_requires(&self, subplace: S) -> bool {
        projectable(self.ptr(), subplace)
    }

    open spec fn spec_project(&self, subplace: S) -> BoxHandle<S::Target> {
        BoxHandle::spec_from_ptr(projected(self.ptr(), subplace))
    }

    fn project_place(self, subplace: S) -> (h: BoxHandle<S::Target>) {
        BoxHandle { ptr: self.ptr.project_place(subplace) }
    }
}

impl<T> WritePlace for BoxHandle<T> {
    const ACCESS: AccessKind = AccessKind::Exclusive;
    const SAFE: bool = true;

    open spec fn write_requires(&self, mem: Seq<Byte>, value: Seq<u8>) -> bool {
        place_writable(self.ptr(), mem, value)
    }

    open spec fn spec_write(&self, mem: Seq<Byte>, value: Seq<u8>) -> Seq<Byte> {
        place_written(self.ptr(), mem, value)
    }

    fn write_place(self, mem: &mut Memory, value: &[u8]) {
        self.ptr.write_place(mem, value)
    }
}

impl<T> ReadPlace for BoxHandle<T> {
    const ACCESS: AccessKind = AccessKind::Shared;
    const SAFE: bool = true;

    open spec fn read_requires(&self, mem: Seq<Byte>) -> bool {
        place_readable(self.ptr(), mem)
    }

    open spec fn spec_read(&self, mem: Seq<Byte>) -> Seq<u8> {
        place_value(self.ptr(), mem)
    }

    fn read_place(self, mem: &Memory) -> (value: Vec<u8>) {
        self.ptr.read_place(mem)
    }
}

impl<T> DropPlace for BoxHandle<T> {
    open spec fn drop_requires(&self, mem: Seq<Byte>) -> bool {
        place_allocated(self.ptr(), mem)
    }

    open spec fn spec_drop(&self, mem: Seq<Byte>) -> Seq<Byte> {
        place_dropped(self.ptr(), mem)
    }

    fn drop_place(self, mem: &mut Memory) {
        self.ptr.drop_place(mem)
    }
}

/// The allocation owned by the box stored at `at` can be freed.
pub open spec fn box_freeable<T: ?Sized + Pointee>(m: Seq<Byte>, at: int) -> bool {
    let p = ptr_loaded::<T>(m, at);
    &&& ptr_loadable::<T>(m, at)
    &&& 0 <= T::spec_size(p.meta) <= isize::MAX
    &&& range_allocated(m, p.addr as int, T::spec_size(p.meta))
}

/// Dropping an emptied box frees its allocation.
impl<T: ?Sized + Pointee> DropHusk for BoxPtr<T> {
    open spec fn husk_requires(this: Ptr<Self>, mem: Seq<Byte>) -> bool {
        box_freeable::<T>(mem, this.addr as int)
    }

    open spec fn spec_drop_husk(this: Ptr<Self>, mem: Seq<Byte>) -> Seq<Byte> {
        let p = ptr_loaded::<T>(mem, this.addr as int);
        filled(mem, p.addr as int, T::spec_size(p.meta), Byte::Unallocated)
    }

    fn drop_husk(this: Ptr<Self>, mem: &mut Memory) {
        let ptr = Ptr::<T>::load(mem, this.addr);
        let layout = T::layout_for(ptr.meta);
        mem.dealloc(ptr.addr, layout.size);
    }
}

/// Dropping the contents of a box and then its husk frees exactly the box's
/// allocation, as dropping the whole box does, and touches nothing else; the
/// box itself must not be stored inside its own allocation.
pub proof fn lemma_drop_contents_then_husk<T>(this: Ptr<BoxPtr<T>>, m: Seq<Byte>)
    requires
        box_loadable::<T>(m, this.addr as int),
        box_freeable::<T>(m, this.addr as int),
        ({
            let p = ptr_loaded::<T>(m, this.addr as int);
            ||| this.addr + 8 <= p.addr
            ||| p.addr + vstd::layout::size_of::<T>() <= this.addr
        }),
    ensures
        ({
            let h = <BoxPtr<T> as CreateHandle<Instant>>::spec_handle(this, m);
            let p = ptr_loaded::<T>(m, this.addr as int);
            let m1 = h.spec_drop(m);
            &&& h.drop_requires(m)
            &&& <BoxPtr<T> as DropHusk>::husk_requires(this, m1)
            &&& <BoxPtr<T> as DropHusk>::spec_drop_husk(this, m1) == filled(
                m,
                p.addr as int,
                vstd::layout::size_of::<T>() as int,
                Byte::Unallocated,
            )
        }),
{
    let h = <BoxPtr<T> as CreateHandle<Instant>>::spec_handle(this, m);
    let p = ptr_loaded::<T>(m, this.addr as int);
    let size = vstd::layout::size_of::<T>() as int;
    BoxHandle::<T>::lemma_from_ptr(p);
    let m1 = h.spec_drop(m);
    let at = this.addr as int;
    assert(stored_ptr_len::<T>() == 8);
    assert forall|i: int| at <= i < at + 8 implies #[trigger] m1[i] == m[i] by {}
    assert(bytes_at(m1, at, 8) =~= bytes_at(m, at, 8));
    assert(range_init(m1, at, 8)) by {
        assert forall|i: int| at <= i < at + 8 implies #[trigger] m1[i] is Init by {
            assert(m[i] is Init);
        }
    }
    assert(range_allocated(m1, p.addr as int, size)) by {
        assert forall|i: int| p.addr <= i < p.addr + size implies !(#[trigger] m1[i] is Unallocated) by {}
    }
    assert(filled(m1, p.addr as int, size, Byte::Unallocated) =~= filled(
        m,
        p.addr as int,
        size,
        Byte::Unallocated,
    ));
}

/// The handle of a box holding the pointer `target` is that pointer.
pub proof fn lemma_box_handle_stored<T: ?Sized + Pointee>(m: Seq<Byte>, at: usize, target: Ptr<T>)
    requires
        crate::memory::in_bounds(m, at as int, stored_ptr_len::<T>()),
        crate::ptr::meta_fits::<T>(target.meta),
        target.addr != 0,
    ensures
        ({
            let this = crate::ptr::ptr_of::<BoxPtr<T>>(at, crate::ptr::Metadata::Thin);
            let m2 = crate::memory::stored(m, at as int, crate::ptr::ptr_bytes(target));
            &&& <BoxPtr<T> as CreateHandle<Instant>>::handle_requires(this, m2)
            &&& <BoxPtr<T> as CreateHandle<Instant>>::spec_handle(this, m2).ptr() == target
        }),
{
    crate::ptr::lemma_load_stored::<T>(m, at as int, target);
    BoxHandle::<T>::lemma_from_ptr(target);
}

/// Dropping the husk of a box frees its allocation: every byte of the `T` the
/// box points at becomes unallocated, and every other byte is as it was.
pub proof fn lemma_box_husk_frees<T: ?Sized + Pointee>(this: Ptr<BoxPtr<T>>, m: Seq<Byte>)
    requires
        <BoxPtr<T> as DropHusk>::husk_requires(this, m),
    ensures
        ({
            let p = ptr_loaded::<T>(m, this.addr as int);
            let m2 = <BoxPtr<T> as DropHusk>::spec_drop_husk(this, m);
            &&& m2.len() == m.len()
            &&& forall|i: int|
                p.addr <= i < p.addr + T::spec_size(p.meta) ==> #[trigger] m2[i]
                    == Byte::Unallocated
            &&& forall|i: int|
                0 <= i < m.len() && !(p.addr <= i < p.addr + T::spec_size(p.meta))
                    ==> #[trigger] m2[i] == m[i]
        }),
{
}

/// Projecting a box's handle lands on the subplace: the address moves by the
/// subplace's offset and the metadata is the subplace's.
pub proof fn lemma_box_handle_project<S: Subplace>(h: BoxHandle<S::Source>, s: S)
    requires
        s.offset_requires(h.ptr().meta),
        h.ptr().addr + s.spec_offset(h.ptr().meta).0 <= usize::MAX,
    ensures
        h.project_requires(s),
        h.spec_project(s).ptr().addr == h.ptr().addr + s.spec_offset(h.ptr().meta).0,
        h.spec_project(s).ptr().meta == s.spec_offset(h.ptr().meta).1,
{
    BoxHandle::<S::Target>::lemma_from_ptr(projected(h.ptr(), s));
}

/// Through a box's handle, a read gives the bytes of the place, a write stores
/// the value's bytes there, and a drop leaves them allocated but
/// uninitialized; every other byte is left as it was.
pub proof fn lemma_box_handle_place<T>(h: BoxHandle<T>, m: Seq<Byte>, value: Seq<u8>)
    ensures
        h.read_requires(m) ==> h.spec_read(m).len() == vstd::layout::size_of::<T>(),
        h.read_requires(m) ==> forall|i: int|
            0 <= i < vstd::layout::size_of::<T>() ==> #[trigger] h.spec_read(m)[i]
                == crate::memory::byte_value(m[h.ptr().addr + i]),
        h.write_requires(m, value) ==> h.spec_write(m, value).len() == m.len(),
        h.write_requires(m, value) ==> forall|i: int|
            0 <= i < value.len() ==> #[trigger] h.spec_write(m, value)[h.ptr().addr + i]
                == Byte::Init(value[i]),
        h.write_requires(m, value) ==> forall|i: int|
            0 <= i < m.len() && !(h.ptr().addr <= i < h.ptr().addr + value.len())
                ==> #[trigger] h.spec_write(m, value)[i] == m[i],
        h.drop_requires(m) ==> h.spec_drop(m).len() == m.len(),
        h.drop_requires(m) ==> forall|i: int|
            h.ptr().addr <= i < h.ptr().addr + vstd::layout::size_of::<T>() ==> #[trigger] h.spec_drop(
                m,
            )[i] == Byte::Uninit,
        h.drop_requires(m) ==> forall|i: int|
            0 <= i < m.len() && !(h.ptr().addr <= i < h.ptr().addr + vstd::layout::size_of::<T>())
                ==> #[trigger] h.spec_drop(m)[i] == m[i],
{
    if h.write_requires(m, value) {
        assert forall|i: int|
            0 <= i < value.len() implies #[trigger] h.spec_write(m, value)[h.ptr().addr + i]
            == Byte::Init(value[i]) by {}
    }
}

} // verus!
