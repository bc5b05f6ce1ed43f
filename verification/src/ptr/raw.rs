//! Place operations on raw pointers (`*const T`, `*mut T`): every operation is
//! available and none is safe, since nothing is known of the pointer.
use vstd::prelude::*;
use crate::borrowck::{AccessKind, Instant, Timing};
use crate::memory::{
    Byte,
    Memory,
    bytes_at,
    filled,
    in_bounds,
    lemma_read_stored,
    null_unallocated,
    range_allocated,
    range_init,
    stored,
};
use crate::ops::{
    CreateHandle,
    DerefPlace,
    DropHusk,
    DropPlace,
    MovePlace,
    PlaceHandle,
    PlaceProxy,
    ProjectPlace,
    ReadMetadata,
    ReadPlace,
    WritePlace,
};
use crate::ptr::{Metadata, Pointee, Ptr, ptr_of, ptr_loadable, ptr_loaded};
use crate::subplace::Subplace;

verus! {

/// The place `p` points at holds an initialized `T`.
pub open spec fn place_readable<T>(p: Ptr<T>, m: Seq<Byte>) -> bool {
    range_init(m, p.addr as int, vstd::layout::size_of::<T>() as int)
}

/// The bytes of the `T` that `p` points at.
pub open spec fn place_value<T>(p: Ptr<T>, m: Seq<Byte>) -> Seq<u8> {
    bytes_at(m, p.addr as int, vstd::layout::size_of::<T>() as int)
}

/// The place `p` points at is allocated and `value` has the size of a `T`.
pub open spec fn place_writable<T>(p: Ptr<T>, m: Seq<Byte>, value: Seq<u8>) -> bool {
    &&& range_allocated(m, p.addr as int, vstd::layout::size_of::<T>() as int)
    &&& value.len() == vstd::layout::size_of::<T>()
}

/// Memory after `value` is written to the place `p` points at.
pub open spec fn place_written<T>(p: Ptr<T>, m: Seq<Byte>, value: Seq<u8>) -> Seq<Byte> {
    stored(m, p.addr as int, value)
}

/// The place `p` points at is allocated.
pub open spec fn place_allocated<T>(p: Ptr<T>, m: Seq<Byte>) -> bool {
    range_allocated(m, p.addr as int, vstd::layout::size_of::<T>() as int)
}

/// Memory after the value at the place `p` points at is dropped.
pub open spec fn place_dropped<T>(p: Ptr<T>, m: Seq<Byte>) -> Seq<Byte> {
    filled(m, p.addr as int, vstd::layout::size_of::<T>() as int, Byte::Uninit)
}

/// `s` is a subplace of the place `p` points at, and its address is representable.
pub open spec fn projectable<S: Subplace>(p: Ptr<S::Source>, s: S) -> bool {
    &&& s.offset_requires(p.meta)
    &&& p.addr + s.spec_offset(p.meta).0 <= usize::MAX
}

/// The pointer to the subplace `s` of the place `p` points at.
pub open spec fn projected<S: Subplace>(p: Ptr<S::Source>, s: S) -> Ptr<S::Target> {
    ptr_of((p.addr + s.spec_offset(p.meta).0) as usize, s.spec_offset(p.meta).1)
}

/// The places `p` and `q` point at share no byte.
pub open spec fn places_disjoint<T, U>(p: Ptr<T>, q: Ptr<U>) -> bool {
    ||| p.addr + vstd::layout::size_of::<T>() <= q.addr
    ||| q.addr + vstd::layout::size_of::<U>() <= p.addr
}

/// Two memories that agree on `[addr, addr + len)` agree on whether it is
/// allocated or initialized there.
proof fn lemma_same_range(m1: Seq<Byte>, m2: Seq<Byte>, addr: int, len: int)
    requires
        m1.len() == m2.len(),
        forall|i: int| addr <= i < addr + len ==> #[trigger] m2[i] == m1[i],
    ensures
        range_init(m1, addr, len) == range_init(m2, addr, len),
        range_allocated(m1, addr, len) == range_allocated(m2, addr, len),
{
    if range_init(m1, addr, len) {
        assert forall|i: int| addr <= i < addr + len implies #[trigger] m2[i] is Init by {
            assert(m1[i] is Init);
        }
    }
    if range_init(m2, addr, len) {
        assert forall|i: int| addr <= i < addr + len implies #[trigger] m1[i] is Init by {
            assert(m2[i] is Init);
        }
    }
    if range_allocated(m1, addr, len) {
        assert forall|i: int| addr <= i < addr + len implies !(#[trigger] m2[i] is Unallocated) by {
            assert(!(m1[i] is Unallocated));
        }
    }
    if range_allocated(m2, addr, len) {
        assert forall|i: int| addr <= i < addr + len implies !(#[trigger] m1[i] is Unallocated) by {
            assert(!(m2[i] is Unallocated));
        }
    }
}

/// What a write stores in a place, a read of that place gives back.
pub proof fn lemma_read_after_write<T>(p: Ptr<T>, m: Seq<Byte>, value: Seq<u8>)
    requires
        place_writable(p, m, value),
    ensures
        place_readable(p, place_written(p, m, value)),
        place_value(p, place_written(p, m, value)) == value,
        place_allocated(p, place_written(p, m, value)),
{
    lemma_read_stored(m, p.addr as int, value);
}

/// Writing a place leaves every disjoint place as it was: operations on
/// disjoint subplaces do not interfere.
pub proof fn lemma_write_disjoint<T, U>(p: Ptr<T>, q: Ptr<U>, m: Seq<Byte>, value: Seq<u8>)
    requires
        place_writable(p, m, value),
        places_disjoint(p, q),
        in_bounds(m, q.addr as int, vstd::layout::size_of::<U>() as int),
    ensures
        place_readable(q, place_written(p, m, value)) == place_readable(q, m),
        place_allocated(q, place_written(p, m, value)) == place_allocated(q, m),
        place_value(q, place_written(p, m, value)) == place_value(q, m),
{
    let m2 = place_written(p, m, value);
    let lo = q.addr as int;
    let hi = q.addr + vstd::layout::size_of::<U>();
    assert forall|i: int| lo <= i < hi implies #[trigger] m2[i] == m[i] by {}
    lemma_same_range(m, m2, lo, hi - lo);
    assert(place_value(q, m2) =~= place_value(q, m));
}

/// Dropping the value in a place leaves the place allocated but without a
/// value, so it can be written again and cannot be read until then.
pub proof fn lemma_drop_then_write<T>(p: Ptr<T>, m: Seq<Byte>, value: Seq<u8>)
    requires
        place_allocated(p, m),
        value.len() == vstd::layout::size_of::<T>(),
    ensures
        place_writable(p, place_dropped(p, m), value),
        vstd::layout::size_of::<T>() > 0 ==> !place_readable(p, place_dropped(p, m)),
{
    let m2 = place_dropped(p, m);
    if vstd::layout::size_of::<T>() > 0 {
        assert(!(m2[p.addr as int] is Init));
    }
}

/// Dropping the value in a place leaves every disjoint place as it was.
pub proof fn lemma_drop_disjoint<T, U>(p: Ptr<T>, q: Ptr<U>, m: Seq<Byte>)
    requires
        place_allocated(p, m),
        places_disjoint(p, q),
        in_bounds(m, q.addr as int, vstd::layout::size_of::<U>() as int),
    ensures
        place_readable(q, place_dropped(p, m)) == place_readable(q, m),
        place_value(q, place_dropped(p, m)) == place_value(q, m),
{
    let m2 = place_dropped(p, m);
    let lo = q.addr as int;
    let hi = q.addr + vstd::layout::size_of::<U>();
    assert forall|i: int| lo <= i < hi implies #[trigger] m2[i] == m[i] by {}
    lemma_same_range(m, m2, lo, hi - lo);
    assert(place_value(q, m2) =~= place_value(q, m));
}

/// A place of non-zero size that is allocated in a memory whose null byte is
/// unallocated is not at the null address.
pub proof fn lemma_allocated_place_not_null<T>(p: Ptr<T>, m: Seq<Byte>)
    requires
        null_unallocated(m),
        place_allocated(p, m),
        vstd::layout::size_of::<T>() > 0,
    ensures
        p.addr != 0,
{
    if p.addr == 0 {
        assert(!(m[p.addr as int] is Unallocated));
    }
}

/// Projecting twice lands at the sum of the two offsets, with the metadata the
/// second subplace gives.
pub proof fn lemma_project_twice<S1: Subplace, S2: Subplace<Source = S1::Target>>(
    p: Ptr<S1::Source>,
    s1: S1,
    s2: S2,
)
    requires
        projectable(p, s1),
        projectable(projected(p, s1), s2),
    ensures
        ({
            let (off1, meta1) = s1.spec_offset(p.meta);
            let (off2, meta2) = s2.spec_offset(meta1);
            projected(projected(p, s1), s2) == ptr_of::<S2::Target>(
                (p.addr + off1 + off2) as usize,
                meta2,
            )
        }),
{
}

/// The value of a subplace lying inside a place is the matching part of the
/// place's value.
pub proof fn lemma_read_subplace<A, B, S: Subplace<Source = A, Target = B>>(
    p: Ptr<A>,
    s: S,
    m: Seq<Byte>,
)
    requires
        projectable(p, s),
        place_readable(p, m),
        s.spec_offset(p.meta).0 + vstd::layout::size_of::<B>() <= vstd::layout::size_of::<A>(),
    ensures
        place_readable(projected(p, s), m),
        place_value(projected(p, s), m) == place_value(p, m).subrange(
            s.spec_offset(p.meta).0 as int,
            s.spec_offset(p.meta).0 + vstd::layout::size_of::<B>(),
        ),
{
    let off = s.spec_offset(p.meta).0 as int;
    let q = projected(p, s);
    assert(place_value(q, m) =~= place_value(p, m).subrange(
        off,
        off + vstd::layout::size_of::<B>(),
    ));
}

impl<T: ?Sized> PlaceHandle for Ptr<T> {
    type Target = T;
}

impl<T: ?Sized> PlaceProxy for Ptr<T> {
    type Target = T;
}

impl<T: ?Sized + Pointee> CreateHandle<Instant> for Ptr<T> {
    type Handle = Ptr<T>;

    const ACCESS: AccessKind = AccessKind::Untracked;

    open spec fn handle_requires(this: Ptr<Self>, mem: Seq<Byte>) -> bool {
        ptr_loadable::<T>(mem, this.addr as int)
    }

    open spec fn spec_handle(this: Ptr<Self>, mem: Seq<Byte>) -> Ptr<T> {
        ptr_loaded::<T>(mem, this.addr as int)
    }

    /// The pointer stored at `this`.
    fn handle_from_raw(this: Ptr<Self>, mem: &Memory) -> (h: Ptr<T>) {
        Ptr::load(mem, this.addr)
    }
}

impl<T> ReadPlace for Ptr<T> {
    const ACCESS: AccessKind = AccessKind::Untracked;
    const SAFE: bool = false;

    open spec fn read_requires(&self, mem: Seq<Byte>) -> bool {
        place_readable(*self, mem)
    }

    open spec fn spec_read(&self, mem: Seq<Byte>) -> Seq<u8> {
        place_value(*self, mem)
    }

    fn read_place(self, mem: &Memory) -> (value: Vec<u8>) {
        mem.read(self.addr, core::mem::size_of::<T>())
    }
}

impl<T> MovePlace for Ptr<T> {
}

impl<T> WritePlace for Ptr<T> {
    const ACCESS: AccessKind = AccessKind::Untracked;
    const SAFE: bool = false;

    open spec fn write_requires(&self, mem: Seq<Byte>, value: Seq<u8>) -> bool {
        place_writable(*self, mem, value)
    }

    open spec fn spec_write(&self, mem: Seq<Byte>, value: Seq<u8>) -> Seq<Byte> {
        place_written(*self, mem, value)
    }

    fn write_place(self, mem: &mut Memory, value: &[u8]) {
        mem.write(self.addr, value);
    }
}

impl<T> DropPlace for Ptr<T> {
    open spec fn drop_requires(&self, mem: Seq<Byte>) -> bool {
        place_allocated(*self, mem)
    }

    open spec fn spec_drop(&self, mem: Seq<Byte>) -> Seq<Byte> {
        place_dropped(*self, mem)
    }

    fn drop_place(self, mem: &mut Memory) {
        mem.uninit(self.addr, core::mem::size_of::<T>());
    }
}

/// A raw pointer owns nothing, so nothing is left to destroy.
impl<T> DropHusk for Ptr<T> {
    open spec fn husk_requires(this: Ptr<Self>, mem: Seq<Byte>) -> bool {
        true
    }

    open spec fn spec_drop_husk(this: Ptr<Self>, mem: Seq<Byte>) -> Seq<Byte> {
        mem
    }

    fn drop_husk(this: Ptr<Self>, mem: &mut Memory) {
    }
}

impl<T: ?Sized> ReadMetadata for Ptr<T> {
    open spec fn spec_metadata(&self) -> Metadata {
        self.meta
    }

    fn metadata(self) -> (m: Metadata) {
        self.meta
    }
}

impl<S: Subplace> ProjectPlace<S> for Ptr<S::Source> {
    type Projected = Ptr<S::Target>;

    open spec fn project_requires(&self, subplace: S) -> bool {
        projectable(*self, subplace)
    }

    open spec fn spec_project(&self, subplace: S) -> Ptr<S::Target> {
        projected(*self, subplace)
    }

    /// Adds the subplace's offset to the address and takes the subplace's metadata.
    fn project_place(self, subplace: S) -> (h: Ptr<S::Target>) {
        let meta = self.metadata();
        let (offset, meta) = subplace.offset(meta);
        Ptr::from_raw_parts(self.addr + offset, meta)
    }
}

impl<PT: Timing, P: ?Sized + CreateHandle<PT>> DerefPlace<PT, Instant> for Ptr<P> {
    const POINTEE_ACCESS: AccessKind = P::ACCESS;
    const POINTER_ACCESS: AccessKind = AccessKind::Untracked;
    const SAFE: bool = false;

    open spec fn deref_requires(&self, mem: Seq<Byte>) -> bool {
        P::handle_requires(*self, mem)
    }

    open spec fn spec_deref(&self, mem: Seq<Byte>) -> P::Handle {
        P::spec_handle(*self, mem)
    }

    fn deref_place(self, mem: &Memory) -> (h: P::Handle) {
        P::handle_from_raw(self, mem)
    }
}

/// Projecting a raw pointer moves its address by the subplace's offset and
/// takes the subplace's metadata.
pub proof fn lemma_ptr_project<S: Subplace>(p: Ptr<S::Source>, s: S)
    requires
        s.offset_requires(p.meta),
        p.addr + s.spec_offset(p.meta).0 <= usize::MAX,
    ensures
        <Ptr<S::Source> as ProjectPlace<S>>::project_requires(&p, s),
        <Ptr<S::Source> as ProjectPlace<S>>::spec_project(&p, s).addr == p.addr + s.spec_offset(
            p.meta,
        ).0,
        <Ptr<S::Source> as ProjectPlace<S>>::spec_project(&p, s).meta == s.spec_offset(p.meta).1,
{
}

/// Through a raw pointer, a read gives the bytes of the place, a write stores
/// the value's bytes there, and a drop leaves them allocated but
/// uninitialized; every other byte is left as it was. Its husk owns nothing:
/// destroying it changes no memory.
pub proof fn lemma_ptr_place<T>(p: Ptr<T>, this: Ptr<Ptr<T>>, m: Seq<Byte>, value: Seq<u8>)
    ensures
        p.read_requires(m) ==> p.spec_read(m).len() == vstd::layout::size_of::<T>(),
        p.read_requires(m) ==> forall|i: int|
            0 <= i < vstd::layout::size_of::<T>() ==> #[trigger] p.spec_read(m)[i]
                == crate::memory::byte_value(m[p.addr + i]),
        p.write_requires(m, value) ==> p.spec_write(m, value).len() == m.len(),
        p.write_requires(m, value) ==> forall|i: int|
            0 <= i < value.len() ==> #[trigger] p.spec_write(m, value)[p.addr + i] == Byte::Init(
                value[i],
            ),
        p.write_requires(m, value) ==> forall|i: int|
            0 <= i < m.len() && !(p.addr <= i < p.addr + value.len()) ==> #[trigger] p.spec_write(
                m,
                value,
            )[i] == m[i],
        p.drop_requires(m) ==> p.spec_drop(m).len() == m.len(),
        p.drop_requires(m) ==> forall|i: int|
            p.addr <= i < p.addr + vstd::layout::size_of::<T>() ==> #[trigger] p.spec_drop(m)[i]
                == Byte::Uninit,
        p.drop_requires(m) ==> forall|i: int|
            0 <= i < m.len() && !(p.addr <= i < p.addr + vstd::layout::size_of::<T>())
                ==> #[trigger] p.spec_drop(m)[i] == m[i],
        <Ptr<T> as DropHusk>::spec_drop_husk(this, m) == m,
{
    if p.write_requires(m, value) {
        assert forall|i: int|
            0 <= i < value.len() implies #[trigger] p.spec_write(m, value)[p.addr + i]
            == Byte::Init(value[i]) by {}
    }
}

/// The handle of a raw pointer stored in memory is the pointer stored.
pub proof fn lemma_ptr_handle_stored<T: ?Sized + Pointee>(m: Seq<Byte>, at: usize, target: Ptr<T>)
    requires
        in_bounds(m, at as int, crate::ptr::stored_ptr_len::<T>()),
        crate::ptr::meta_fits::<T>(target.meta),
    ensures
        ({
            let this = ptr_of::<Ptr<T>>(at, Metadata::Thin);
            let m2 = stored(m, at as int, crate::ptr::ptr_bytes(target));
            &&& <Ptr<T> as CreateHandle<Instant>>::handle_requires(this, m2)
            &&& <Ptr<T> as CreateHandle<Instant>>::spec_handle(this, m2) == target
        }),
{
    crate::ptr::lemma_load_stored::<T>(m, at as int, target);
}

/// `*p` on a raw pointer to a proxy creates the handle of the proxy stored
/// where `p` points.
pub proof fn lemma_ptr_deref<PT: Timing, P: ?Sized + CreateHandle<PT>>(p: Ptr<P>, m: Seq<Byte>)
    ensures
        <Ptr<P> as DerefPlace<PT, Instant>>::deref_requires(&p, m) == P::handle_requires(p, m),
        <Ptr<P> as DerefPlace<PT, Instant>>::spec_deref(&p, m) == P::spec_handle(p, m),
{
}

} // verus!
