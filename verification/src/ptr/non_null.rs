//! Place operations on `NonNull<T>`: like raw pointers, but never null.
use vstd::prelude::*;
use crate::borrowck::{AccessKind, Instant, Lifetime};
use crate::memory::{Byte, Memory};
use crate::ops::{
    BorrowPlace,
    CreateHandle,
    PlaceHandle,
    PlaceProxy,
    ProjectPlace,
    ReadPlace,
    WritePlace,
};
use crate::ptr::{Pointee, Ptr, ptr_loadable, ptr_loaded};
use crate::ptr::raw::{
    place_readable,
    place_value,
    place_writable,
    place_written,
    projectable,
    projected,
};
use crate::reference::{SharedRef, UniqueRef};
use crate::subplace::Subplace;

verus! {

/// A pointer that is not null.
pub struct NonNull<T: ?Sized> {
    ptr: Ptr<T>,
}

impl<T: ?Sized> Clone for NonNull<T> {
    fn clone(&self) -> (p: Self)
        ensures
            p == *self,
    {
        NonNull { ptr: self.ptr }
    }
}

impl<T: ?Sized> Copy for NonNull<T> {
}

impl<T: ?Sized> NonNull<T> {
    /// The pointer.
    pub closed spec fn ptr(&self) -> Ptr<T> {
        self.ptr
    }

    /// The non-null pointer `p`.
    pub closed spec fn spec_from_ptr(p: Ptr<T>) -> Self {
        NonNull { ptr: p }
    }

    pub broadcast proof fn lemma_from_ptr(p: Ptr<T>)
        ensures
            (#[trigger] Self::spec_from_ptr(p)).ptr() == p,
    {
    }

    pub broadcast proof fn lemma_ext(p: Self)
        ensures
            Self::spec_from_ptr(#[trigger] p.ptr()) == p,
    {
    }

    /// `NonNull::new_unchecked`: `ptr`, which must not be null.
    pub fn new_unchecked(ptr: Ptr<T>) -> (p: Self)
        requires
            ptr.addr != 0,
        ensures
            p == Self::spec_from_ptr(ptr),
    {
        NonNull { ptr }
    }

    pub fn as_ptr(&self) -> (p: Ptr<T>)
        ensures
            p == self.ptr(),
    {
        self.ptr
    }
}

impl<T: ?Sized> PlaceProxy for NonNull<T> {
    type Target = T;
}

impl<T: ?Sized + Pointee> CreateHandle<Instant> for NonNull<T> {
    type Handle = NonNull<T>;

    const ACCESS: AccessKind = AccessKind::Untracked;

    open spec fn handle_requires(this: Ptr<Self>, mem: Seq<Byte>) -> bool {
        &&& ptr_loadable::<T>(mem, this.addr as int)
        &&& ptr_loaded::<T>(mem, this.addr as int).addr != 0
    }

    open spec fn spec_handle(this: Ptr<Self>, mem: Seq<Byte>) -> NonNull<T> {
        NonNull::spec_from_ptr(ptr_loaded::<T>(mem, this.addr as int))
    }

    /// The pointer stored at `this`.
    fn handle_from_raw(this: Ptr<Self>, mem: &Memory) -> (h: NonNull<T>) {
        NonNull { ptr: Ptr::load(mem, this.addr) }
    }
}

impl<T: ?Sized> PlaceHandle for NonNull<T> {
    type Target = T;
}

impl<S: Subplace> ProjectPlace<S> for NonNull<S::Source> {
    type Projected = NonNull<S::Target>;

    open spec fn project_requires(&self, subplace: S) -> bool {
        projectable(self.ptr(), subplace)
    }

    open spec fn spec_project(&self, subplace: S) -> NonNull<S::Target> {
        NonNull::spec_from_ptr(projected(self.ptr(), subplace))
    }

    fn project_place(self, subplace: S) -> (h: NonNull<S::Target>) {
        NonNull { ptr: self.ptr.project_place(subplace) }
    }
}

impl<'a, T: ?Sized> BorrowPlace<SharedRef<'a, T>> for NonNull<T> {
    const ACCESS: AccessKind = AccessKind::Shared;

    type Timing = Lifetime<'a>;

    const SAFE: bool = false;

    open spec fn borrow_requires(&self, mem: Seq<Byte>) -> bool {
        true
    }

    open spec fn spec_borrow(&self, mem: Seq<Byte>) -> (SharedRef<'a, T>, Seq<Byte>) {
        (SharedRef::spec_from_ptr(self.ptr()), mem)
    }

    fn borrow(self, mem: &mut Memory) -> (out: SharedRef<'a, T>) {
        SharedRef::from_raw(self.ptr)
    }
}

impl<'a, T: ?Sized> BorrowPlace<UniqueRef<'a, T>> for NonNull<T> {
    const ACCESS: AccessKind = AccessKind::Exclusive;

    type Timing = Lifetime<'a>;

    const SAFE: bool = false;

    open spec fn borrow_requires(&self, mem: Seq<Byte>) -> bool {
        true
    }

    open spec fn spec_borrow(&self, mem: Seq<Byte>) -> (UniqueRef<'a, T>, Seq<Byte>) {
        (UniqueRef::spec_from_ptr(self.ptr()), mem)
    }

    fn borrow(self, mem: &mut Memory) -> (out: UniqueRef<'a, T>) {
        UniqueRef::from_raw(self.ptr)
    }
}

/// `&raw const place` and `&raw mut place`.
impl<T: ?Sized> BorrowPlace<Ptr<T>> for NonNull<T> {
    const ACCESS: AccessKind = AccessKind::Untracked;

    type Timing = Instant;

    const SAFE: bool = true;

    open spec fn borrow_requires(&self, mem: Seq<Byte>) -> bool {
        true
    }

    open spec fn spec_borrow(&self, mem: Seq<Byte>) -> (Ptr<T>, Seq<Byte>) {
        (self.ptr(), mem)
    }

    fn borrow(self, mem: &mut Memory) -> (out: Ptr<T>) {
        self.ptr
    }
}

impl<T: ?Sized> BorrowPlace<NonNull<T>> for NonNull<T> {
    const ACCESS: AccessKind = AccessKind::Untracked;

    type Timing = Instant;

    const SAFE: bool = true;

    open spec fn borrow_requires(&self, mem: Seq<Byte>) -> bool {
        true
    }

    open spec fn spec_borrow(&self, mem: Seq<Byte>) -> (NonNull<T>, Seq<Byte>) {
        (*self, mem)
    }

    fn borrow(self, mem: &mut Memory) -> (out: NonNull<T>) {
        self
    }
}

impl<T> WritePlace for NonNull<T> {
    const ACCESS: AccessKind = AccessKind::Exclusive;
    const SAFE: bool = false;

    open spec fn write_requires(&self, mem: Seq<Byte>, value: Seq<u8>) -> bool {
        place_writable(self.ptr(), mem, value)
    }

    open spec fn spec_write(&self, mem: Seq<Byte>, value: Seq<u8>) -> Seq<Byte> {
        place_written(self.ptr(), mem, value)
    }

    fn write_place(self, mem: &mut Memory, value: &[u8]) {
        self.ptr.write_place(mem, value)
    }
}

impl<T> ReadPlace for NonNull<T> {
    const ACCESS: AccessKind = AccessKind::Exclusive;
    const SAFE: bool = false;

    open spec fn read_requires(&self, mem: Seq<Byte>) -> bool {
        place_readable(self.ptr(), mem)
    }

    open spec fn spec_read(&self, mem: Seq<Byte>) -> Seq<u8> {
        place_value(self.ptr(), mem)
    }

    fn read_place(self, mem: &Memory) -> (value: Vec<u8>) {
        self.ptr.read_place(mem)
    }
}

/// Projecting a non-null pointer moves its address by the subplace's offset
/// and takes the subplace's metadata.
pub proof fn lemma_non_null_project<S: Subplace>(p: NonNull<S::Source>, s: S)
    requires
        s.offset_requires(p.ptr().meta),
        p.ptr().addr + s.spec_offset(p.ptr().meta).0 <= usize::MAX,
    ensures
        p.project_requires(s),
        p.spec_project(s).ptr().addr == p.ptr().addr + s.spec_offset(p.ptr().meta).0,
        p.spec_project(s).ptr().meta == s.spec_offset(p.ptr().meta).1,
{
    NonNull::<S::Target>::lemma_from_ptr(projected(p.ptr(), s));
}

/// Through a non-null pointer, a read gives the bytes of the place and a
/// write stores the value's bytes there, leaving every other byte as it was.
pub proof fn lemma_non_null_place<T>(p: NonNull<T>, m: Seq<Byte>, value: Seq<u8>)
    ensures
        p.read_requires(m) ==> p.spec_read(m).len() == vstd::layout::size_of::<T>(),
        p.read_requires(m) ==> forall|i: int|
            0 <= i < vstd::layout::size_of::<T>() ==> #[trigger] p.spec_read(m)[i]
                == crate::memory::byte_value(m[p.ptr().addr + i]),
        p.write_requires(m, value) ==> p.spec_write(m, value).len() == m.len(),
        p.write_requires(m, value) ==> forall|i: int|
            0 <= i < value.len() ==> #[trigger] p.spec_write(m, value)[p.ptr().addr + i]
                == Byte::Init(value[i]),
        p.write_requires(m, value) ==> forall|i: int|
            0 <= i < m.len() && !(p.ptr().addr <= i < p.ptr().addr + value.len())
                ==> #[trigger] p.spec_write(m, value)[i] == m[i],
{
    if p.write_requires(m, value) {
        assert forall|i: int|
            0 <= i < value.len() implies #[trigger] p.spec_write(m, value)[p.ptr().addr + i]
            == Byte::Init(value[i]) by {}
    }
}

/// Borrowing the place of a non-null pointer, as a reference or a pointer,
/// points at that place and changes no memory.
pub proof fn lemma_non_null_borrow<'a, T: ?Sized + 'a>(p: NonNull<T>, m: Seq<Byte>)
    ensures
        <NonNull<T> as BorrowPlace<SharedRef<'a, T>>>::spec_borrow(&p, m).0.ptr() == p.ptr(),
        <NonNull<T> as BorrowPlace<SharedRef<'a, T>>>::spec_borrow(&p, m).1 == m,
        <NonNull<T> as BorrowPlace<UniqueRef<'a, T>>>::spec_borrow(&p, m).0.ptr() == p.ptr(),
        <NonNull<T> as BorrowPlace<UniqueRef<'a, T>>>::spec_borrow(&p, m).1 == m,
        <NonNull<T> as BorrowPlace<Ptr<T>>>::spec_borrow(&p, m) == (p.ptr(), m),
        <NonNull<T> as BorrowPlace<NonNull<T>>>::spec_borrow(&p, m).0.ptr() == p.ptr(),
        <NonNull<T> as BorrowPlace<NonNull<T>>>::spec_borrow(&p, m).1 == m,
{
    SharedRef::<'a, T>::lemma_from_ptr(p.ptr());
    UniqueRef::<'a, T>::lemma_from_ptr(p.ptr());
}

/// The handle of a non-null pointer stored in memory is the pointer stored.
pub proof fn lemma_non_null_handle_stored<T: ?Sized + Pointee>(
    m: Seq<Byte>,
    at: usize,
    target: Ptr<T>,
)
    requires
        crate::memory::in_bounds(m, at as int, crate::ptr::stored_ptr_len::<T>()),
        crate::ptr::meta_fits::<T>(target.meta),
        target.addr != 0,
    ensures
        ({
            let this = crate::ptr::ptr_of::<NonNull<T>>(at, crate::ptr::Metadata::Thin);
            let m2 = crate::memory::stored(m, at as int, crate::ptr::ptr_bytes(target));
            &&& <NonNull<T> as CreateHandle<Instant>>::handle_requires(this, m2)
            &&& <NonNull<T> as CreateHandle<Instant>>::spec_handle(this, m2).ptr() == target
        }),
{
    crate::ptr::lemma_load_stored::<T>(m, at as int, target);
    NonNull::<T>::lemma_from_ptr(target);
}

} // verus!
