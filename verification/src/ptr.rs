//! Pointers of the memory model: an address and the pointer metadata, plus
//! the layout information that the place operations need.
pub mod non_null;
pub mod raw;
use vstd::prelude::*;
use crate::memory::{
    Byte,
    Memory,
    bytes_at,
    in_bounds,
    lemma_read_stored,
    range_allocated,
    range_init,
    stored,
    word_at,
};

verus! {

/// Pointer metadata: nothing for sized pointees, the length for slices.
#[derive(PartialEq, Eq, Structural, Clone, Copy, Debug)]
pub enum Metadata {
    /// The metadata `()` of a pointer to a sized type.
    Thin,
    /// The metadata of a pointer to a slice: its number of elements.
    Len(usize),
}

/// Size and alignment of an allocation.
#[derive(PartialEq, Eq, Structural, Clone, Copy, Debug)]
pub struct Layout {
    pub size: usize,
    pub align: usize,
}

/// Types that pointers can point at, with what their metadata means.
pub trait Pointee {
    /// Whether pointers to `Self` carry a length (slices) rather than nothing.
    spec fn spec_is_slice() -> bool;

    /// Size in bytes of a `Self` reached through a pointer with metadata `meta`.
    spec fn spec_size(meta: Metadata) -> int;

    /// Alignment of `Self`.
    spec fn spec_align() -> nat;

    fn is_slice() -> (b: bool)
        ensures
            b == Self::spec_is_slice(),
    ;

    fn align() -> (a: usize)
        ensures
            a == Self::spec_align(),
    ;

    /// The layout of a `Self` reached through a pointer with metadata `meta`.
    fn layout_for(meta: Metadata) -> (l: Layout)
        requires
            0 <= Self::spec_size(meta) <= isize::MAX,
        ensures
            l.size == Self::spec_size(meta),
            l.align == Self::spec_align(),
    ;
}

impl<T> Pointee for T {
    open spec fn spec_is_slice() -> bool {
        false
    }

    open spec fn spec_size(meta: Metadata) -> int {
        vstd::layout::size_of::<T>() as int
    }

    open spec fn spec_align() -> nat {
        vstd::layout::align_of::<T>()
    }

    fn is_slice() -> (b: bool) {
        false
    }

    fn align() -> (a: usize) {
        core::mem::align_of::<T>()
    }

    fn layout_for(meta: Metadata) -> (l: Layout) {
        Layout { size: core::mem::size_of::<T>(), align: core::mem::align_of::<T>() }
    }
}

impl<T> Pointee for [T] {
    open spec fn spec_is_slice() -> bool {
        true
    }

    open spec fn spec_size(meta: Metadata) -> int {
        match meta {
            Metadata::Len(n) => n * vstd::layout::size_of::<T>(),
            Metadata::Thin => 0,
        }
    }

    open spec fn spec_align() -> nat {
        vstd::layout::align_of::<T>()
    }

    fn is_slice() -> (b: bool) {
        true
    }

    fn align() -> (a: usize) {
        core::mem::align_of::<T>()
    }

    fn layout_for(meta: Metadata) -> (l: Layout) {
        let size = match meta {
            Metadata::Len(n) => n * core::mem::size_of::<T>(),
            Metadata::Thin => 0,
        };
        Layout { size, align: core::mem::align_of::<T>() }
    }
}

/// `meta` is the right kind of metadata for pointers to `T`.
pub open spec fn meta_fits<T: ?Sized + Pointee>(meta: Metadata) -> bool {
    if T::spec_is_slice() {
        meta is Len
    } else {
        meta is Thin
    }
}

/// A pointer to a `T`: the model of `*const T` and `*mut T`.
pub struct Ptr<T: ?Sized> {
    pub addr: usize,
    pub meta: Metadata,
    pub pointee: core::marker::PhantomData<T>,
}

impl<T: ?Sized> Clone for Ptr<T> {
    fn clone(&self) -> (p: Self)
        ensures
            p == *self,
    {
        Ptr { addr: self.addr, meta: self.meta, pointee: core::marker::PhantomData }
    }
}

impl<T: ?Sized> Copy for Ptr<T> {
}

/// The pointer with the given address and metadata.
pub open spec fn ptr_of<T: ?Sized>(addr: usize, meta: Metadata) -> Ptr<T> {
    Ptr { addr, meta, pointee: core::marker::PhantomData }
}

/// Number of bytes a stored pointer to `T` occupies: one word for the address,
/// and one more for the length of a slice.
pub open spec fn stored_ptr_len<T: ?Sized + Pointee>() -> int {
    if T::spec_is_slice() {
        16
    } else {
        8
    }
}

/// The bytes by which a pointer is stored in memory.
pub open spec fn ptr_bytes<T: ?Sized + Pointee>(p: Ptr<T>) -> Seq<u8> {
    let a = vstd::bytes::spec_u64_to_le_bytes(p.addr as u64);
    if T::spec_is_slice() {
        let n: usize = match p.meta {
            Metadata::Len(n) => n,
            Metadata::Thin => 0,
        };
        a + vstd::bytes::spec_u64_to_le_bytes(n as u64)
    } else {
        a
    }
}

/// A pointer to `T` is stored at `at` and fits the address space of this platform.
pub open spec fn ptr_loadable<T: ?Sized + Pointee>(m: Seq<Byte>, at: int) -> bool {
    &&& range_init(m, at, stored_ptr_len::<T>())
    &&& word_at(m, at) <= usize::MAX
    &&& T::spec_is_slice() ==> word_at(m, at + 8) <= usize::MAX
}

/// The pointer to `T` stored at `at`.
pub open spec fn ptr_loaded<T: ?Sized + Pointee>(m: Seq<Byte>, at: int) -> Ptr<T> {
    let meta = if T::spec_is_slice() {
        Metadata::Len(word_at(m, at + 8) as usize)
    } else {
        Metadata::Thin
    };
    ptr_of(word_at(m, at) as usize, meta)
}

/// A pointer stored in memory is loaded back unchanged.
pub proof fn lemma_load_stored<T: ?Sized + Pointee>(m: Seq<Byte>, at: int, p: Ptr<T>)
    requires
        in_bounds(m, at, stored_ptr_len::<T>()),
        meta_fits::<T>(p.meta),
    ensures
        ptr_loadable::<T>(stored(m, at, ptr_bytes(p)), at),
        ptr_loaded::<T>(stored(m, at, ptr_bytes(p)), at) == p,
{
    vstd::bytes::lemma_auto_spec_u64_to_from_le_bytes();
    let a = vstd::bytes::spec_u64_to_le_bytes(p.addr as u64);
    let s = ptr_bytes(p);
    let m2 = stored(m, at, s);
    lemma_read_stored(m, at, s);
    assert(bytes_at(m2, at, 8) =~= a);
    if T::spec_is_slice() {
        let n: usize = match p.meta {
            Metadata::Len(n) => n,
            Metadata::Thin => 0,
        };
        let b = vstd::bytes::spec_u64_to_le_bytes(n as u64);
        assert(bytes_at(m2, at + 8, 8) =~= b);
    }
}

impl<T: ?Sized> Ptr<T> {
    /// `ptr::from_raw_parts`: the pointer with this address and metadata.
    pub fn from_raw_parts(addr: usize, meta: Metadata) -> (p: Self)
        ensures
            p == ptr_of::<T>(addr, meta),
    {
        Ptr { addr, meta, pointee: core::marker::PhantomData }
    }

    /// The null pointer to a sized or empty place.
    pub fn null() -> (p: Self)
        ensures
            p == ptr_of::<T>(0, Metadata::Thin),
    {
        Ptr { addr: 0, meta: Metadata::Thin, pointee: core::marker::PhantomData }
    }

    pub fn is_null(&self) -> (b: bool)
        ensures
            b == (self.addr == 0),
    {
        self.addr == 0
    }

    /// The address as a plain integer.
    pub fn address(&self) -> (a: usize)
        ensures
            a == self.addr,
    {
        self.addr
    }

    /// `cast`: the same address, as a pointer to a sized `U`.
    pub fn cast<U>(self) -> (p: Ptr<U>)
        ensures
            p == ptr_of::<U>(self.addr, Metadata::Thin),
    {
        Ptr { addr: self.addr, meta: Metadata::Thin, pointee: core::marker::PhantomData }
    }

    /// `cast_mut` / `cast_const`: the same pointer.
    pub fn cast_mut(self) -> (p: Self)
        ensures
            p == self,
    {
        self
    }

    /// `byte_add`: the pointer `offset` bytes further, with the same metadata.
    pub fn byte_add(self, offset: usize) -> (p: Self)
        requires
            self.addr + offset <= usize::MAX,
        ensures
            p == ptr_of::<T>((self.addr + offset) as usize, self.meta),
    {
        Ptr { addr: self.addr + offset, meta: self.meta, pointee: core::marker::PhantomData }
    }
}

impl<T: ?Sized + Pointee> Ptr<T> {
    /// Reads the pointer to `T` stored at `at`.
    pub fn load(mem: &Memory, at: usize) -> (p: Self)
        requires
            ptr_loadable::<T>(mem@, at as int),
        ensures
            p == ptr_loaded::<T>(mem@, at as int),
    {
        let addr = mem.read_word(at) as usize;
        if T::is_slice() {
            let _len = mem.len();
            let n = mem.read_word(at + 8) as usize;
            Ptr { addr, meta: Metadata::Len(n), pointee: core::marker::PhantomData }
        } else {
            Ptr { addr, meta: Metadata::Thin, pointee: core::marker::PhantomData }
        }
    }

    /// Stores this pointer at `at`.
    pub fn store(self, mem: &mut Memory, at: usize)
        requires
            range_allocated(old(mem)@, at as int, stored_ptr_len::<T>()),
            meta_fits::<T>(self.meta),
        ensures
            final(mem)@ == stored(old(mem)@, at as int, ptr_bytes(self)),
            ptr_loadable::<T>(final(mem)@, at as int),
            ptr_loaded::<T>(final(mem)@, at as int) == self,
    {
        proof {
            vstd::bytes::lemma_auto_spec_u64_to_from_le_bytes();
        }
        let ghost m0 = mem@;
        mem.write_word(at, self.addr as u64);
        if T::is_slice() {
            let n: usize = match self.meta {
                Metadata::Len(n) => n,
                Metadata::Thin => 0,
            };
            let ghost m1 = mem@;
            let _len = mem.len();
            mem.write_word(at + 8, n as u64);
            proof {
                let a = vstd::bytes::spec_u64_to_le_bytes(self.addr as u64);
                let b = vstd::bytes::spec_u64_to_le_bytes(n as u64);
                assert(mem@ =~= stored(m0, at as int, a + b));
                assert(bytes_at(mem@, at as int, 8) =~= bytes_at(m1, at as int, 8));
            }
        }
    }
}

} // verus!
