//! `Arc<T>` of the memory model, its handle, and `ArcRef<T>`: a counted
//! reference into an `Arc` allocation that can point at any subplace of it.
//!
//! An `Arc` allocation at address `a` holds the strong count (an 8-byte word)
//! at `a`, the weak count at `a + 8`, and the data at `a + arc_data_offset`.
use vstd::prelude::*;
use crate::borrowck::{AccessKind, Instant, Lifetime, Timing, UntilDrop};
use crate::memory::{
    Byte,
    Memory,
    bytes_at,
    filled,
    range_allocated,
    range_init,
    stored,
    word_at,
};
use crate::ops::{
    BorrowPlace,
    CreateHandle,
    DerefPlace,
    PlaceHandle,
    PlaceProxy,
    ProjectPlace,
    ReadPlace,
};
use crate::ptr::{Layout, Metadata, Pointee, Ptr, ptr_of, ptr_loadable, ptr_loaded};
use crate::ptr::non_null::NonNull;
use crate::ptr::raw::{place_readable, place_value, projectable, projected};
use crate::reference::SharedRef;
use crate::subplace::Subplace;

verus! {

/// The header of an `Arc` allocation: the two reference counts.
pub struct ArcHead {
    pub strong: u64,
    pub weak: u64,
}

/// Offset of the data in an `Arc` allocation whose data has alignment `align`:
/// just past the two counts, or further to keep larger alignments.
pub open spec fn arc_data_offset(align: nat) -> int {
    if align <= 16 {
        16
    } else {
        align as int
    }
}

/// The strong count of the `Arc` allocation at `head`.
pub open spec fn strong_count(m: Seq<Byte>, head: int) -> u64 {
    word_at(m, head)
}

/// A count after an atomic increment.
pub open spec fn incremented(c: u64) -> u64 {
    if c == u64::MAX {
        0
    } else {
        (c + 1) as u64
    }
}

/// A count after an atomic decrement.
pub open spec fn decremented(c: u64) -> u64 {
    if c == 0 {
        u64::MAX
    } else {
        (c - 1) as u64
    }
}

/// Memory after the strong count at `head` is set to `c`.
pub open spec fn count_set(m: Seq<Byte>, head: int, c: u64) -> Seq<Byte> {
    stored(m, head, vstd::bytes::spec_u64_to_le_bytes(c))
}

/// The strong count at `head` can be changed.
pub open spec fn count_live(m: Seq<Byte>, head: int) -> bool {
    &&& range_init(m, head, 8)
    &&& range_allocated(m, head, 8)
}

/// Setting the count to what it already is changes nothing, and a second
/// setting overrides the first.
proof fn lemma_count_set(m: Seq<Byte>, head: int, c: u64)
    requires
        range_init(m, head, 8),
    ensures
        count_set(m, head, strong_count(m, head)) == m,
        count_set(count_set(m, head, c), head, strong_count(m, head)) == m,
        strong_count(count_set(m, head, c), head) == c,
        count_live(count_set(m, head, c), head) == count_live(m, head),
{
    vstd::bytes::lemma_auto_spec_u64_to_from_le_bytes();
    let b = bytes_at(m, head, 8);
    assert(vstd::bytes::spec_u64_to_le_bytes(vstd::bytes::spec_u64_from_le_bytes(b)) == b);
    assert(count_set(m, head, strong_count(m, head)) =~= m) by {
        assert forall|i: int| head <= i < head + 8 implies #[trigger] m[i] == Byte::Init(
            b[i - head],
        ) by {
            assert(m[i] is Init);
        }
    }
    let m1 = count_set(m, head, c);
    assert(count_set(m1, head, strong_count(m, head)) =~= count_set(m, head, strong_count(m, head)));
    crate::memory::lemma_read_stored(m, head, vstd::bytes::spec_u64_to_le_bytes(c));
    if count_live(m, head) {
        assert forall|i: int| head <= i < head + 8 implies !(#[trigger] m1[i] is Unallocated) by {}
    }
    if count_live(m1, head) {
        assert forall|i: int| head <= i < head + 8 implies !(#[trigger] m[i] is Unallocated) by {
            assert(m[i] is Init);
        }
    }
}

/// Atomically adds one to the strong count at `head`; returns the old count.
fn fetch_add_strong(mem: &mut Memory, head: usize) -> (old_count: u64)
    requires
        count_live(old(mem)@, head as int),
    ensures
        old_count == strong_count(old(mem)@, head as int),
        final(mem)@ == count_set(old(mem)@, head as int, incremented(old_count)),
{
    let old_count = mem.read_word(head);
    let new_count = if old_count == u64::MAX {
        0
    } else {
        old_count + 1
    };
    mem.write_word(head, new_count);
    old_count
}

/// Atomically subtracts one from the strong count at `head`; returns the old count.
fn fetch_sub_strong(mem: &mut Memory, head: usize) -> (old_count: u64)
    requires
        count_live(old(mem)@, head as int),
    ensures
        old_count == strong_count(old(mem)@, head as int),
        final(mem)@ == count_set(old(mem)@, head as int, decremented(old_count)),
{
    let old_count = mem.read_word(head);
    let new_count = if old_count == 0 {
        u64::MAX
    } else {
        old_count - 1
    };
    mem.write_word(head, new_count);
    old_count
}

/// An `Arc<T>`: a pointer to its allocation, carrying `T`'s metadata.
pub struct ArcPtr<T: ?Sized> {
    ptr: Ptr<T>,
}

/// Handle to the data of an `Arc` allocation.
pub struct ArcHandle<T: ?Sized>(Ptr<T>);

impl<T: ?Sized + Pointee> ArcHandle<T> {
    /// The pointer to the allocation, with the metadata of the data.
    pub closed spec fn inner(&self) -> Ptr<T> {
        self.0
    }

    /// The handle to the data of the allocation `p` points at.
    pub closed spec fn spec_from_ptr(p: Ptr<T>) -> Self {
        ArcHandle(p)
    }

    pub broadcast proof fn lemma_from_ptr(p: Ptr<T>)
        ensures
            (#[trigger] Self::spec_from_ptr(p)).inner() == p,
    {
    }

    /// The address of the data is representable.
    pub open spec fn data_fits(&self) -> bool {
        self.inner().addr + arc_data_offset(T::spec_align()) <= usize::MAX
    }

    /// The pointer to the data.
    pub open spec fn spec_data(&self) -> Ptr<T> {
        ptr_of((self.inner().addr + arc_data_offset(T::spec_align())) as usize, self.inner().meta)
    }

    /// The pointer to the data.
    fn data(&self) -> (p: Ptr<T>)
        requires
            self.data_fits(),
        ensures
            p == self.spec_data(),
    {
        let align = T::align();
        let offset: usize = if align <= 16 {
            16
        } else {
            align
        };
        self.0.byte_add(offset)
    }
}

impl<T: ?Sized> PlaceProxy for ArcPtr<T> {
    type Target = T;
}

impl<T: ?Sized + Pointee> CreateHandle<Instant> for ArcPtr<T> {
    type Handle = ArcHandle<T>;

    const ACCESS: AccessKind = AccessKind::Shared;

    open spec fn handle_requires(this: Ptr<Self>, mem: Seq<Byte>) -> bool {
        &&& ptr_loadable::<T>(mem, this.addr as int)
        &&& ptr_loaded::<T>(mem, this.addr as int).addr != 0
    }

    open spec fn spec_handle(this: Ptr<Self>, mem: Seq<Byte>) -> ArcHandle<T> {
        ArcHandle::spec_from_ptr(ptr_loaded::<T>(mem, this.addr as int))
    }

    /// The handle to the data of the `Arc` stored at `this`.
    fn handle_from_raw(this: Ptr<Self>, mem: &Memory) -> (h: ArcHandle<T>) {
        ArcHandle(Ptr::load(mem, this.addr))
    }
}

impl<T: ?Sized> PlaceHandle for ArcHandle<T> {
    type Target = T;
}

impl<'a, T: ?Sized + Pointee> BorrowPlace<SharedRef<'a, T>> for ArcHandle<T> {
    const ACCESS: AccessKind = AccessKind::Shared;

    type Timing = Lifetime<'a>;

    const SAFE: bool = true;

    open spec fn borrow_requires(&self, mem: Seq<Byte>) -> bool {
        self.data_fits()
    }

    open spec fn spec_borrow(&self, mem: Seq<Byte>) -> (SharedRef<'a, T>, Seq<Byte>) {
        (SharedRef::spec_from_ptr(self.spec_data()), mem)
    }

    fn borrow(self, mem: &mut Memory) -> (out: SharedRef<'a, T>) {
        SharedRef::from_raw(self.data())
    }
}

impl<T: ?Sized + Pointee> BorrowPlace<Ptr<T>> for ArcHandle<T> {
    const ACCESS: AccessKind = AccessKind::Shared;

    type Timing = Instant;

    const SAFE: bool = true;

    open spec fn borrow_requires(&self, mem: Seq<Byte>) -> bool {
        self.data_fits()
    }

    open spec fn spec_borrow(&self, mem: Seq<Byte>) -> (Ptr<T>, Seq<Byte>) {
        (self.spec_data(), mem)
    }

    fn borrow(self, mem: &mut Memory) -> (out: Ptr<T>) {
        self.data()
    }
}

impl<T: ?Sized + Pointee> BorrowPlace<NonNull<T>> for ArcHandle<T> {
    const ACCESS: AccessKind = AccessKind::Shared;

    type Timing = Instant;

    const SAFE: bool = true;

    open spec fn borrow_requires(&self, mem: Seq<Byte>) -> bool {
        self.data_fits()
    }

    open spec fn spec_borrow(&self, mem: Seq<Byte>) -> (NonNull<T>, Seq<Byte>) {
        (NonNull::spec_from_ptr(self.spec_data()), mem)
    }

    fn borrow(self, mem: &mut Memory) -> (out: NonNull<T>) {
        NonNull::new_unchecked(self.data())
    }
}

/// A counted reference into an `Arc` allocation: keeps the allocation alive
/// and points at some place inside its data.
pub struct ArcRef<T: ?Sized> {
    head: Ptr<ArcHead>,
    layout: Layout,
    data: NonNull<T>,
}

/// Handle to the place an `ArcRef` points at.
pub struct ArcRefHandle<T: ?Sized> {
    head: Ptr<ArcHead>,
    layout: Layout,
    data: NonNull<T>,
}

impl<T: ?Sized> ArcRef<T> {
    /// The header of the allocation.
    pub closed spec fn head(&self) -> Ptr<ArcHead> {
        self.head
    }

    /// The layout handed to the deallocation: that of the data, so that
    /// `layout.size` bytes from the header are freed.
    pub closed spec fn layout(&self) -> Layout {
        self.layout
    }

    /// The place pointed at.
    pub closed spec fn data(&self) -> Ptr<T> {
        self.data.ptr()
    }

    pub closed spec fn spec_new(head: Ptr<ArcHead>, layout: Layout, data: Ptr<T>) -> Self {
        ArcRef { head, layout, data: NonNull::spec_from_ptr(data) }
    }

    pub broadcast proof fn lemma_new(head: Ptr<ArcHead>, layout: Layout, data: Ptr<T>)
        ensures
            (#[trigger] Self::spec_new(head, layout, data)).head() == head,
            Self::spec_new(head, layout, data).layout() == layout,
            Self::spec_new(head, layout, data).data() == data,
    {
        NonNull::lemma_from_ptr(data);
    }

    /// Memory after dropping this reference: the strong count is decremented,
    /// and when this was the last reference, `layout().size` bytes from the
    /// header are freed (the layout is that of the data, not of the whole
    /// allocation, so the rest of the allocation stays allocated).
    pub open spec fn spec_dropped(&self, mem: Seq<Byte>) -> Seq<Byte> {
        let head = self.head().addr as int;
        let c = strong_count(mem, head);
        let m = count_set(mem, head, decremented(c));
        if c == 1 {
            filled(m, head, self.layout().size as int, Byte::Unallocated)
        } else {
            m
        }
    }

    /// `Drop`: gives up this reference. Returns whether it was the last one, in
    /// which case `layout().size` bytes from the header were freed.
    pub fn drop(self, mem: &mut Memory) -> (freed: bool)
        requires
            count_live(old(mem)@, self.head().addr as int),
            strong_count(old(mem)@, self.head().addr as int) == 1 ==> range_allocated(
                old(mem)@,
                self.head().addr as int,
                self.layout().size as int,
            ),
        ensures
            freed == (strong_count(old(mem)@, self.head().addr as int) == 1),
            final(mem)@ == self.spec_dropped(old(mem)@),
    {
        let old_count = fetch_sub_strong(mem, self.head.addr);
        if old_count == 1 {
            let layout = self.layout;
            mem.dealloc(self.head.addr, layout.size);
            true
        } else {
            false
        }
    }

    /// The handle to the place this reference points at.
    pub fn handle(&self) -> (h: ArcRefHandle<T>)
        ensures
            h == ArcRefHandle::spec_new(self.head(), self.layout(), self.data()),
    {
        proof {
            NonNull::lemma_ext(self.data);
        }
        ArcRefHandle { head: self.head, layout: self.layout, data: self.data }
    }
}

impl<T: ?Sized> ArcRefHandle<T> {
    /// The header of the allocation.
    pub closed spec fn head(&self) -> Ptr<ArcHead> {
        self.head
    }

    /// The layout handed to the deallocation: that of the data, so that
    /// `layout.size` bytes from the header are freed.
    pub closed spec fn layout(&self) -> Layout {
        self.layout
    }

    /// The handled place.
    pub closed spec fn data(&self) -> Ptr<T> {
        self.data.ptr()
    }

    pub closed spec fn spec_new(head: Ptr<ArcHead>, layout: Layout, data: Ptr<T>) -> Self {
        ArcRefHandle { head, layout, data: NonNull::spec_from_ptr(data) }
    }

    pub broadcast proof fn lemma_new(head: Ptr<ArcHead>, layout: Layout, data: Ptr<T>)
        ensures
            (#[trigger] Self::spec_new(head, layout, data)).head() == head,
            Self::spec_new(head, layout, data).layout() == layout,
            Self::spec_new(head, layout, data).data() == data,
    {
        NonNull::lemma_from_ptr(data);
    }
}

pub broadcast group group_arc_lemmas {
    ArcHandle::lemma_from_ptr,
    ArcRef::lemma_new,
    ArcRefHandle::lemma_new,
}

impl<T: ?Sized> PlaceProxy for ArcRef<T> {
    type Target = T;
}

/// A new counted reference to the data of an `Arc`, made from its handle:
/// the strong count must not be zero.
impl<T: ?Sized + Pointee> BorrowPlace<ArcRef<T>> for ArcHandle<T> {
    const ACCESS: AccessKind = AccessKind::Shared;

    type Timing = Instant;

    const SAFE: bool = true;

    open spec fn borrow_requires(&self, mem: Seq<Byte>) -> bool {
        &&& self.data_fits()
        &&& 0 <= T::spec_size(self.inner().meta) <= isize::MAX
        &&& count_live(mem, self.inner().addr as int)
        &&& strong_count(mem, self.inner().addr as int) != 0
    }

    open spec fn spec_borrow(&self, mem: Seq<Byte>) -> (ArcRef<T>, Seq<Byte>) {
        let head = self.inner().addr as int;
        let layout = Layout {
            size: T::spec_size(self.inner().meta) as usize,
            align: T::spec_align() as usize,
        };
        (
            ArcRef::spec_new(ptr_of(self.inner().addr, Metadata::Thin), layout, self.spec_data()),
            count_set(mem, head, incremented(strong_count(mem, head))),
        )
    }

    fn borrow(self, mem: &mut Memory) -> (out: ArcRef<T>) {
        let data = self.data();
        let layout = T::layout_for(data.meta);
        let data = NonNull::new_unchecked(data);
        let head: Ptr<ArcHead> = self.0.cast();
        let old_count = fetch_add_strong(mem, head.addr);
        assert(old_count != 0);
        ArcRef { head, layout, data }
    }
}

/// Making a counted reference from an `Arc`'s handle and dropping it again
/// leaves memory as it was: the count, the data, and the allocation.
pub proof fn lemma_arc_borrow_then_drop<T: ?Sized + Pointee>(h: ArcHandle<T>, mem: Seq<Byte>)
    requires
        <ArcHandle<T> as BorrowPlace<ArcRef<T>>>::borrow_requires(&h, mem),
    ensures
        ({
            let (r, m1) = <ArcHandle<T> as BorrowPlace<ArcRef<T>>>::spec_borrow(&h, mem);
            &&& strong_count(m1, h.inner().addr as int) == incremented(strong_count(mem, h.inner().addr as int))
            &&& count_live(m1, r.head().addr as int)
            &&& strong_count(m1, r.head().addr as int) != 1
            &&& r.spec_dropped(m1) == mem
        }),
{
    broadcast use group_arc_lemmas;

    let head = h.inner().addr as int;
    let c = strong_count(mem, head);
    lemma_count_set(mem, head, incremented(c));
}

/// Making another counted reference from an `ArcRef`'s handle and dropping it
/// again leaves memory as it was: the count, the data, and the allocation.
pub proof fn lemma_arc_ref_borrow_then_drop<T: ?Sized>(h: ArcRefHandle<T>, mem: Seq<Byte>)
    requires
        <ArcRefHandle<T> as BorrowPlace<ArcRef<T>>>::borrow_requires(&h, mem),
    ensures
        ({
            let (r, m1) = <ArcRefHandle<T> as BorrowPlace<ArcRef<T>>>::spec_borrow(&h, mem);
            &&& strong_count(m1, h.head().addr as int) == incremented(strong_count(mem, h.head().addr as int))
            &&& r.head() == h.head()
            &&& r.layout() == h.layout()
            &&& r.data() == h.data()
            &&& count_live(m1, r.head().addr as int)
            &&& r.spec_dropped(m1) == mem
        }),
{
    broadcast use group_arc_lemmas;

    let head = h.head().addr as int;
    let c = strong_count(mem, head);
    lemma_count_set(mem, head, incremented(c));
}

/// Dropping the last counted reference frees the `layout().size` bytes from
/// the header.
pub proof fn lemma_last_ref_frees<T: ?Sized>(r: ArcRef<T>, mem: Seq<Byte>)
    requires
        count_live(mem, r.head().addr as int),
        strong_count(mem, r.head().addr as int) == 1,
        range_allocated(mem, r.head().addr as int, r.layout().size as int),
    ensures
        forall|i: int|
            r.head().addr <= i < r.head().addr + r.layout().size ==> (#[trigger] r.spec_dropped(
                mem,
            )[i]) is Unallocated,
{
}

impl<T: ?Sized> PlaceHandle for ArcRefHandle<T> {
    type Target = T;
}

impl<T> ReadPlace for ArcRefHandle<T> {
    const ACCESS: AccessKind = AccessKind::Shared;
    const SAFE: bool = true;

    open spec fn read_requires(&self, mem: Seq<Byte>) -> bool {
        place_readable(self.data(), mem)
    }

    open spec fn spec_read(&self, mem: Seq<Byte>) -> Seq<u8> {
        place_value(self.data(), mem)
    }

    fn read_place(self, mem: &Memory) -> (value: Vec<u8>) {
        self.data.as_ptr().read_place(mem)
    }
}

impl<S: Subplace> ProjectPlace<S> for ArcRefHandle<S::Source> {
    type Projected = ArcRefHandle<S::Target>;

    open spec fn project_requires(&self, subplace: S) -> bool {
        projectable(self.data(), subplace)
    }

    /// The same allocation, pointing at the subplace.
    open spec fn spec_project(&self, subplace: S) -> ArcRefHandle<S::Target> {
        ArcRefHandle::spec_new(self.head(), self.layout(), projected(self.data(), subplace))
    }

    fn project_place(self, subplace: S) -> (h: ArcRefHandle<S::Target>) {
        let ArcRefHandle { head, layout, data } = self;
        ArcRefHandle { head, layout, data: data.project_place(subplace) }
    }
}

/// Another counted reference: the strong count must not be zero.
impl<T: ?Sized> BorrowPlace<ArcRef<T>> for ArcRefHandle<T> {
    const ACCESS: AccessKind = AccessKind::Shared;

    type Timing = Instant;

    const SAFE: bool = true;

    open spec fn borrow_requires(&self, mem: Seq<Byte>) -> bool {
        &&& count_live(mem, self.head().addr as int)
        &&& strong_count(mem, self.head().addr as int) != 0
    }

    open spec fn spec_borrow(&self, mem: Seq<Byte>) -> (ArcRef<T>, Seq<Byte>) {
        let head = self.head().addr as int;
        (
            ArcRef::spec_new(self.head(), self.layout(), self.data()),
            count_set(mem, head, incremented(strong_count(mem, head))),
        )
    }

    fn borrow(self, mem: &mut Memory) -> (out: ArcRef<T>) {
        let ArcRefHandle { head, layout, data } = self;
        proof {
            NonNull::lemma_ext(data);
        }
        let old_count = fetch_add_strong(mem, head.addr);
        assert(old_count != 0);
        ArcRef { head, layout, data }
    }
}

impl<T: ?Sized> BorrowPlace<Ptr<T>> for ArcRefHandle<T> {
    const ACCESS: AccessKind = AccessKind::Shared;

    type Timing = Instant;

    const SAFE: bool = true;

    open spec fn borrow_requires(&self, mem: Seq<Byte>) -> bool {
        true
    }

    open spec fn spec_borrow(&self, mem: Seq<Byte>) -> (Ptr<T>, Seq<Byte>) {
        (self.data(), mem)
    }

    fn borrow(self, mem: &mut Memory) -> (out: Ptr<T>) {
        self.data.as_ptr()
    }
}

impl<T: ?Sized> BorrowPlace<NonNull<T>> for ArcRefHandle<T> {
    const ACCESS: AccessKind = AccessKind::Shared;

    type Timing = Instant;

    const SAFE: bool = true;

    open spec fn borrow_requires(&self, mem: Seq<Byte>) -> bool {
        true
    }

    open spec fn spec_borrow(&self, mem: Seq<Byte>) -> (NonNull<T>, Seq<Byte>) {
        (NonNull::spec_from_ptr(self.data()), mem)
    }

    fn borrow(self, mem: &mut Memory) -> (out: NonNull<T>) {
        proof {
            NonNull::lemma_ext(self.data);
        }
        self.data
    }
}

impl<'a, T: ?Sized> BorrowPlace<SharedRef<'a, T>> for ArcRefHandle<T> {
    const ACCESS: AccessKind = AccessKind::Shared;

    type Timing = Lifetime<'a>;

    const SAFE: bool = true;

    open spec fn borrow_requires(&self, mem: Seq<Byte>) -> bool {
        true
    }

    open spec fn spec_borrow(&self, mem: Seq<Byte>) -> (SharedRef<'a, T>, Seq<Byte>) {
        (SharedRef::spec_from_ptr(self.data()), mem)
    }

    fn borrow(self, mem: &mut Memory) -> (out: SharedRef<'a, T>) {
        SharedRef::from_raw(self.data.as_ptr())
    }
}

/// `*place` on an `ArcRef` place: the pointer stays usable until the `ArcRef`
/// is dropped.
impl<PT: Timing, P: ?Sized + CreateHandle<PT>> DerefPlace<PT, UntilDrop> for ArcRefHandle<P> {
    const POINTEE_ACCESS: AccessKind = P::ACCESS;
    const POINTER_ACCESS: AccessKind = AccessKind::Shared;
    const SAFE: bool = true;

    open spec fn deref_requires(&self, mem: Seq<Byte>) -> bool {
        P::handle_requires(self.data(), mem)
    }

    open spec fn spec_deref(&self, mem: Seq<Byte>) -> P::Handle {
        P::spec_handle(self.data(), mem)
    }

    fn deref_place(self, mem: &Memory) -> (h: P::Handle) {
        P::handle_from_raw(self.data.as_ptr(), mem)
    }
}

/// A counted reference made from an `Arc`'s handle refers to the allocation's
/// header, carries the layout of the data, points at the data, and takes one
/// more strong count; no other byte changes.
pub proof fn lemma_arc_borrow_ref<T: ?Sized + Pointee>(h: ArcHandle<T>, mem: Seq<Byte>)
    requires
        <ArcHandle<T> as BorrowPlace<ArcRef<T>>>::borrow_requires(&h, mem),
    ensures
        ({
            let (r, m1) = <ArcHandle<T> as BorrowPlace<ArcRef<T>>>::spec_borrow(&h, mem);
            let head = h.inner().addr as int;
            &&& r.head().addr == h.inner().addr
            &&& r.layout().size == T::spec_size(h.inner().meta)
            &&& r.layout().align == T::spec_align()
            &&& r.data().addr == h.inner().addr + arc_data_offset(T::spec_align())
            &&& r.data().meta == h.inner().meta
            &&& strong_count(m1, head) == incremented(strong_count(mem, head))
            &&& m1.len() == mem.len()
            &&& forall|i: int|
                0 <= i < mem.len() && !(head <= i < head + 8) ==> #[trigger] m1[i] == mem[i]
        }),
{
    broadcast use group_arc_lemmas;

    let head = h.inner().addr as int;
    vstd::bytes::lemma_auto_spec_u64_to_from_le_bytes();
    lemma_count_set(mem, head, incremented(strong_count(mem, head)));
}

/// Another counted reference made from an `ArcRef`'s handle has the handle's
/// header, layout and place, and takes one more strong count; no other byte
/// changes. When it is the last reference, dropping it frees the
/// `layout().size` bytes from the header that the handle's reference would.
pub proof fn lemma_arc_ref_borrow_ref<T: ?Sized>(h: ArcRefHandle<T>, mem: Seq<Byte>)
    requires
        <ArcRefHandle<T> as BorrowPlace<ArcRef<T>>>::borrow_requires(&h, mem),
    ensures
        ({
            let (r, m1) = <ArcRefHandle<T> as BorrowPlace<ArcRef<T>>>::spec_borrow(&h, mem);
            let head = h.head().addr as int;
            &&& r.head() == h.head()
            &&& r.layout() == h.layout()
            &&& r.data() == h.data()
            &&& strong_count(m1, head) == incremented(strong_count(mem, head))
            &&& m1.len() == mem.len()
            &&& forall|i: int|
                0 <= i < mem.len() && !(head <= i < head + 8) ==> #[trigger] m1[i] == mem[i]
        }),
        forall|m: Seq<Byte>|
            count_live(m, h.head().addr as int) && strong_count(m, h.head().addr as int) == 1
                ==> forall|i: int|
                h.head().addr <= i < h.head().addr + h.layout().size && i < m.len() ==> (
                #[trigger] <ArcRefHandle<T> as BorrowPlace<ArcRef<T>>>::spec_borrow(
                    &h,
                    mem,
                ).0.spec_dropped(m)[i]) is Unallocated,
{
    broadcast use group_arc_lemmas;

    let head = h.head().addr as int;
    vstd::bytes::lemma_auto_spec_u64_to_from_le_bytes();
    lemma_count_set(mem, head, incremented(strong_count(mem, head)));
}

/// Borrowing the data of an `Arc` through its handle, as a pointer, a non-null
/// pointer or a shared reference, points at the data, past the counts, with
/// the data's metadata, and changes no memory.
pub proof fn lemma_arc_borrow_data<'a, T: ?Sized + Pointee + 'a>(h: ArcHandle<T>, mem: Seq<Byte>)
    requires
        h.data_fits(),
    ensures
        h.spec_data().addr == h.inner().addr + arc_data_offset(T::spec_align()),
        h.spec_data().meta == h.inner().meta,
        <ArcHandle<T> as BorrowPlace<Ptr<T>>>::spec_borrow(&h, mem) == (h.spec_data(), mem),
        <ArcHandle<T> as BorrowPlace<NonNull<T>>>::spec_borrow(&h, mem).0.ptr() == h.spec_data(),
        <ArcHandle<T> as BorrowPlace<NonNull<T>>>::spec_borrow(&h, mem).1 == mem,
        <ArcHandle<T> as BorrowPlace<SharedRef<'a, T>>>::spec_borrow(&h, mem).0.ptr()
            == h.spec_data(),
        <ArcHandle<T> as BorrowPlace<SharedRef<'a, T>>>::spec_borrow(&h, mem).1 == mem,
{
    NonNull::lemma_from_ptr(h.spec_data());
    SharedRef::<'a, T>::lemma_from_ptr(h.spec_data());
}

/// Borrowing the place of an `ArcRef` handle, as a pointer, a non-null pointer
/// or a shared reference, points at that place and changes no memory.
pub proof fn lemma_arc_ref_borrow_data<'a, T: ?Sized + 'a>(h: ArcRefHandle<T>, mem: Seq<Byte>)
    ensures
        <ArcRefHandle<T> as BorrowPlace<Ptr<T>>>::spec_borrow(&h, mem) == (h.data(), mem),
        <ArcRefHandle<T> as BorrowPlace<NonNull<T>>>::spec_borrow(&h, mem).0.ptr() == h.data(),
        <ArcRefHandle<T> as BorrowPlace<NonNull<T>>>::spec_borrow(&h, mem).1 == mem,
        <ArcRefHandle<T> as BorrowPlace<SharedRef<'a, T>>>::spec_borrow(&h, mem).0.ptr()
            == h.data(),
        <ArcRefHandle<T> as BorrowPlace<SharedRef<'a, T>>>::spec_borrow(&h, mem).1 == mem,
{
    NonNull::lemma_from_ptr(h.data());
    SharedRef::<'a, T>::lemma_from_ptr(h.data());
}

/// Reading through an `ArcRef` handle gives the bytes of the place it points at.
pub proof fn lemma_arc_ref_read<T>(h: ArcRefHandle<T>, mem: Seq<Byte>)
    requires
        h.read_requires(mem),
    ensures
        h.spec_read(mem).len() == vstd::layout::size_of::<T>(),
        forall|i: int|
            0 <= i < vstd::layout::size_of::<T>() ==> #[trigger] h.spec_read(mem)[i]
                == crate::memory::byte_value(mem[h.data().addr + i]),
{
}

/// Projecting an `ArcRef` handle keeps the allocation and its layout, and
/// moves the place by the subplace's offset, taking its metadata.
pub proof fn lemma_arc_ref_project<S: Subplace>(h: ArcRefHandle<S::Source>, s: S)
    requires
        s.offset_requires(h.data().meta),
        h.data().addr + s.spec_offset(h.data().meta).0 <= usize::MAX,
    ensures
        h.project_requires(s),
        h.spec_project(s).head() == h.head(),
        h.spec_project(s).layout() == h.layout(),
        h.spec_project(s).data().addr == h.data().addr + s.spec_offset(h.data().meta).0,
        h.spec_project(s).data().meta == s.spec_offset(h.data().meta).1,
{
    broadcast use group_arc_lemmas;

}

/// `*place` on an `ArcRef` place creates the handle of the proxy stored at the
/// place.
pub proof fn lemma_arc_ref_deref<PT: Timing, P: ?Sized + CreateHandle<PT>>(
    h: ArcRefHandle<P>,
    mem: Seq<Byte>,
)
    ensures
        <ArcRefHandle<P> as DerefPlace<PT, UntilDrop>>::deref_requires(&h, mem)
            == P::handle_requires(h.data(), mem),
        <ArcRefHandle<P> as DerefPlace<PT, UntilDrop>>::spec_deref(&h, mem) == P::spec_handle(
            h.data(),
            mem,
        ),
{
}

/// The handle of an `Arc` holding the pointer `target` to its allocation is
/// that pointer.
pub proof fn lemma_arc_handle_stored<T: ?Sized + Pointee>(m: Seq<Byte>, at: usize, target: Ptr<T>)
    requires
        crate::memory::in_bounds(m, at as int, crate::ptr::stored_ptr_len::<T>()),
        crate::ptr::meta_fits::<T>(target.meta),
        target.addr != 0,
    ensures
        ({
            let this = ptr_of::<ArcPtr<T>>(at, Metadata::Thin);
            let m2 = stored(m, at as int, crate::ptr::ptr_bytes(target));
            &&& <ArcPtr<T> as CreateHandle<Instant>>::handle_requires(this, m2)
            &&& <ArcPtr<T> as CreateHandle<Instant>>::spec_handle(this, m2).inner() == target
        }),
{
    broadcast use group_arc_lemmas;

    crate::ptr::lemma_load_stored::<T>(m, at as int, target);
}

} // verus!
