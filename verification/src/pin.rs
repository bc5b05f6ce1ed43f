//! Pinning: `Pin<P>` of the memory model and the handle to a pinned place.
//!
//! A pinned handle offers the operations of the handle it wraps, except that a
//! value can only be read (moved) out of it when it is `Unpin`. Projecting a
//! pinned place gives a pinned subplace exactly when the subplace is
//! structurally pinned.
use vstd::prelude::*;
use crate::borrowck::{AccessKind, Timing};
use crate::memory::{Byte, Memory};
use crate::ops::{
    BorrowPlace,
    CreateHandle,
    DerefPlace,
    DropHusk,
    DropPlace,
    MovePlace,
    PlaceHandle,
    PlaceProxy,
    ProjectPlace,
    ReadMetadata,
    ReadPlace,
    WritePlace,
};
use crate::boxed::BoxPtr;
use crate::ptr::{Metadata, Pointee, Ptr, ptr_of, ptr_loaded};
use crate::ptr::raw::place_allocated;
use crate::reference::MutHandle;
use crate::subplace::{ArrayIndex, SliceIndex, Subplace};

verus! {

/// A pinned pointer `Pin<P>`.
pub struct PinPtr<P> {
    pointer: P,
}

impl<P> PinPtr<P> {
    /// The pinned pointer.
    pub closed spec fn pointer(&self) -> P {
        self.pointer
    }

    /// `p`, pinned.
    pub closed spec fn spec_new(p: P) -> Self {
        PinPtr { pointer: p }
    }

    pub broadcast proof fn lemma_new(p: P)
        ensures
            (#[trigger] Self::spec_new(p)).pointer() == p,
    {
    }

    /// The pinned pointer, given up.
    pub fn into_inner_unchecked(self) -> (p: P)
        ensures
            p == self.pointer(),
    {
        self.pointer
    }
}

/// Pins `t`; the caller vouches that its pointee is never moved again.
fn new_pin_unchecked<T>(t: T) -> (p: PinPtr<T>)
    ensures
        p == PinPtr::spec_new(t),
{
    PinPtr { pointer: t }
}

/// Handle to a pinned place, wrapping the handle `H` of the unpinned place.
pub struct PinnedHandle<H>(H);

impl<H> PinnedHandle<H> {
    /// The handle of the unpinned place.
    pub closed spec fn handle(&self) -> H {
        self.0
    }

    /// `handle`, pinned.
    pub closed spec fn spec_new(handle: H) -> Self {
        PinnedHandle(handle)
    }

    pub broadcast proof fn lemma_new(handle: H)
        ensures
            (#[trigger] Self::spec_new(handle)).handle() == handle,
    {
    }

    /// Pins the place `handle` handles; the caller vouches that it is pinned.
    pub fn new_unchecked(handle: H) -> (h: Self)
        ensures
            h == Self::spec_new(handle),
    {
        PinnedHandle(handle)
    }
}

pub broadcast group group_pin_lemmas {
    PinPtr::lemma_new,
    PinnedHandle::lemma_new,
}

impl<P: PlaceProxy> PlaceProxy for PinPtr<P> {
    type Target = P::Target;
}

/// `Pin<P>` stands for the place `P` stands for, pinned.
impl<PT: Timing, P: CreateHandle<PT>> CreateHandle<PT> for PinPtr<P> {
    type Handle = PinnedHandle<P::Handle>;

    const ACCESS: AccessKind = P::ACCESS;

    open spec fn handle_requires(this: Ptr<Self>, mem: Seq<Byte>) -> bool {
        P::handle_requires(ptr_of(this.addr, Metadata::Thin), mem)
    }

    open spec fn spec_handle(this: Ptr<Self>, mem: Seq<Byte>) -> PinnedHandle<P::Handle> {
        PinnedHandle::spec_new(P::spec_handle(ptr_of(this.addr, Metadata::Thin), mem))
    }

    fn handle_from_raw(this: Ptr<Self>, mem: &Memory) -> (h: PinnedHandle<P::Handle>) {
        let ptr: Ptr<P> = this.cast();
        let handle = P::handle_from_raw(ptr, mem);
        PinnedHandle(handle)
    }
}

impl<H: PlaceHandle> PlaceHandle for PinnedHandle<H> {
    type Target = H::Target;
}

/// Reading moves the value out, so it needs an `Unpin` target.
impl<H: ReadPlace> ReadPlace for PinnedHandle<H> where H::Target: Sized + Unpin {
    const ACCESS: AccessKind = H::ACCESS;
    const SAFE: bool = H::SAFE;

    open spec fn read_requires(&self, mem: Seq<Byte>) -> bool {
        self.handle().read_requires(mem)
    }

    open spec fn spec_read(&self, mem: Seq<Byte>) -> Seq<u8> {
        self.handle().spec_read(mem)
    }

    fn read_place(self, mem: &Memory) -> (value: Vec<u8>) {
        self.0.read_place(mem)
    }
}

impl<H: ReadMetadata> ReadMetadata for PinnedHandle<H> {
    open spec fn spec_metadata(&self) -> Metadata {
        self.handle().spec_metadata()
    }

    fn metadata(self) -> (m: Metadata) {
        self.0.metadata()
    }
}

impl<H: MovePlace> MovePlace for PinnedHandle<H> where H::Target: Sized + Unpin {
}

impl<H: WritePlace> WritePlace for PinnedHandle<H> where H::Target: Sized {
    const ACCESS: AccessKind = H::ACCESS;
    const SAFE: bool = H::SAFE;

    open spec fn write_requires(&self, mem: Seq<Byte>, value: Seq<u8>) -> bool {
        self.handle().write_requires(mem, value)
    }

    open spec fn spec_write(&self, mem: Seq<Byte>, value: Seq<u8>) -> Seq<Byte> {
        self.handle().spec_write(mem, value)
    }

    fn write_place(self, mem: &mut Memory, value: &[u8]) {
        self.0.write_place(mem, value)
    }
}

impl<H: DropPlace> DropPlace for PinnedHandle<H> {
    open spec fn drop_requires(&self, mem: Seq<Byte>) -> bool {
        self.handle().drop_requires(mem)
    }

    open spec fn spec_drop(&self, mem: Seq<Byte>) -> Seq<Byte> {
        self.handle().spec_drop(mem)
    }

    fn drop_place(self, mem: &mut Memory) {
        self.0.drop_place(mem)
    }
}

/// The entire pointee is gone, so no pinning guarantee is left to keep.
impl<P: DropHusk> DropHusk for PinPtr<P> {
    open spec fn husk_requires(this: Ptr<Self>, mem: Seq<Byte>) -> bool {
        P::husk_requires(ptr_of(this.addr, Metadata::Thin), mem)
    }

    open spec fn spec_drop_husk(this: Ptr<Self>, mem: Seq<Byte>) -> Seq<Byte> {
        P::spec_drop_husk(ptr_of(this.addr, Metadata::Thin), mem)
    }

    fn drop_husk(this: Ptr<Self>, mem: &mut Memory) {
        P::drop_husk(this.cast(), mem)
    }
}

/// The handle of a subplace of a pinned place: pinned, or not.
pub enum Pinning<H> {
    Pinned(PinnedHandle<H>),
    Unpinned(H),
}

impl<H: PlaceHandle> PlaceHandle for Pinning<H> {
    type Target = H::Target;
}

/// A subplace with a known structural pinning: whether the subplace of a
/// pinned place is pinned too.
pub trait PinnableSubplace: Subplace {
    const STRUCTURAL: bool;

    /// The handle `handle` to the subplace of a pinned place, pinned exactly
    /// when the subplace is structurally pinned.
    fn from_pinned<H: PlaceHandle<Target = Self::Target>>(handle: H) -> (h: Pinning<H>)
        ensures
            h == pinning(Self::STRUCTURAL, handle),
    ;
}

/// The handle to a subplace of a pinned place: pinned when the subplace is
/// `structural`ly pinned.
pub open spec fn pinning<H>(structural: bool, handle: H) -> Pinning<H> {
    if structural {
        Pinning::Pinned(PinnedHandle::spec_new(handle))
    } else {
        Pinning::Unpinned(handle)
    }
}

/// The elements of a pinned array are pinned.
impl<T, const LEN: usize> PinnableSubplace for ArrayIndex<T, LEN> {
    const STRUCTURAL: bool = true;

    fn from_pinned<H: PlaceHandle<Target = Self::Target>>(handle: H) -> (h: Pinning<H>) {
        Pinning::Pinned(PinnedHandle::new_unchecked(handle))
    }
}

/// The elements of a pinned slice are pinned.
impl<T> PinnableSubplace for SliceIndex<T> {
    const STRUCTURAL: bool = true;

    fn from_pinned<H: PlaceHandle<Target = Self::Target>>(handle: H) -> (h: Pinning<H>) {
        Pinning::Pinned(PinnedHandle::new_unchecked(handle))
    }
}

impl<H, S> ProjectPlace<S> for PinnedHandle<H> where
    H: ProjectPlace<S>,
    S: PinnableSubplace<Source = H::Target>,
 {
    type Projected = Pinning<H::Projected>;

    open spec fn project_requires(&self, subplace: S) -> bool {
        self.handle().project_requires(subplace)
    }

    open spec fn spec_project(&self, subplace: S) -> Pinning<H::Projected> {
        pinning(S::STRUCTURAL, self.handle().spec_project(subplace))
    }

    fn project_place(self, subplace: S) -> (h: Pinning<H::Projected>) {
        let handle = self.0.project_place(subplace);
        S::from_pinned(handle)
    }
}

impl<H, PointeeTiming, PointerTiming> DerefPlace<PointeeTiming, PointerTiming> for PinnedHandle<
    H,
> where
    H: DerefPlace<PointeeTiming, PointerTiming>,
    H::Target: CreateHandle<PointeeTiming>,
    PointeeTiming: Timing,
    PointerTiming: Timing,
 {
    const POINTEE_ACCESS: AccessKind = H::POINTEE_ACCESS;
    const POINTER_ACCESS: AccessKind = H::POINTER_ACCESS;
    const SAFE: bool = H::SAFE;

    open spec fn deref_requires(&self, mem: Seq<Byte>) -> bool {
        self.handle().deref_requires(mem)
    }

    open spec fn spec_deref(&self, mem: Seq<Byte>) -> <H::Target as CreateHandle<
        PointeeTiming,
    >>::Handle {
        self.handle().spec_deref(mem)
    }

    fn deref_place(self, mem: &Memory) -> (h: <H::Target as CreateHandle<PointeeTiming>>::Handle) {
        self.0.deref_place(mem)
    }
}

/// A pinned handle needs the same permissions, and is as safe to use, as the
/// handle it wraps.
pub proof fn lemma_pinned_permissions<H: ReadPlace + WritePlace>()
    where
        H::Target: Sized + Unpin,
    ensures
        <PinnedHandle<H> as ReadPlace>::ACCESS == <H as ReadPlace>::ACCESS,
        <PinnedHandle<H> as ReadPlace>::SAFE == <H as ReadPlace>::SAFE,
        <PinnedHandle<H> as WritePlace>::ACCESS == <H as WritePlace>::ACCESS,
        <PinnedHandle<H> as WritePlace>::SAFE == <H as WritePlace>::SAFE,
{
}

/// The elements of a pinned array are pinned: projecting a pinned handle to an
/// element gives the pinned handle of the element.
pub proof fn lemma_pinned_array_element<T, const LEN: usize, H: ProjectPlace<ArrayIndex<T, LEN>>>(
    h: PinnedHandle<H>,
    i: ArrayIndex<T, LEN>,
)
    where
        H: PlaceHandle<Target = [T; LEN]>,
    ensures
        h.spec_project(i) == Pinning::Pinned(PinnedHandle::spec_new(h.handle().spec_project(i))),
{
}

/// The elements of a pinned slice are pinned: projecting a pinned handle to an
/// element gives the pinned handle of the element.
pub proof fn lemma_pinned_slice_element<T, H: ProjectPlace<SliceIndex<T>>>(
    h: PinnedHandle<H>,
    i: SliceIndex<T>,
)
    where
        H: PlaceHandle<Target = [T]>,
    ensures
        h.spec_project(i) == Pinning::Pinned(PinnedHandle::spec_new(h.handle().spec_project(i))),
{
}

/// Borrowing a pinned place gives a pinned pointer.
impl<H, Output> BorrowPlace<PinPtr<Output>> for PinnedHandle<H> where H: BorrowPlace<Output> {
    const ACCESS: AccessKind = H::ACCESS;

    type Timing = H::Timing;

    const SAFE: bool = H::SAFE;

    open spec fn borrow_requires(&self, mem: Seq<Byte>) -> bool {
        self.handle().borrow_requires(mem)
    }

    open spec fn spec_borrow(&self, mem: Seq<Byte>) -> (PinPtr<Output>, Seq<Byte>) {
        let (out, m) = self.handle().spec_borrow(mem);
        (PinPtr::spec_new(out), m)
    }

    fn borrow(self, mem: &mut Memory) -> (out: PinPtr<Output>) {
        new_pin_unchecked(self.0.borrow(mem))
    }
}

/// Writing and reading through a pinned handle store and give the same bytes
/// as through the handle it wraps, and the metadata is the same.
pub proof fn lemma_pinned_write_read<H: WritePlace + ReadPlace + ReadMetadata>(
    h: PinnedHandle<H>,
    m: Seq<Byte>,
    value: Seq<u8>,
)
    where
        H::Target: Sized + Unpin,
    ensures
        h.write_requires(m, value) == h.handle().write_requires(m, value),
        h.spec_write(m, value) == h.handle().spec_write(m, value),
        h.read_requires(m) == h.handle().read_requires(m),
        h.spec_read(m) == h.handle().spec_read(m),
        h.spec_metadata() == h.handle().spec_metadata(),
{
}

/// Dropping through a pinned handle drops as the handle it wraps does.
pub proof fn lemma_pinned_drop<H: DropPlace>(h: PinnedHandle<H>, m: Seq<Byte>)
    ensures
        h.drop_requires(m) == h.handle().drop_requires(m),
        h.spec_drop(m) == h.handle().spec_drop(m),
{
}

/// Dropping the value of a pinned place reached through an exclusive
/// reference leaves every byte of the place allocated but uninitialized, and
/// every other byte as it was; a place of non-zero size is then unreadable.
pub proof fn lemma_pinned_mut_drop_uninit<'a, T: 'a>(p: Ptr<T>, m: Seq<Byte>)
    requires
        place_allocated(p, m),
    ensures
        ({
            let h = PinnedHandle::spec_new(MutHandle::<'a, T>::spec_from_ptr(p));
            let m2 = h.spec_drop(m);
            &&& h.drop_requires(m)
            &&& m2.len() == m.len()
            &&& forall|i: int|
                p.addr <= i < p.addr + vstd::layout::size_of::<T>() ==> #[trigger] m2[i]
                    == Byte::Uninit
            &&& forall|i: int|
                0 <= i < m.len() && !(p.addr <= i < p.addr + vstd::layout::size_of::<T>())
                    ==> #[trigger] m2[i] == m[i]
            &&& vstd::layout::size_of::<T>() > 0 ==> !(m2[p.addr as int] is Init)
        }),
{
    broadcast use group_pin_lemmas;

    MutHandle::<'a, T>::lemma_from_ptr(p);
}

/// Dropping the husk of a `Pin<P>` does what dropping the husk of the `P`
/// stored at the same address does.
pub proof fn lemma_pinned_drop_husk<P: DropHusk>(this: Ptr<PinPtr<P>>, m: Seq<Byte>)
    ensures
        <PinPtr<P> as DropHusk>::husk_requires(this, m) == P::husk_requires(
            ptr_of(this.addr, Metadata::Thin),
            m,
        ),
        <PinPtr<P> as DropHusk>::spec_drop_husk(this, m) == P::spec_drop_husk(
            ptr_of(this.addr, Metadata::Thin),
            m,
        ),
{
}

/// Dropping the husk of a `Pin<Box<T>>` frees the box's allocation: every
/// byte of the `T` the box points at becomes unallocated, and every other
/// byte is as it was.
pub proof fn lemma_pinned_box_husk_frees<T: ?Sized + Pointee>(
    this: Ptr<PinPtr<BoxPtr<T>>>,
    m: Seq<Byte>,
)
    requires
        <PinPtr<BoxPtr<T>> as DropHusk>::husk_requires(this, m),
    ensures
        ({
            let p = ptr_loaded::<T>(m, this.addr as int);
            let m2 = <PinPtr<BoxPtr<T>> as DropHusk>::spec_drop_husk(this, m);
            &&& m2.len() == m.len()
            &&& forall|i: int|
                p.addr <= i < p.addr + T::spec_size(p.meta) ==> #[trigger] m2[i]
                    == Byte::Unallocated
            &&& forall|i: int|
                0 <= i < m.len() && !(p.addr <= i < p.addr + T::spec_size(p.meta))
                    ==> #[trigger] m2[i] == m[i]
        }),
{
}

/// Projecting a pinned handle projects the handle it wraps, and the result is
/// pinned exactly when the subplace is structurally pinned.
pub proof fn lemma_pinned_project<H, S>(h: PinnedHandle<H>, s: S)
    where
        H: ProjectPlace<S>,
        S: PinnableSubplace<Source = H::Target>,
    ensures
        h.project_requires(s) == h.handle().project_requires(s),
        S::STRUCTURAL ==> h.spec_project(s) == Pinning::Pinned(
            PinnedHandle::spec_new(h.handle().spec_project(s)),
        ),
        !S::STRUCTURAL ==> h.spec_project(s) == Pinning::Unpinned(h.handle().spec_project(s)),
{
}

/// Creating the handle of a `Pin<P>` stored at `this` gives the pinned handle
/// of the `P` stored there.
pub proof fn lemma_pinned_create_handle<PT: Timing, P: CreateHandle<PT>>(
    this: Ptr<PinPtr<P>>,
    m: Seq<Byte>,
)
    ensures
        <PinPtr<P> as CreateHandle<PT>>::handle_requires(this, m) == P::handle_requires(
            ptr_of(this.addr, Metadata::Thin),
            m,
        ),
        <PinPtr<P> as CreateHandle<PT>>::spec_handle(this, m).handle() == P::spec_handle(
            ptr_of(this.addr, Metadata::Thin),
            m,
        ),
{
    broadcast use group_pin_lemmas;

}

/// Dereferencing and borrowing through a pinned handle give what the wrapped
/// handle gives, the borrow pinned.
pub proof fn lemma_pinned_deref_and_borrow<H, Output, PointeeTiming, PointerTiming>(
    h: PinnedHandle<H>,
    m: Seq<Byte>,
)
    where
        H: DerefPlace<PointeeTiming, PointerTiming> + BorrowPlace<Output>,
        H::Target: CreateHandle<PointeeTiming>,
        PointeeTiming: Timing,
        PointerTiming: Timing,
    ensures
        <PinnedHandle<H> as DerefPlace<PointeeTiming, PointerTiming>>::deref_requires(&h, m)
            == <H as DerefPlace<PointeeTiming, PointerTiming>>::deref_requires(&h.handle(), m),
        <PinnedHandle<H> as DerefPlace<PointeeTiming, PointerTiming>>::spec_deref(&h, m)
            == <H as DerefPlace<PointeeTiming, PointerTiming>>::spec_deref(&h.handle(), m),
        <PinnedHandle<H> as BorrowPlace<PinPtr<Output>>>::borrow_requires(&h, m)
            == <H as BorrowPlace<Output>>::borrow_requires(&h.handle(), m),
        <PinnedHandle<H> as BorrowPlace<PinPtr<Output>>>::spec_borrow(&h, m).0.pointer()
            == <H as BorrowPlace<Output>>::spec_borrow(&h.handle(), m).0,
        <PinnedHandle<H> as BorrowPlace<PinPtr<Output>>>::spec_borrow(&h, m).1
            == <H as BorrowPlace<Output>>::spec_borrow(&h.handle(), m).1,
{
    broadcast use group_pin_lemmas;

}

} // verus!
