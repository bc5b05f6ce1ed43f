//! Subplaces: places directly contained in another place (fields, array and
//! slice elements), given by their byte offset in the containing place.
use vstd::prelude::*;
use crate::memory::{Byte, Memory, range_init, bytes_at};
use crate::ptr::{Metadata, Pointee, Ptr};

verus! {

/// A subplace of a `Self::Source`: a `Self::Target` lying directly (without
/// pointer indirection) inside it.
pub trait Subplace: Sized {
    type Source: ?Sized;
    type Target: ?Sized;

    /// When the subplace is defined for a source with metadata `metadata`.
    spec fn offset_requires(&self, metadata: Metadata) -> bool;

    /// The byte offset of the subplace in the source, and the metadata of the subplace.
    spec fn spec_offset(&self, metadata: Metadata) -> (usize, Metadata);

    /// The offset of the subplace in a source with metadata `metadata`, and the
    /// metadata of the subplace.
    fn offset(self, metadata: Metadata) -> (r: (usize, Metadata))
        requires
            self.offset_requires(metadata),
        ensures
            r == self.spec_offset(metadata),
    ;
}

/// A subplace whose target is sized, naming that target type.
pub trait SizedSubplace: Subplace<Target = Self::SizedTarget> {
    type SizedTarget;
}

/// A named field.
pub trait Field: Subplace {
    spec fn spec_name(&self) -> &'static str;

    fn name(&self) -> (n: &'static str)
        ensures
            n == self.spec_name(),
    ;
}

/// A type whose values can be `match`ed. Its variants are numbered from 0 to
/// `VARIANT_COUNT - 1`.
pub trait Matchable {
    const VARIANT_COUNT: usize;

    spec fn spec_variant_name(v: usize) -> &'static str;

    /// The name of the variant numbered `v`.
    fn variant_name(v: usize) -> (n: &'static str)
        requires
            v < Self::VARIANT_COUNT,
        ensures
            n == Self::spec_variant_name(v),
    ;

    spec fn variant_requires(ptr: Ptr<Self>, mem: Seq<Byte>) -> bool;

    /// The number of the variant of the value stored at `ptr`.
    spec fn spec_variant_at(ptr: Ptr<Self>, mem: Seq<Byte>) -> usize;

    fn variant_at(ptr: Ptr<Self>, mem: &Memory) -> (v: usize)
        requires
            Self::variant_requires(ptr, mem@),
        ensures
            v == Self::spec_variant_at(ptr, mem@),
            v < Self::VARIANT_COUNT,
    ;
}

/// `Self` has the variant numbered `VARIANT`, whose contents are a `VariantType`.
pub trait HasVariant<const VARIANT: usize>: Matchable {
    type VariantType;
}

impl Matchable for bool {
    const VARIANT_COUNT: usize = 2;

    open spec fn spec_variant_name(v: usize) -> &'static str {
        if v == 0 {
            "false"
        } else {
            "true"
        }
    }

    fn variant_name(v: usize) -> (n: &'static str) {
        if v == 0 {
            "false"
        } else {
            "true"
        }
    }

    open spec fn variant_requires(ptr: Ptr<Self>, mem: Seq<Byte>) -> bool {
        &&& range_init(mem, ptr.addr as int, 1)
        &&& bytes_at(mem, ptr.addr as int, 1)[0] <= 1
    }

    open spec fn spec_variant_at(ptr: Ptr<Self>, mem: Seq<Byte>) -> usize {
        bytes_at(mem, ptr.addr as int, 1)[0] as usize
    }

    fn variant_at(ptr: Ptr<Self>, mem: &Memory) -> (v: usize) {
        let b = mem.read(ptr.addr, 1);
        b[0] as usize
    }
}

/// A `bool` is matched by its byte: a stored `false` (byte 0) is variant 0,
/// named "false", and a stored `true` (byte 1) is variant 1, named "true".
pub proof fn lemma_bool_variants(ptr: Ptr<bool>, m: Seq<Byte>, b: u8)
    requires
        0 <= ptr.addr < m.len(),
        b <= 1,
    ensures
        ({
            let m2 = crate::memory::stored(m, ptr.addr as int, seq![b]);
            &&& bool::variant_requires(ptr, m2)
            &&& bool::spec_variant_at(ptr, m2) == b
            &&& b == 0 ==> bool::spec_variant_name(bool::spec_variant_at(ptr, m2)) == "false"
            &&& b == 1 ==> bool::spec_variant_name(bool::spec_variant_at(ptr, m2)) == "true"
        }),
{
    crate::memory::lemma_read_stored(m, ptr.addr as int, seq![b]);
}

impl HasVariant<0> for bool {
    type VariantType = ();
}

impl HasVariant<1> for bool {
    type VariantType = ();
}

/// A field at a fixed byte offset, as `offset_of!` computes it.
pub struct FieldAt<Source: ?Sized, Target: ?Sized> {
    offset: usize,
    name: &'static str,
    _source: core::marker::PhantomData<Source>,
    _target: core::marker::PhantomData<Target>,
}

impl<Source: ?Sized + Pointee, Target: ?Sized + Pointee> FieldAt<Source, Target> {
    pub closed spec fn field_offset(&self) -> usize {
        self.offset
    }

    pub closed spec fn field_name(&self) -> &'static str {
        self.name
    }

    /// The field `name` at byte offset `offset` of a `Source`. The caller vouches
    /// that a `Target` lies there; for sized types it must lie inside the source.
    pub fn new_unchecked(name: &'static str, offset: usize) -> (f: Self)
        requires
            !Source::spec_is_slice() && !Target::spec_is_slice() ==> offset + Target::spec_size(
                Metadata::Thin,
            ) <= Source::spec_size(Metadata::Thin),
        ensures
            f.field_offset() == offset,
            f.field_name() == name,
    {
        FieldAt {
            offset,
            name,
            _source: core::marker::PhantomData,
            _target: core::marker::PhantomData,
        }
    }
}

impl<Source: ?Sized + Pointee, Target: ?Sized + Pointee> Subplace for FieldAt<Source, Target> {
    type Source = Source;
    type Target = Target;

    open spec fn offset_requires(&self, metadata: Metadata) -> bool {
        true
    }

    /// A trailing unsized field shares the metadata of the source.
    open spec fn spec_offset(&self, metadata: Metadata) -> (usize, Metadata) {
        (self.field_offset(), if Target::spec_is_slice() { metadata } else { Metadata::Thin })
    }

    fn offset(self, metadata: Metadata) -> (r: (usize, Metadata)) {
        if Target::is_slice() {
            (self.offset, metadata)
        } else {
            (self.offset, Metadata::Thin)
        }
    }
}

impl<Source: ?Sized + Pointee, Target: ?Sized + Pointee> Field for FieldAt<Source, Target> {
    open spec fn spec_name(&self) -> &'static str {
        self.field_name()
    }

    fn name(&self) -> (n: &'static str) {
        self.name
    }
}

/// The element at `idx` of an array `[T; LEN]`.
pub struct ArrayIndex<T, const LEN: usize> {
    idx: usize,
    _elem: core::marker::PhantomData<T>,
}

impl<T, const LEN: usize> ArrayIndex<T, LEN> {
    pub closed spec fn index(&self) -> usize {
        self.idx
    }

    /// The element `idx`, which must be in the array.
    pub fn new_unchecked(idx: usize) -> (i: Self)
        requires
            idx < LEN,
        ensures
            i.index() == idx,
    {
        ArrayIndex { idx, _elem: core::marker::PhantomData }
    }
}

impl<T, const LEN: usize> Subplace for ArrayIndex<T, LEN> {
    type Source = [T; LEN];
    type Target = T;

    /// The array must fit in an allocation and the index must be in it.
    open spec fn offset_requires(&self, metadata: Metadata) -> bool {
        &&& vstd::layout::size_of::<T>() * LEN < isize::MAX
        &&& self.index() < LEN
    }

    open spec fn spec_offset(&self, metadata: Metadata) -> (usize, Metadata) {
        ((self.index() * vstd::layout::size_of::<T>()) as usize, Metadata::Thin)
    }

    fn offset(self, metadata: Metadata) -> (r: (usize, Metadata)) {
        let size = core::mem::size_of::<T>();
        proof {
            let i = self.idx as int;
            let n = LEN as int;
            let s = size as int;
            assert(i * s <= n * s) by (nonlinear_arith)
                requires
                    0 <= i < n,
                    0 <= s,
            ;
        }
        (self.idx * size, Metadata::Thin)
    }
}

/// Element `i` of `n` elements of size `s` fits, and lies apart from element `j`.
proof fn lemma_elements(i: int, j: int, n: int, s: int)
    requires
        0 <= i < n,
        0 <= j < n,
        0 <= s,
    ensures
        i * s + s <= n * s,
        i != j ==> i * s + s <= j * s || j * s + s <= i * s,
{
    assert(i * s + s <= n * s) by (nonlinear_arith)
        requires
            0 <= i < n,
            0 <= s,
    ;
    if i < j {
        assert(i * s + s <= j * s) by (nonlinear_arith)
            requires
                i < j,
                0 <= s,
        ;
    } else if j < i {
        assert(j * s + s <= i * s) by (nonlinear_arith)
            requires
                j < i,
                0 <= s,
        ;
    }
}

/// An array element lies inside the array's `LEN` elements, and two different
/// elements share no byte.
pub proof fn lemma_array_index_within<T, const LEN: usize>(i: ArrayIndex<T, LEN>, j: ArrayIndex<T, LEN>)
    requires
        i.offset_requires(Metadata::Thin),
        j.offset_requires(Metadata::Thin),
    ensures
        i.spec_offset(Metadata::Thin).0 + vstd::layout::size_of::<T>() <= LEN * vstd::layout::size_of::<T>(),
        i.index() != j.index() ==> {
            ||| i.spec_offset(Metadata::Thin).0 + vstd::layout::size_of::<T>() <= j.spec_offset(Metadata::Thin).0
            ||| j.spec_offset(Metadata::Thin).0 + vstd::layout::size_of::<T>() <= i.spec_offset(Metadata::Thin).0
        },
{
    let s = vstd::layout::size_of::<T>() as int;
    lemma_elements(i.index() as int, j.index() as int, LEN as int, s);
    lemma_elements(j.index() as int, i.index() as int, LEN as int, s);
}

/// Array elements lie one after another from the start of the array: element
/// 0 at offset 0, and each next element one element size further, each a
/// sized place.
pub proof fn lemma_array_elements_consecutive<T, const LEN: usize>(
    i: ArrayIndex<T, LEN>,
    j: ArrayIndex<T, LEN>,
    m: Metadata,
)
    requires
        i.offset_requires(m),
        j.offset_requires(m),
    ensures
        i.index() == 0 ==> i.spec_offset(m).0 == 0,
        j.index() == i.index() + 1 ==> j.spec_offset(m).0 == i.spec_offset(m).0
            + vstd::layout::size_of::<T>(),
        i.spec_offset(m).1 == Metadata::Thin,
{
    let s = vstd::layout::size_of::<T>() as int;
    lemma_elements(i.index() as int, i.index() as int, LEN as int, s);
    lemma_elements(j.index() as int, j.index() as int, LEN as int, s);
    if i.index() == 0 {
        assert(i.index() * vstd::layout::size_of::<T>() == 0) by (nonlinear_arith)
            requires
                i.index() == 0,
        ;
    }
    if j.index() == i.index() + 1 {
        assert(j.index() * vstd::layout::size_of::<T>() == i.index() * vstd::layout::size_of::<T>()
            + vstd::layout::size_of::<T>()) by (nonlinear_arith)
            requires
                j.index() == i.index() + 1,
        ;
    }
}

/// The element at `idx` of a slice `[T]`.
pub struct SliceIndex<T> {
    idx: usize,
    _elem: core::marker::PhantomData<T>,
}

impl<T> SliceIndex<T> {
    pub closed spec fn index(&self) -> usize {
        self.idx
    }

    /// The element `idx` of whatever slice it is applied to.
    pub fn new_unchecked(idx: usize) -> (i: Self)
        ensures
            i.index() == idx,
    {
        SliceIndex { idx, _elem: core::marker::PhantomData }
    }
}

impl<T> Subplace for SliceIndex<T> {
    type Source = [T];
    type Target = T;

    /// The slice must fit in an allocation, and the element's offset must be
    /// representable.
    open spec fn offset_requires(&self, metadata: Metadata) -> bool {
        match metadata {
            Metadata::Len(len) => {
                &&& len * vstd::layout::size_of::<T>() < isize::MAX
                &&& self.index() * vstd::layout::size_of::<T>() <= usize::MAX
            },
            Metadata::Thin => false,
        }
    }

    open spec fn spec_offset(&self, metadata: Metadata) -> (usize, Metadata) {
        ((self.index() * vstd::layout::size_of::<T>()) as usize, Metadata::Thin)
    }

    fn offset(self, metadata: Metadata) -> (r: (usize, Metadata)) {
        let size = core::mem::size_of::<T>();
        (self.idx * size, Metadata::Thin)
    }
}

/// An element of a slice lies inside the slice, and two different elements
/// share no byte.
pub proof fn lemma_slice_index_within<T>(i: SliceIndex<T>, j: SliceIndex<T>, len: usize)
    requires
        i.offset_requires(Metadata::Len(len)),
        j.offset_requires(Metadata::Len(len)),
        i.index() < len,
        j.index() < len,
    ensures
        i.spec_offset(Metadata::Len(len)).0 + vstd::layout::size_of::<T>() <= <[T] as Pointee>::spec_size(
            Metadata::Len(len),
        ),
        i.index() != j.index() ==> {
            ||| i.spec_offset(Metadata::Len(len)).0 + vstd::layout::size_of::<T>() <= j.spec_offset(Metadata::Len(len)).0
            ||| j.spec_offset(Metadata::Len(len)).0 + vstd::layout::size_of::<T>() <= i.spec_offset(Metadata::Len(len)).0
        },
{
    let s = vstd::layout::size_of::<T>() as int;
    lemma_elements(i.index() as int, j.index() as int, len as int, s);
    lemma_elements(j.index() as int, i.index() as int, len as int, s);
}

/// Slice elements lie one after another from the start of the slice: element
/// 0 at offset 0, and each next element one element size further, each a
/// sized place.
pub proof fn lemma_slice_elements_consecutive<T>(i: SliceIndex<T>, j: SliceIndex<T>, m: Metadata)
    requires
        i.offset_requires(m),
        j.offset_requires(m),
    ensures
        i.index() == 0 ==> i.spec_offset(m).0 == 0,
        j.index() == i.index() + 1 ==> j.spec_offset(m).0 == i.spec_offset(m).0
            + vstd::layout::size_of::<T>(),
        i.spec_offset(m).1 == Metadata::Thin,
{
    let size = vstd::layout::size_of::<T>();
    assert(i.index() * size <= usize::MAX && j.index() * size <= usize::MAX);
    if i.index() == 0 {
        assert(i.index() * vstd::layout::size_of::<T>() == 0) by (nonlinear_arith)
            requires
                i.index() == 0,
        ;
    }
    if j.index() == i.index() + 1 {
        assert(j.index() * vstd::layout::size_of::<T>() == i.index() * vstd::layout::size_of::<T>()
            + vstd::layout::size_of::<T>()) by (nonlinear_arith)
            requires
                j.index() == i.index() + 1,
        ;
    }
}

/// A subplace `Sub`, seen as a subplace of a `Source` holding a `Target`: what a
/// place wrapper exposes of the place it wraps.
pub struct TransmutedSubplace<Sub, Source: ?Sized, Target: ?Sized> {
    subplace: Sub,
    _source: core::marker::PhantomData<Source>,
    _target: core::marker::PhantomData<Target>,
}

impl<Sub, Source: ?Sized, Target: ?Sized> TransmutedSubplace<Sub, Source, Target> {
    pub closed spec fn inner(&self) -> Sub {
        self.subplace
    }

    /// `p`, reinterpreted.
    pub closed spec fn spec_new(p: Sub) -> Self {
        TransmutedSubplace {
            subplace: p,
            _source: core::marker::PhantomData,
            _target: core::marker::PhantomData,
        }
    }

    pub broadcast proof fn lemma_new(p: Sub)
        ensures
            (#[trigger] Self::spec_new(p)).inner() == p,
    {
    }

    /// Reinterprets `p`. The caller vouches that `Source` and `Target` lay out
    /// the subplace as `p`'s source and target do.
    pub fn new_unchecked(p: Sub) -> (t: Self)
        ensures
            t == Self::spec_new(p),
            t.inner() == p,
    {
        TransmutedSubplace {
            subplace: p,
            _source: core::marker::PhantomData,
            _target: core::marker::PhantomData,
        }
    }
}

impl<Sub: Default, Source: ?Sized, Target: ?Sized> Default for TransmutedSubplace<
    Sub,
    Source,
    Target,
> {
    fn default() -> (t: Self)
        ensures
            call_ensures(Sub::default, (), t.inner()),
    {
        TransmutedSubplace {
            subplace: Sub::default(),
            _source: core::marker::PhantomData,
            _target: core::marker::PhantomData,
        }
    }
}

impl<Sub: Subplace, Source: ?Sized, Target: ?Sized> Subplace for TransmutedSubplace<
    Sub,
    Source,
    Target,
> {
    type Source = Source;
    type Target = Target;

    open spec fn offset_requires(&self, metadata: Metadata) -> bool {
        self.inner().offset_requires(metadata)
    }

    open spec fn spec_offset(&self, metadata: Metadata) -> (usize, Metadata) {
        self.inner().spec_offset(metadata)
    }

    fn offset(self, metadata: Metadata) -> (r: (usize, Metadata)) {
        self.subplace.offset(metadata)
    }
}

/// A reinterpreted subplace has, for every metadata, the same precondition,
/// offset and target metadata as the subplace it reinterprets.
pub proof fn lemma_transmuted_same_offsets<Sub: Subplace, Source: ?Sized, Target: ?Sized>(p: Sub)
    ensures
        forall|m: Metadata|
            #![trigger TransmutedSubplace::<Sub, Source, Target>::spec_new(p).spec_offset(m)]
            TransmutedSubplace::<Sub, Source, Target>::spec_new(p).offset_requires(m)
                == p.offset_requires(m) && TransmutedSubplace::<Sub, Source, Target>::spec_new(
                p,
            ).spec_offset(m) == p.spec_offset(m),
{
}

/// A field made at byte offset `offset` with name `name` lies at that offset,
/// whatever the source's metadata, keeps that name, and is a sized place
/// unless it is a trailing slice, which takes the source's length.
pub proof fn lemma_field_at<Source: ?Sized + Pointee, Target: ?Sized + Pointee>(
    f: FieldAt<Source, Target>,
    m: Metadata,
)
    ensures
        f.offset_requires(m),
        f.spec_offset(m).0 == f.field_offset(),
        f.spec_name() == f.field_name(),
        !Target::spec_is_slice() ==> f.spec_offset(m).1 == Metadata::Thin,
        Target::spec_is_slice() ==> f.spec_offset(m).1 == m,
{
}

/// A field `F`, seen as a field of a `Source` holding a `Target`.
pub struct TransmutedField<F, Source: ?Sized, Target: ?Sized>(TransmutedSubplace<
    F,
    Source,
    Target,
>);

impl<F, Source: ?Sized, Target: ?Sized> TransmutedField<F, Source, Target> {
    pub closed spec fn inner(&self) -> F {
        self.0.inner()
    }

    /// Reinterprets the field `f`, as [`TransmutedSubplace::new_unchecked`] does.
    pub fn new_unchecked(f: F) -> (t: Self)
        ensures
            t.inner() == f,
    {
        TransmutedField(TransmutedSubplace::new_unchecked(f))
    }
}

impl<F: Default, Source: ?Sized, Target: ?Sized> Default for TransmutedField<F, Source, Target> {
    fn default() -> (t: Self)
        ensures
            call_ensures(F::default, (), t.inner()),
    {
        TransmutedField(TransmutedSubplace::default())
    }
}

impl<F: Field, Source: ?Sized, Target: ?Sized> Subplace for TransmutedField<F, Source, Target> {
    type Source = Source;
    type Target = Target;

    open spec fn offset_requires(&self, metadata: Metadata) -> bool {
        self.inner().offset_requires(metadata)
    }

    open spec fn spec_offset(&self, metadata: Metadata) -> (usize, Metadata) {
        self.inner().spec_offset(metadata)
    }

    fn offset(self, metadata: Metadata) -> (r: (usize, Metadata)) {
        self.0.subplace.offset(metadata)
    }
}

impl<F: Field, Source: ?Sized, Target: ?Sized> Field for TransmutedField<F, Source, Target> {
    open spec fn spec_name(&self) -> &'static str {
        self.inner().spec_name()
    }

    fn name(&self) -> (n: &'static str) {
        self.0.subplace.name()
    }
}

/// A reinterpreted field has the precondition, offset, metadata and name of
/// the field it reinterprets.
pub proof fn lemma_transmuted_field<F: Field, Source: ?Sized, Target: ?Sized>(
    t: TransmutedField<F, Source, Target>,
    m: Metadata,
)
    ensures
        t.offset_requires(m) == t.inner().offset_requires(m),
        t.spec_offset(m) == t.inner().spec_offset(m),
        t.spec_name() == t.inner().spec_name(),
{
}

impl<T, const LEN: usize> SizedSubplace for ArrayIndex<T, LEN> {
    type SizedTarget = T;
}

impl<T> SizedSubplace for SliceIndex<T> {
    type SizedTarget = T;
}

impl<Source: ?Sized + Pointee, Target: Pointee> SizedSubplace for FieldAt<Source, Target> {
    type SizedTarget = Target;
}

impl<Sub: Subplace, Source: ?Sized, Target> SizedSubplace for TransmutedSubplace<Sub, Source, Target> {
    type SizedTarget = Target;
}

impl<F: Field, Source: ?Sized, Target> SizedSubplace for TransmutedField<F, Source, Target> {
    type SizedTarget = Target;
}

} // verus!
