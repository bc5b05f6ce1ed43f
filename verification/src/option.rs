//! `Option` as a place wrapper.
//!
//! Only options whose `Some` payload fills the option from offset 0 wrap
//! places: those of references, boxes and non-null pointers, which std lays
//! out with the null value as `None` and the payload unchanged. For other
//! payloads `Option` may put a tag before the payload, and the offsets of the
//! payload's subplaces would then not be offsets in the option.
use vstd::prelude::*;
use crate::boxed::BoxPtr;
use crate::ops::{PlaceWrapper, WrapPlace};
use crate::ptr::non_null::NonNull;
use crate::reference::{SharedRef, UniqueRef};
use crate::subplace::{Subplace, TransmutedSubplace};

verus! {

/// A type `T` for which `Option<T>` holds `Some(t)` as the bytes of `t`,
/// from offset 0, with `None` taking a value that no `T` has.
pub trait PayloadAtStart {}

impl<'a, T> PayloadAtStart for SharedRef<'a, T> {}

impl<'a, T> PayloadAtStart for UniqueRef<'a, T> {}

impl<T> PayloadAtStart for BoxPtr<T> {}

impl<T> PayloadAtStart for NonNull<T> {}

impl<T> PlaceWrapper for Option<T> {
    type Inner = T;
}

/// A subplace of the payload of an `Option<T>` lies at the same offset in the
/// option, since the payload starts at offset 0.
impl<T: PayloadAtStart, S: Subplace<Source = T>> WrapPlace<S> for Option<T> {
    type Wrapped = TransmutedSubplace<S, Option<T>, S::Target>;

    open spec fn spec_wrap(subplace: S) -> Self::Wrapped {
        TransmutedSubplace::spec_new(subplace)
    }

    fn wrap(subplace: S) -> (w: Self::Wrapped) {
        TransmutedSubplace::new_unchecked(subplace)
    }

    proof fn lemma_wrap_offsets(subplace: S) {
        TransmutedSubplace::<S, Option<T>, S::Target>::lemma_new(subplace);
    }
}

} // verus!
