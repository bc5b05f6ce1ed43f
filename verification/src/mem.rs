//! `MaybeUninit` as a place wrapper.
use vstd::prelude::*;
use crate::ops::{PlaceWrapper, WrapPlace};
use crate::subplace::{SizedSubplace, TransmutedSubplace};

verus! {

impl<T> PlaceWrapper for core::mem::MaybeUninit<T> {
    type Inner = T;
}

/// A field of a `MaybeUninit<S>` is a `MaybeUninit` of the field, at the same offset.
impl<T, S: SizedSubplace<Source = T>> WrapPlace<S> for core::mem::MaybeUninit<T> {
    type Wrapped = TransmutedSubplace<
        S,
        core::mem::MaybeUninit<T>,
        core::mem::MaybeUninit<S::SizedTarget>,
    >;

    open spec fn spec_wrap(subplace: S) -> Self::Wrapped {
        TransmutedSubplace::spec_new(subplace)
    }

    fn wrap(subplace: S) -> (w: Self::Wrapped) {
        TransmutedSubplace::new_unchecked(subplace)
    }

    proof fn lemma_wrap_offsets(subplace: S) {
        TransmutedSubplace::<
            S,
            core::mem::MaybeUninit<T>,
            core::mem::MaybeUninit<S::SizedTarget>,
        >::lemma_new(subplace);
    }
}

} // verus!
