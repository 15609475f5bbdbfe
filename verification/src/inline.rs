//! Inline storage: a buffer of fixed capacity that lives in the handle
//! itself. The buffer is an `arrayvec::ArrayVec`; what follows is all that
//! the library calls of it.

use arrayvec::ArrayVec;
use vstd::prelude::*;

verus! {

#[verifier::external_type_specification]
#[verifier::external_body]
#[verifier::reject_recursive_types(T)]
pub struct ExArrayVec<T, const CAP: usize>(ArrayVec<T, CAP>);

/// The greatest capacity that an inline buffer can have: it counts its
/// items in 32 bits.
pub const MAX_INLINE_CAP: usize = 0xFFFF_FFFF;

/// `len` items can be held inline under capacity `cap`: they fit, and an
/// inline buffer of that capacity can be had.
pub open spec fn fits_inline(len: nat, cap: usize) -> bool {
    len <= cap && cap <= MAX_INLINE_CAP
}

/// At most `CAP` items held in place, with no allocation. `held` is what the
/// buffer holds. No body below is verified, and no compiled code holds a
/// ghost value: what a body writes for `held` is a stand-in, and the
/// `ensures` of each function say what the buffer holds after it.
#[verifier::reject_recursive_types(T)]
pub(crate) struct InlineItems<T, const CAP: usize> {
    items: ArrayVec<T, CAP>,
    held: Ghost<Seq<T>>,
}

impl<T, const CAP: usize> View for InlineItems<T, CAP> {
    type V = Seq<T>;

    closed spec fn view(&self) -> Seq<T> {
        self.held@
    }
}

impl<T, const CAP: usize> InlineItems<T, CAP> {
    /// `ArrayVec::new`: an empty buffer. It panics for a capacity that it
    /// cannot count.
    #[verifier::external_body]
    pub(crate) fn new() -> (out: Self)
        requires
            CAP <= MAX_INLINE_CAP,
        ensures
            out@ == Seq::<T>::empty(),
    {
        InlineItems { items: ArrayVec::new(), held: Ghost(Seq::empty()) }
    }

    /// `ArrayVec::try_push` and, on failure, `CapacityError::element`: the
    /// item is added at the end while fewer than `CAP` are held; a full
    /// buffer stays as it is and hands the item back.
    #[verifier::external_body]
    pub(crate) fn try_push(&mut self, value: T) -> (out: Result<(), T>)
        ensures
            old(self)@.len() < CAP ==> out is Ok && final(self)@ == old(self)@.push(value),
            old(self)@.len() >= CAP ==> out is Err && out->Err_0 == value && final(self)@ == old(self)@,
    {
        match self.items.try_push(value) {
            Ok(()) => Ok(()),
            Err(error) => Err(error.element()),
        }
    }

    /// `ArrayVec::as_slice`: the items held, in order.
    #[verifier::external_body]
    pub(crate) fn as_slice(&self) -> (out: &[T])
        ensures
            out@ == self@,
    {
        self.items.as_slice()
    }

    /// `ArrayVec::into_iter`, gathered: the items held, moved out in order.
    #[verifier::external_body]
    pub(crate) fn into_vec(self) -> (out: Vec<T>)
        ensures
            out@ == self@,
    {
        self.items.into_iter().collect()
    }

    /// `ArrayVec::from_iter` on the items of an array: a buffer that holds
    /// them in order. It panics for more items than `CAP`, and for a
    /// capacity that the buffer cannot count.
    #[verifier::external_body]
    pub(crate) fn from_array<const N: usize>(values: [T; N]) -> (out: Self)
        requires
            N <= CAP,
            CAP <= MAX_INLINE_CAP,
        ensures
            out@ == values@,
    {
        InlineItems { items: values.into_iter().collect(), held: Ghost(Seq::empty()) }
    }

    /// `ArrayVec::clone`: a buffer of as many items, each a clone of the
    /// item in its place. It makes its buffer as `ArrayVec::new` does.
    #[verifier::external_body]
    pub(crate) fn duplicate(&self) -> (out: Self) where T: Clone
        requires
            CAP <= MAX_INLINE_CAP,
        ensures
            out@.len() == self@.len(),
            forall|i: int| 0 <= i < out@.len() ==> cloned(self@[i], #[trigger] out@[i]),
    {
        InlineItems { items: self.items.clone(), held: Ghost(Seq::empty()) }
    }
}

} // verus!
