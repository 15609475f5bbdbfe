//! The small shared slice: short sequences are held in the handle itself,
//! longer ones in a reference-counted buffer.

use crate::compare::{
    eq_is_identity, items_eq, lemma_items_eq_is_equality, lex_order, lex_total_order, slice_eq,
    slice_order, slice_partial_order,
};
use crate::iter::ArcSliceIter;
use crate::observe::{fmt_slice, hash_slice};
use crate::collect::drain_into;
use crate::inline::{fits_inline, InlineItems, MAX_INLINE_CAP};
use crate::shared::{shared_clone, shared_from_array, shared_from_vec};
use crate::split::{carries_exactly, clone_is_identity, ArcSliceSplit};
use std::cmp::Ordering;
use std::ops::Range;
use std::sync::Arc;
use vstd::prelude::*;
use vstd::std_specs::cmp::{OrdSpec, PartialEqSpec, PartialOrdSpec};
use vstd::std_specs::iter::IteratorSpec;

verus! {

#[verifier::reject_recursive_types(T)]
enum SmallArcSliceInner<T, const CAP: usize> {
    /// At most `CAP` items, held in the handle itself and duplicated with
    /// it.
    Inline(InlineItems<T, CAP>),
    Shared(Arc<[T]>),
}

impl<T, const CAP: usize> SmallArcSliceInner<T, CAP> {
    /// Everything the backing holds, whatever the handle's range.
    spec fn stored(self) -> Seq<T> {
        match self {
            SmallArcSliceInner::Inline(items) => items@,
            SmallArcSliceInner::Shared(buf) => buf@,
        }
    }
}

/// An immutable view of a range of a backing that was chosen once, when the
/// handle was made: inline for at most `CAP` elements, shared above that.
/// Trimming narrows the range and never changes the form of the backing.
#[verifier::reject_recursive_types(T)]
pub struct SmallArcSlice<T, const CAP: usize> {
    inner: SmallArcSliceInner<T, CAP>,
    range: Range<usize>,
}

impl<T, const CAP: usize> View for SmallArcSlice<T, CAP> {
    type V = Seq<T>;

    /// The visible elements: those of the backing that lie in the range.
    closed spec fn view(&self) -> Seq<T> {
        self.inner.stored().subrange(self.range.start as int, self.range.end as int)
    }
}

impl<T, const CAP: usize> SmallArcSlice<T, CAP> {
    #[verifier::type_invariant]
    spec fn range_in_backing(self) -> bool {
        &&& self.range.start <= self.range.end <= self.inner.stored().len()
        &&& self.inner is Inline ==> fits_inline(self.inner.stored().len(), CAP)
    }

    /// The handle holds its elements itself, in a buffer that is part of it,
    /// rather than in a shared buffer on the heap.
    pub closed spec fn inline_backed(&self) -> bool {
        self.inner is Inline
    }

    /// Whether the handle holds its elements itself.
    pub fn is_inline(&self) -> (out: bool)
        ensures
            out == self.inline_backed(),
    {
        match &self.inner {
            SmallArcSliceInner::Inline(_) => true,
            SmallArcSliceInner::Shared(_) => false,
        }
    }

    /// A handle on the items of `all`, in a shared buffer.
    fn shared_over(all: Vec<T>) -> (out: Self)
        ensures
            out@ == all@,
            !out.inline_backed(),
    {
        let count = all.len();
        let buf = shared_from_vec(all);
        assert(buf@.subrange(0, count as int) =~= buf@);
        SmallArcSlice { inner: SmallArcSliceInner::Shared(buf), range: 0..count }
    }

    /// A handle on everything that `iter` yields, in order. The items are
    /// gathered inline while they fit; with the item after the `CAP`-th, they
    /// and all that follow move to a shared buffer, once and for good. A
    /// capacity that no inline buffer can have is served from a shared
    /// buffer from the start.
    pub fn from_iter<I: Iterator<Item = T>>(iter: I) -> (out: Self)
        requires
            iter.obeys_prophetic_iter_laws(),
            iter.decrease() is Some,
        ensures
            out@ == iter.remaining(),
            out.inline_backed() <==> fits_inline(iter.remaining().len(), CAP),
    {
        let ghost source = iter.remaining();
        let mut rest = iter;
        if CAP > MAX_INLINE_CAP {
            let mut all: Vec<T> = Vec::new();
            drain_into(&mut all, rest);
            assert(all@ =~= source);
            return Self::shared_over(all);
        }
        let mut array: InlineItems<T, CAP> = InlineItems::new();
        loop
            invariant
                source == iter.remaining(),
                rest.obeys_prophetic_iter_laws(),
                rest.decrease() is Some,
                fits_inline(array@.len(), CAP),
                array@ + rest.remaining() == source,
            ensures
                fits_inline(array@.len(), CAP),
                array@ == source,
            decreases rest.decrease()->0,
        {
            match rest.next() {
                Some(value) => {
                    if let Err(value) = array.try_push(value) {
                        let mut all = array.into_vec();
                        all.push(value);
                        drain_into(&mut all, rest);
                        assert(all@ =~= source);
                        return Self::shared_over(all);
                    }
                    assert(array@ + rest.remaining() =~= source);
                },
                None => {
                    assert(array@ + rest.remaining() =~= array@);
                    break ;
                },
            }
        }
        let count = array.as_slice().len();
        assert(array@.subrange(0, count as int) =~= array@);
        SmallArcSlice { inner: SmallArcSliceInner::Inline(array), range: 0..count }
    }

    /// An iterator that hands out clones of the visible elements, first to
    /// last, and keeps the handle on what remains.
    pub fn into_iter(self) -> (out: ArcSliceIter<Self>) where T: Clone
        ensures
            out.remaining() == self@,
            out.exact() == !self.inline_backed(),
    {
        ArcSliceIter::new(self)
    }

    /// For elements whose clones are the elements themselves, splitting hands
    /// on the very elements, whatever the backing: a remainder shows exactly
    /// the elements that are left.
    pub proof fn lemma_carries_exactly() where T: Clone
        requires
            clone_is_identity::<T>(),
        ensures
            carries_exactly::<Self>(),
    {
    }

    /// Two handles, of whatever capacities and storage, are equal
    /// exactly when they show the same elements, for elements whose `==` is
    /// identity.
    pub proof fn lemma_eq_iff_same_elements<const CAP2: usize>(
        self,
        other: SmallArcSlice<T, CAP2>,
    ) where T: PartialEq
        requires
            eq_is_identity::<T>(),
        ensures
            self.eq_spec(&other) <==> (self@ == other@),
    {
        lemma_items_eq_is_equality(self@, other@);
    }

    /// How the visible elements of the two handles stand in lexicographic
    /// order, under a total order of the elements, whatever storage
    /// stand behind them.
    pub fn cmp(&self, other: &Self) -> (out: Ordering) where T: Ord
        ensures
            T::obeys_cmp_spec() ==> out == lex_total_order(self@, other@),
    {
        slice_order(self.raw_inner_slice(), other.raw_inner_slice())
    }

    /// The visible elements as an ordinary slice.
    pub fn raw_inner_slice(&self) -> (out: &[T])
        ensures
            out@ == self@,
    {
        proof {
            use_type_invariant(self);
        }
        match &self.inner {
            SmallArcSliceInner::Inline(items) => {
                let all: &[T] = items.as_slice();
                &all[self.range.start..self.range.end]
            },
            SmallArcSliceInner::Shared(buf) => {
                let all: &[T] = &buf;
                &all[self.range.start..self.range.end]
            },
        }
    }
}

impl<T, const CAP: usize> Default for SmallArcSlice<T, CAP> {
    /// The empty handle: inline, unless no inline buffer of capacity `CAP`
    /// can be had.
    fn default() -> (out: Self)
        ensures
            out@ == Seq::<T>::empty(),
            out.inline_backed() <==> fits_inline(0, CAP),
    {
        let out = if CAP <= MAX_INLINE_CAP {
            SmallArcSlice { inner: SmallArcSliceInner::Inline(InlineItems::new()), range: 0..0 }
        } else {
            Self::shared_over(Vec::new())
        };
        assert(out@ =~= Seq::<T>::empty());
        out
    }
}

impl<T, const CAP: usize, const N: usize> From<[T; N]> for SmallArcSlice<T, CAP> {
    /// A handle on the items of the array: inline where there are at most
    /// `CAP` of them and an inline buffer of that capacity can be had, in a
    /// shared buffer otherwise.
    fn from(values: [T; N]) -> (out: Self)
        ensures
            out@ == values@,
            out.inline_backed() <==> fits_inline(N as nat, CAP),
    {
        if N <= CAP && CAP <= MAX_INLINE_CAP {
            let items = InlineItems::from_array(values);
            assert(items@.subrange(0, N as int) =~= items@);
            SmallArcSlice { inner: SmallArcSliceInner::Inline(items), range: 0..N }
        } else {
            let buf = shared_from_array(values);
            assert(buf@.subrange(0, N as int) =~= buf@);
            SmallArcSlice { inner: SmallArcSliceInner::Shared(buf), range: 0..N }
        }
    }
}

/// What `from` returns is stated by `from` itself, over the view: a handle
/// is known by its visible elements, not by the storage behind it.
impl<T, const CAP: usize, const N: usize> vstd::std_specs::convert::FromSpecImpl<[T; N]> for SmallArcSlice<T, CAP> {
    open spec fn obeys_from_spec() -> bool {
        false
    }

    open spec fn from_spec(values: [T; N]) -> Self {
        arbitrary()
    }
}

impl<T: Clone, const CAP: usize> SmallArcSliceInner<T, CAP> {
    /// The same form of backing with the same length: for inline storage a
    /// clone of each item, for shared storage the buffer itself.
    fn duplicate(&self) -> (out: Self)
        requires
            self is Inline ==> CAP <= MAX_INLINE_CAP,
        ensures
            out is Inline <==> self is Inline,
            out.stored().len() == self.stored().len(),
            forall|i: int|
                0 <= i < out.stored().len() ==> cloned(self.stored()[i], #[trigger] out.stored()[i]),
            self is Shared ==> out.stored() == self.stored(),
    {
        match self {
            SmallArcSliceInner::Inline(items) => SmallArcSliceInner::Inline(items.duplicate()),
            SmallArcSliceInner::Shared(buf) => SmallArcSliceInner::Shared(shared_clone(buf)),
        }
    }
}

impl<T: Clone, const CAP: usize> Clone for SmallArcSlice<T, CAP> {
    /// A handle with the same form of backing, on the same range. A shared
    /// buffer is shared once more; inline elements are cloned one by one.
    fn clone(&self) -> (out: Self)
        ensures
            out.inline_backed() == self.inline_backed(),
            out@.len() == self@.len(),
            forall|i: int| 0 <= i < out@.len() ==> cloned(self@[i], #[trigger] out@[i]),
            !self.inline_backed() ==> out@ == self@,
    {
        proof {
            use_type_invariant(self);
        }
        SmallArcSlice { inner: self.inner.duplicate(), range: self.range.start..self.range.end }
    }
}

impl<T: Clone, const CAP: usize> ArcSliceSplit for SmallArcSlice<T, CAP> {
    type Item = T;

    open spec fn elements(&self) -> Seq<T> {
        self@
    }

    /// A remainder of a shared handle sees the same buffer; one of an inline
    /// handle holds clones.
    open spec fn exact(&self) -> bool {
        !self.inline_backed()
    }

    /// A remainder of an inline handle holds clones; one of a shared handle
    /// sees the same buffer, and every value counts as a clone of itself.
    open spec fn carried(from: T, to: T) -> bool {
        cloned(from, to)
    }

    fn arc_slice_split_first(&self) -> (out: Option<(&T, Self)>)
        ensures
            out matches Some((_, rest)) ==> {
                &&& rest.inline_backed() == self.inline_backed()
                &&& !self.inline_backed() ==> rest@ == self@.drop_first()
            },
    {
        proof {
            use_type_invariant(self);
        }
        if self.range.start < self.range.end {
            let rest = SmallArcSlice {
                inner: self.inner.duplicate(),
                range: (self.range.start + 1)..self.range.end,
            };
            assert(!self.inline_backed() ==> rest@ =~= self@.drop_first());
            Some((&self.raw_inner_slice()[0], rest))
        } else {
            None
        }
    }

    fn arc_slice_split_last(&self) -> (out: Option<(&T, Self)>)
        ensures
            out matches Some((_, rest)) ==> {
                &&& rest.inline_backed() == self.inline_backed()
                &&& !self.inline_backed() ==> rest@ == self@.drop_last()
            },
    {
        proof {
            use_type_invariant(self);
        }
        if self.range.start < self.range.end {
            let rest = SmallArcSlice {
                inner: self.inner.duplicate(),
                range: self.range.start..(self.range.end - 1),
            };
            assert(!self.inline_backed() ==> rest@ =~= self@.drop_last());
            let visible = self.raw_inner_slice();
            Some((&visible[visible.len() - 1], rest))
        } else {
            None
        }
    }
}

impl<T, const CAP: usize> std::ops::Deref for SmallArcSlice<T, CAP> {
    type Target = [T];

    /// The visible elements, to be read as any slice is.
    fn deref(&self) -> (out: &[T])
        ensures
            out@ == self@,
    {
        self.raw_inner_slice()
    }
}

impl<T: std::hash::Hash, const CAP: usize> std::hash::Hash for SmallArcSlice<T, CAP> {
    /// Feeds the visible elements to the hasher, as a slice of them would.
    fn hash<H: std::hash::Hasher>(&self, state: &mut H) {
        hash_slice(self.raw_inner_slice(), state)
    }
}

impl<T: std::fmt::Debug, const CAP: usize> std::fmt::Debug for SmallArcSlice<T, CAP> {
    /// Formats the visible elements as a slice of them is formatted.
    fn fmt(&self, f: &mut std::fmt::Formatter<'_>) -> Result<(), std::fmt::Error> {
        fmt_slice(self.raw_inner_slice(), f)
    }
}

impl<T: PartialEq, const CAP1: usize, const CAP2: usize> PartialEq<SmallArcSlice<T, CAP2>> for SmallArcSlice<T, CAP1> {
    /// Whether the two handles show equal elements, whatever their
    /// capacities and the storage behind them.
    fn eq(&self, other: &SmallArcSlice<T, CAP2>) -> (out: bool) {
        slice_eq(self.raw_inner_slice(), other.raw_inner_slice())
    }
}

impl<T: PartialEq, const CAP1: usize, const CAP2: usize> vstd::std_specs::cmp::PartialEqSpecImpl<SmallArcSlice<T, CAP2>> for SmallArcSlice<T, CAP1> {
    open spec fn obeys_eq_spec() -> bool {
        T::obeys_eq_spec()
    }

    open spec fn eq_spec(&self, other: &SmallArcSlice<T, CAP2>) -> bool {
        items_eq(self@, other@)
    }
}

impl<T: Eq, const CAP: usize> Eq for SmallArcSlice<T, CAP> {

}

impl<T: PartialOrd, const CAP1: usize, const CAP2: usize> PartialOrd<SmallArcSlice<T, CAP2>> for SmallArcSlice<T, CAP1> {
    /// How the visible elements of the two handles stand in lexicographic
    /// order, whatever their capacities.
    fn partial_cmp(&self, other: &SmallArcSlice<T, CAP2>) -> (out: Option<Ordering>) {
        slice_partial_order(self.raw_inner_slice(), other.raw_inner_slice())
    }
}

impl<T: PartialOrd, const CAP1: usize, const CAP2: usize> vstd::std_specs::cmp::PartialOrdSpecImpl<SmallArcSlice<T, CAP2>> for SmallArcSlice<T, CAP1> {
    open spec fn obeys_partial_cmp_spec() -> bool {
        T::obeys_partial_cmp_spec()
    }

    open spec fn partial_cmp_spec(&self, other: &SmallArcSlice<T, CAP2>) -> Option<Ordering> {
        lex_order(self@, other@)
    }
}

} // verus!
