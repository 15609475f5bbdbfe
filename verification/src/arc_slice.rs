//! The shared slice: a reference-counted buffer seen through an index range.

use crate::collect::drain_into;
use crate::iter::ArcSliceIter;
use crate::compare::{
    eq_is_identity, items_eq, lemma_items_eq_is_equality, lex_order, lex_total_order, slice_eq,
    slice_order, slice_partial_order,
};
use crate::observe::{fmt_slice, hash_slice};
use crate::shared::{shared_clone, shared_from_array, shared_from_vec};
use crate::split::{carries_exactly, ArcSliceSplit};
use std::cmp::Ordering;
use std::ops::Range;
use std::sync::Arc;
use vstd::prelude::*;
use vstd::std_specs::cmp::{OrdSpec, PartialEqSpec, PartialOrdSpec};
use vstd::std_specs::iter::IteratorSpec;

verus! {

enum ArcSliceInner<T> {
    Empty,
    Shared(Arc<[T]>, Range<usize>),
}

/// An immutable view of a range of a reference-counted buffer. Cloning it
/// and trimming it at either end leave the buffer's contents where they are.
pub struct ArcSlice<T> {
    inner: ArcSliceInner<T>,
}

impl<T> View for ArcSlice<T> {
    type V = Seq<T>;

    /// The visible elements: those of the buffer that lie in the range.
    closed spec fn view(&self) -> Seq<T> {
        match self.inner {
            ArcSliceInner::Empty => Seq::empty(),
            ArcSliceInner::Shared(buf, range) => buf@.subrange(
                range.start as int,
                range.end as int,
            ),
        }
    }
}

impl<T> ArcSlice<T> {
    #[verifier::type_invariant]
    spec fn range_in_buffer(self) -> bool {
        match self.inner {
            ArcSliceInner::Empty => true,
            ArcSliceInner::Shared(buf, range) => range.start <= range.end <= buf@.len(),
        }
    }

    /// The handle refers to a buffer; one that does not shows no elements.
    pub closed spec fn holds_buffer(&self) -> bool {
        self.inner is Shared
    }

    /// A handle on everything that `iter` yields, in order. The source is
    /// drained; no buffer is made where it yields nothing.
    pub fn from_iter<I: Iterator<Item = T>>(iter: I) -> (out: Self)
        requires
            iter.obeys_prophetic_iter_laws(),
            iter.decrease() is Some,
        ensures
            out@ == iter.remaining(),
            out.holds_buffer() <==> iter.remaining().len() > 0,
    {
        let mut items: Vec<T> = Vec::new();
        drain_into(&mut items, iter);
        assert(items@ =~= iter.remaining());
        let count = items.len();
        if count == 0 {
            ArcSlice { inner: ArcSliceInner::Empty }
        } else {
            let buf = shared_from_vec(items);
            assert(buf@.subrange(0, count as int) =~= buf@);
            ArcSlice { inner: ArcSliceInner::Shared(buf, 0..count) }
        }
    }

    /// An iterator that hands out clones of the visible elements, first to
    /// last, and keeps the handle on what remains.
    pub fn into_iter(self) -> (out: ArcSliceIter<Self>) where T: Clone
        ensures
            out.remaining() == self@,
            out.exact(),
    {
        ArcSliceIter::new(self)
    }

    /// Splitting hands on the very elements: a remainder shows exactly the
    /// elements that are left.
    pub proof fn lemma_carries_exactly()
        ensures
            carries_exactly::<Self>(),
    {
    }

    /// Two handles are equal exactly when they show the same elements, for
    /// elements whose `==` is identity: neither buffer nor range is part of
    /// what a handle is.
    pub proof fn lemma_eq_iff_same_elements(self, other: Self) where T: PartialEq
        requires
            eq_is_identity::<T>(),
        ensures
            self.eq_spec(&other) <==> (self@ == other@),
    {
        lemma_items_eq_is_equality(self@, other@);
    }

    /// How the visible elements of the two handles stand in lexicographic
    /// order, under a total order of the elements, whatever buffers and ranges
    /// stand behind them.
    pub fn cmp(&self, other: &Self) -> (out: Ordering) where T: Ord
        ensures
            T::obeys_cmp_spec() ==> out == lex_total_order(self@, other@),
    {
        slice_order(self.raw_inner_slice(), other.raw_inner_slice())
    }

    /// The visible elements as an ordinary slice.
    pub fn raw_inner_slice(&self) -> (out: &[T])
        ensures
            out@ == self@,
    {
        proof {
            use_type_invariant(self);
        }
        match &self.inner {
            ArcSliceInner::Empty => &[],
            ArcSliceInner::Shared(buf, range) => {
                let all: &[T] = &buf;
                &all[range.start..range.end]
            },
        }
    }
}

impl<T> ArcSliceSplit for ArcSlice<T> {
    type Item = T;

    open spec fn elements(&self) -> Seq<T> {
        self@
    }

    /// A remainder sees the same buffer.
    open spec fn exact(&self) -> bool {
        true
    }

    /// A remainder sees the same buffer, so its elements are the very
    /// elements of the handle it came from.
    open spec fn carried(from: T, to: T) -> bool {
        from == to
    }

    fn arc_slice_split_first(&self) -> (out: Option<(&T, Self)>)
        ensures
            out matches Some((_, rest)) ==> rest@ == self@.drop_first() && rest.holds_buffer(),
    {
        proof {
            use_type_invariant(self);
        }
        match &self.inner {
            ArcSliceInner::Empty => None,
            ArcSliceInner::Shared(buf, range) => {
                if range.start < range.end {
                    let rest = ArcSlice {
                        inner: ArcSliceInner::Shared(
                            shared_clone(buf),
                            (range.start + 1)..range.end,
                        ),
                    };
                    assert(rest@ =~= self@.drop_first());
                    Some((&buf[range.start], rest))
                } else {
                    None
                }
            },
        }
    }

    fn arc_slice_split_last(&self) -> (out: Option<(&T, Self)>)
        ensures
            out matches Some((_, rest)) ==> rest@ == self@.drop_last() && rest.holds_buffer(),
    {
        proof {
            use_type_invariant(self);
        }
        match &self.inner {
            ArcSliceInner::Empty => None,
            ArcSliceInner::Shared(buf, range) => {
                if range.start < range.end {
                    let rest = ArcSlice {
                        inner: ArcSliceInner::Shared(
                            shared_clone(buf),
                            range.start..(range.end - 1),
                        ),
                    };
                    assert(rest@ =~= self@.drop_last());
                    Some((&buf[range.end - 1], rest))
                } else {
                    None
                }
            },
        }
    }
}

impl<T> Default for ArcSlice<T> {
    /// The empty handle, which owns no buffer.
    fn default() -> (out: Self)
        ensures
            out@ == Seq::<T>::empty(),
            !out.holds_buffer(),
    {
        ArcSlice { inner: ArcSliceInner::Empty }
    }
}

impl<T> Clone for ArcSlice<T> {
    /// Another handle on the same buffer and range.
    fn clone(&self) -> (out: Self)
        ensures
            out@ == self@,
            out.holds_buffer() == self.holds_buffer(),
    {
        proof {
            use_type_invariant(self);
        }
        match &self.inner {
            ArcSliceInner::Empty => ArcSlice { inner: ArcSliceInner::Empty },
            ArcSliceInner::Shared(buf, range) => ArcSlice {
                inner: ArcSliceInner::Shared(shared_clone(buf), range.start..range.end),
            },
        }
    }
}

impl<T, const N: usize> From<[T; N]> for ArcSlice<T> {
    /// A handle on the items of the array; no buffer is made for none.
    fn from(values: [T; N]) -> (out: Self)
        ensures
            out@ == values@,
            out.holds_buffer() <==> N > 0,
    {
        if N == 0 {
            assert(values@ =~= Seq::<T>::empty());
            ArcSlice { inner: ArcSliceInner::Empty }
        } else {
            let buf = shared_from_array(values);
            assert(buf@.subrange(0, N as int) =~= buf@);
            ArcSlice { inner: ArcSliceInner::Shared(buf, 0..N) }
        }
    }
}

/// What `from` returns is stated by `from` itself, over the view: a handle
/// is known by its visible elements, not by the buffer behind it.
impl<T, const N: usize> vstd::std_specs::convert::FromSpecImpl<[T; N]> for ArcSlice<T> {
    open spec fn obeys_from_spec() -> bool {
        false
    }

    open spec fn from_spec(values: [T; N]) -> Self {
        arbitrary()
    }
}

impl<T> std::ops::Deref for ArcSlice<T> {
    type Target = [T];

    /// The visible elements, to be read as any slice is.
    fn deref(&self) -> (out: &[T])
        ensures
            out@ == self@,
    {
        self.raw_inner_slice()
    }
}

impl<T: std::hash::Hash> std::hash::Hash for ArcSlice<T> {
    /// Feeds the visible elements to the hasher, as a slice of them would.
    fn hash<H: std::hash::Hasher>(&self, state: &mut H) {
        hash_slice(self.raw_inner_slice(), state)
    }
}

impl<T: std::fmt::Debug> std::fmt::Debug for ArcSlice<T> {
    /// Formats the visible elements as a slice of them is formatted.
    fn fmt(&self, f: &mut std::fmt::Formatter<'_>) -> Result<(), std::fmt::Error> {
        fmt_slice(self.raw_inner_slice(), f)
    }
}

impl<T: PartialEq> PartialEq for ArcSlice<T> {
    /// Whether the two handles show equal elements, whatever buffers and
    /// ranges stand behind them.
    fn eq(&self, other: &Self) -> (out: bool) {
        slice_eq(self.raw_inner_slice(), other.raw_inner_slice())
    }
}

impl<T: PartialEq> vstd::std_specs::cmp::PartialEqSpecImpl for ArcSlice<T> {
    open spec fn obeys_eq_spec() -> bool {
        T::obeys_eq_spec()
    }

    open spec fn eq_spec(&self, other: &Self) -> bool {
        items_eq(self@, other@)
    }
}

impl<T: Eq> Eq for ArcSlice<T> {

}

impl<T: PartialOrd> PartialOrd for ArcSlice<T> {
    /// How the visible elements of the two handles stand in lexicographic
    /// order.
    fn partial_cmp(&self, other: &Self) -> (out: Option<Ordering>) {
        slice_partial_order(self.raw_inner_slice(), other.raw_inner_slice())
    }
}

impl<T: PartialOrd> vstd::std_specs::cmp::PartialOrdSpecImpl for ArcSlice<T> {
    open spec fn obeys_partial_cmp_spec() -> bool {
        T::obeys_partial_cmp_spec()
    }

    open spec fn partial_cmp_spec(&self, other: &Self) -> Option<Ordering> {
        lex_order(self@, other@)
    }
}

} // verus!
