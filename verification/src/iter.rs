//! Consuming iteration over any handle that can be split at its front.

use crate::split::{
    carried_all, carried_over, carries_exactly, lemma_carried_over_exact, ArcSliceSplit,
};
use vstd::prelude::*;

verus! {

/// Hands out clones of a handle's elements, front to back, by splitting the
/// handle again and again and keeping the remainder.
#[derive(Clone)]
pub struct ArcSliceIter<I> {
    slice: I,
}

impl<I: ArcSliceSplit> ArcSliceIter<I> where I::Item: Clone {
    /// The elements that are still to be handed out.
    pub closed spec fn remaining(&self) -> Seq<I::Item> {
        self.slice.elements()
    }

    /// What remains after a step is the very elements that were left, as it
    /// is over a handle whose remainders are exact.
    pub closed spec fn exact(&self) -> bool {
        self.slice.exact()
    }

    /// An iterator over all of `slice`.
    pub(crate) fn new(slice: I) -> (out: Self)
        ensures
            out.remaining() == slice.elements(),
            out.exact() == slice.exact(),
    {
        ArcSliceIter { slice }
    }

    /// A clone of the first remaining element, which is then no longer
    /// remaining; `None`, with nothing changed, exactly when none remains.
    pub fn next(&mut self) -> (out: Option<I::Item>)
        ensures
            out is None <==> old(self).remaining().len() == 0,
            out is None ==> final(self).remaining() == old(self).remaining(),
            final(self).exact() == old(self).exact(),
            out matches Some(item) ==> {
                &&& cloned(old(self).remaining().first(), item)
                &&& carried_all::<I>(old(self).remaining().drop_first(), final(self).remaining())
                &&& old(self).exact() ==> final(self).remaining() == old(self).remaining().drop_first()
            },
    {
        if let Some((first, rest)) = self.slice.arc_slice_split_first() {
            let item = first.clone();
            self.slice = rest;
            Some(item)
        } else {
            None
        }
    }

    /// `item` is a clone of what `from` has become after being carried over
    /// `steps` times: what the iterator hands out for the element that
    /// stood `steps` places behind the first.
    pub open spec fn handed_out(steps: nat, from: I::Item, item: I::Item) -> bool {
        exists|held: I::Item| #[trigger] carried_over::<I>(steps, from, held) && cloned(held, item)
    }

    /// Where splitting hands on the very elements, what is handed out for
    /// an element is a clone of that element.
    pub proof fn lemma_handed_out_exact(steps: nat, from: I::Item, item: I::Item)
        requires
            carries_exactly::<I>(),
            Self::handed_out(steps, from, item),
        ensures
            cloned(from, item),
    {
        let held = choose|held: I::Item| #[trigger]
            carried_over::<I>(steps, from, held) && cloned(held, item);
        lemma_carried_over_exact::<I>(steps, from, held);
    }

    /// Clones of all remaining elements, front to back: as many as remain,
    /// the one in place `i` a clone of what the element in place `i` has
    /// become in the `i` splits before its turn. Where remainders are exact,
    /// for this handle or for all of its type, that is a clone of the
    /// element itself.
    pub fn into_vec(self) -> (out: Vec<I::Item>)
        ensures
            out@.len() == self.remaining().len(),
            forall|i: int|
                0 <= i < out@.len() ==> Self::handed_out(
                    i as nat,
                    self.remaining()[i],
                    #[trigger] out@[i],
                ),
            self.exact() || carries_exactly::<I>() ==> forall|i: int|
                0 <= i < out@.len() ==> cloned(self.remaining()[i], #[trigger] out@[i]),
    {
        let ghost source = self.remaining();
        let mut iter = self;
        let mut items: Vec<I::Item> = Vec::new();
        loop
            invariant
                items@.len() + iter.remaining().len() == source.len(),
                iter.exact() == self.exact(),
                self.exact() ==> iter.remaining() == source.skip(items@.len() as int),
                self.exact() ==> forall|i: int|
                    0 <= i < items@.len() ==> cloned(source[i], #[trigger] items@[i]),
                forall|j: int|
                    0 <= j < iter.remaining().len() ==> carried_over::<I>(
                        items@.len(),
                        source[items@.len() + j],
                        #[trigger] iter.remaining()[j],
                    ),
                forall|i: int|
                    0 <= i < items@.len() ==> Self::handed_out(
                        i as nat,
                        source[i],
                        #[trigger] items@[i],
                    ),
            ensures
                items@.len() == source.len(),
                self.exact() ==> forall|i: int|
                    0 <= i < items@.len() ==> cloned(source[i], #[trigger] items@[i]),
                forall|i: int|
                    0 <= i < items@.len() ==> Self::handed_out(
                        i as nat,
                        source[i],
                        #[trigger] items@[i],
                    ),
            decreases iter.remaining().len(),
        {
            let ghost before = iter.remaining();
            let ghost done = items@;
            match iter.next() {
                Some(item) => {
                    items.push(item);
                    proof {
                        if self.exact() {
                            assert(before.first() == source[done.len() as int]);
                            assert(iter.remaining() =~= source.skip(items@.len() as int));
                            assert forall|i: int| 0 <= i < items@.len() implies cloned(
                                source[i],
                                #[trigger] items@[i],
                            ) by {
                                if i < done.len() {
                                    assert(items@[i] == done[i]);
                                }
                            }
                        }
                        assert(carried_over::<I>(done.len(), source[done.len() as int], before[0]));
                        assert(Self::handed_out(done.len(), source[done.len() as int], item));
                        assert forall|j: int| 0 <= j < iter.remaining().len() implies carried_over::<
                            I,
                        >(items@.len(), source[items@.len() + j], #[trigger] iter.remaining()[j]) by {
                            assert(carried_over::<I>(
                                done.len(),
                                source[done.len() + (j + 1)],
                                before[j + 1],
                            ));
                            assert(before.drop_first()[j] == before[j + 1]);
                            assert(I::carried(before[j + 1], iter.remaining()[j]));
                        }
                        assert forall|i: int| 0 <= i < items@.len() implies Self::handed_out(
                            i as nat,
                            source[i],
                            #[trigger] items@[i],
                        ) by {
                            if i < done.len() {
                                assert(items@[i] == done[i]);
                            }
                        }
                    }
                },
                None => {
                    break ;
                },
            }
        }
        proof {
            if !self.exact() && carries_exactly::<I>() {
                assert forall|i: int| 0 <= i < items@.len() implies cloned(
                    source[i],
                    #[trigger] items@[i],
                ) by {
                    Self::lemma_handed_out_exact(i as nat, source[i], items@[i]);
                }
            }
        }
        items
    }
}

} // verus!
