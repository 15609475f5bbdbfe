//! The capability shared by every handle: giving up one element at an end.

use vstd::prelude::*;

verus! {

/// A sequence handle that can hand out its first or last element together
/// with a new handle for what is left, leaving itself untouched.
pub trait ArcSliceSplit: Sized {
    type Item;

    /// The elements visible through the handle, in order.
    spec fn elements(&self) -> Seq<Self::Item>;

    /// A remainder of this handle shows the very elements that are left, as
    /// it does where the backing is shared. A remainder keeps this.
    spec fn exact(&self) -> bool;

    /// How an element seen through a remainder relates to the element of the
    /// handle it was split from: the same value where the backing is shared,
    /// a clone of it where the backing is duplicated.
    spec fn carried(from: Self::Item, to: Self::Item) -> bool;

    /// The first element and a handle for the elements after it, or `None`
    /// exactly when the handle is empty.
    fn arc_slice_split_first(&self) -> (out: Option<(&Self::Item, Self)>)
        ensures
            out is None <==> self.elements().len() == 0,
            out matches Some((first, rest)) ==> {
                &&& *first == self.elements().first()
                &&& rest.exact() == self.exact()
                &&& self.exact() ==> rest.elements() == self.elements().drop_first()
                &&& rest.elements().len() == self.elements().len() - 1
                &&& forall|i: int|
                    0 <= i < rest.elements().len() ==> Self::carried(
                        self.elements()[i + 1],
                        #[trigger] rest.elements()[i],
                    )
            },
    ;

    /// The last element and a handle for the elements before it, or `None`
    /// exactly when the handle is empty.
    fn arc_slice_split_last(&self) -> (out: Option<(&Self::Item, Self)>)
        ensures
            out is None <==> self.elements().len() == 0,
            out matches Some((last, rest)) ==> {
                &&& *last == self.elements().last()
                &&& rest.exact() == self.exact()
                &&& self.exact() ==> rest.elements() == self.elements().drop_last()
                &&& rest.elements().len() == self.elements().len() - 1
                &&& forall|i: int|
                    0 <= i < rest.elements().len() ==> Self::carried(
                        self.elements()[i],
                        #[trigger] rest.elements()[i],
                    )
            },
    ;
}

/// `to` has the length of `from`, and each of its elements is carried over
/// from the element of `from` at the same position.
pub open spec fn carried_all<S: ArcSliceSplit>(from: Seq<S::Item>, to: Seq<S::Item>) -> bool {
    &&& to.len() == from.len()
    &&& forall|i: int| 0 <= i < to.len() ==> S::carried(from[i], #[trigger] to[i])
}

/// Splitting any handle of type `S` hands on the very elements, not copies
/// that may differ from them.
pub open spec fn carries_exactly<S: ArcSliceSplit>() -> bool {
    forall|a: S::Item, b: S::Item| #[trigger] S::carried(a, b) ==> a == b
}

/// A clone of a value of type `T` is that value.
pub open spec fn clone_is_identity<T: Clone>() -> bool {
    forall|a: T, b: T| #[trigger] cloned(a, b) ==> a == b
}

/// Where elements are carried exactly, a carried sequence is the sequence.
pub proof fn lemma_carried_all_exact<S: ArcSliceSplit>(from: Seq<S::Item>, to: Seq<S::Item>)
    requires
        carries_exactly::<S>(),
        carried_all::<S>(from, to),
    ensures
        to == from,
{
    assert(to =~= from);
}

/// `to` is what `from` has become after being carried over `steps` times in
/// a row, as an element is that stays behind in `steps` splits.
pub open spec fn carried_over<S: ArcSliceSplit>(steps: nat, from: S::Item, to: S::Item) -> bool
    decreases steps,
{
    if steps == 0 {
        from == to
    } else {
        exists|mid: S::Item|
            carried_over::<S>((steps - 1) as nat, from, mid) && #[trigger] S::carried(mid, to)
    }
}

/// Where elements are carried exactly, carrying one over any number of
/// times leaves it as it was.
pub proof fn lemma_carried_over_exact<S: ArcSliceSplit>(steps: nat, from: S::Item, to: S::Item)
    requires
        carries_exactly::<S>(),
        carried_over::<S>(steps, from, to),
    ensures
        to == from,
    decreases steps,
{
    if steps > 0 {
        let mid = choose|mid: S::Item|
            carried_over::<S>((steps - 1) as nat, from, mid) && #[trigger] S::carried(mid, to);
        lemma_carried_over_exact::<S>((steps - 1) as nat, from, mid);
    }
}

} // verus!
