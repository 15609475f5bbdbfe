//! Comparing handles by what they show: equality and lexicographic order of
//! element sequences, with the elements compared as their own type says.

use crate::split::clone_is_identity;
use std::cmp::Ordering;
use vstd::prelude::*;
use vstd::std_specs::cmp::{OrdSpec, PartialEqSpec, PartialOrdSpec};

verus! {

/// The two sequences have one length and are equal place by place, by the
/// elements' own `==`.
pub open spec fn items_eq<T: PartialEq>(a: Seq<T>, b: Seq<T>) -> bool {
    &&& a.len() == b.len()
    &&& forall|i: int| 0 <= i < a.len() ==> #[trigger] a[i].eq_spec(&b[i])
}

/// Lexicographic order: the first place where the elements do not compare
/// as equal decides, by the elements' own comparison; where there is none,
/// the shorter sequence comes first.
pub open spec fn lex_order<T: PartialOrd>(a: Seq<T>, b: Seq<T>) -> Option<Ordering>
    decreases a.len(),
{
    if a.len() == 0 {
        if b.len() == 0 {
            Some(Ordering::Equal)
        } else {
            Some(Ordering::Less)
        }
    } else if b.len() == 0 {
        Some(Ordering::Greater)
    } else {
        match a.first().partial_cmp_spec(&b.first()) {
            Some(Ordering::Equal) => lex_order(a.drop_first(), b.drop_first()),
            decided => decided,
        }
    }
}

/// The elements' own `==` holds of two values exactly when they are the same
/// value.
pub open spec fn eq_is_identity<T: PartialEq>() -> bool {
    forall|x: T, y: T| #[trigger] x.eq_spec(&y) <==> x == y
}

/// Where the elements' `==` is identity, two sequences are equal place by
/// place exactly when they are the same sequence.
pub proof fn lemma_items_eq_is_equality<T: PartialEq>(a: Seq<T>, b: Seq<T>)
    requires
        eq_is_identity::<T>(),
    ensures
        items_eq(a, b) <==> a == b,
{
    if items_eq(a, b) {
        assert forall|i: int| 0 <= i < a.len() implies a[i] == b[i] by {
            assert(a[i].eq_spec(&b[i]));
        }
        assert(a =~= b);
    }
}

/// Where every element is a clone of the one in its place, and a clone is
/// the value it was made from, the two sequences are the same.
pub proof fn lemma_exact_clones_are_equal<T: Clone>(a: Seq<T>, b: Seq<T>)
    requires
        clone_is_identity::<T>(),
        b.len() == a.len(),
        forall|i: int| 0 <= i < b.len() ==> cloned(a[i], #[trigger] b[i]),
    ensures
        b == a,
{
    assert(b =~= a);
}

/// Whether two slices are equal place by place.
pub fn slice_eq<T: PartialEq>(a: &[T], b: &[T]) -> (out: bool)
    ensures
        T::obeys_eq_spec() ==> out == items_eq(a@, b@),
{
    if a.len() != b.len() {
        return false;
    }
    let mut i: usize = 0;
    while i < a.len()
        invariant
            i <= a.len(),
            a.len() == b.len(),
            T::obeys_eq_spec() ==> forall|j: int| 0 <= j < i ==> #[trigger] a@[j].eq_spec(&b@[j]),
        decreases a.len() - i,
    {
        if !(a[i] == b[i]) {
            return false;
        }
        i += 1;
    }
    true
}

/// Past a first place where the elements compare as equal, the order of two
/// sequences is the order of what follows that place.
proof fn lemma_lex_order_step<T: PartialOrd>(a: Seq<T>, b: Seq<T>, at: int)
    requires
        0 <= at < a.len(),
        at < b.len(),
    ensures
        lex_order(a.skip(at), b.skip(at)) == match a[at].partial_cmp_spec(&b[at]) {
            Some(Ordering::Equal) => lex_order(a.skip(at + 1), b.skip(at + 1)),
            decided => decided,
        },
{
    assert(a.skip(at).drop_first() =~= a.skip(at + 1));
    assert(b.skip(at).drop_first() =~= b.skip(at + 1));
}

/// How two slices stand in lexicographic order.
pub fn slice_partial_order<T: PartialOrd>(a: &[T], b: &[T]) -> (out: Option<Ordering>)
    ensures
        T::obeys_partial_cmp_spec() ==> out == lex_order(a@, b@),
{
    let shorter: usize = if a.len() < b.len() {
        a.len()
    } else {
        b.len()
    };
    let mut i: usize = 0;
    let ghost mut done: int = 0;
    assert(a@.skip(0) =~= a@ && b@.skip(0) =~= b@);
    while i < shorter
        invariant
            done == i,
            i <= shorter,
            shorter <= a.len(),
            shorter <= b.len(),
            T::obeys_partial_cmp_spec() ==> lex_order(a@, b@) == lex_order(
                a@.skip(done),
                b@.skip(done),
            ),
        decreases shorter - i,
    {
        proof {
            lemma_lex_order_step(a@, b@, done);
        }
        match a[i].partial_cmp(&b[i]) {
            Some(Ordering::Equal) => {},
            decided => {
                return decided;
            },
        }
        i += 1;
        proof {
            done = done + 1;
        }
    }
    if a.len() < b.len() {
        Some(Ordering::Less)
    } else if a.len() == b.len() {
        Some(Ordering::Equal)
    } else {
        Some(Ordering::Greater)
    }
}

/// Lexicographic order under a total order of the elements: the first
/// place where the elements do not compare as equal decides; where there is
/// none, the shorter sequence comes first.
pub open spec fn lex_total_order<T: Ord>(a: Seq<T>, b: Seq<T>) -> Ordering
    decreases a.len(),
{
    if a.len() == 0 {
        if b.len() == 0 {
            Ordering::Equal
        } else {
            Ordering::Less
        }
    } else if b.len() == 0 {
        Ordering::Greater
    } else {
        match a.first().cmp_spec(&b.first()) {
            Ordering::Equal => lex_total_order(a.drop_first(), b.drop_first()),
            decided => decided,
        }
    }
}

/// Past a first place where the elements compare as equal, the order of two
/// sequences is the order of what follows that place.
proof fn lemma_lex_total_order_step<T: Ord>(a: Seq<T>, b: Seq<T>, at: int)
    requires
        0 <= at < a.len(),
        at < b.len(),
    ensures
        lex_total_order(a.skip(at), b.skip(at)) == match a[at].cmp_spec(&b[at]) {
            Ordering::Equal => lex_total_order(a.skip(at + 1), b.skip(at + 1)),
            decided => decided,
        },
{
    assert(a.skip(at).drop_first() =~= a.skip(at + 1));
    assert(b.skip(at).drop_first() =~= b.skip(at + 1));
}

/// How two slices stand in lexicographic order, under a total order of the
/// elements.
pub fn slice_order<T: Ord>(a: &[T], b: &[T]) -> (out: Ordering)
    ensures
        T::obeys_cmp_spec() ==> out == lex_total_order(a@, b@),
{
    let shorter: usize = if a.len() < b.len() {
        a.len()
    } else {
        b.len()
    };
    let mut i: usize = 0;
    let ghost mut done: int = 0;
    assert(a@.skip(0) =~= a@ && b@.skip(0) =~= b@);
    while i < shorter
        invariant
            done == i,
            i <= shorter,
            shorter <= a.len(),
            shorter <= b.len(),
            T::obeys_cmp_spec() ==> lex_total_order(a@, b@) == lex_total_order(
                a@.skip(done),
                b@.skip(done),
            ),
        decreases shorter - i,
    {
        proof {
            lemma_lex_total_order_step(a@, b@, done);
        }
        match a[i].cmp(&b[i]) {
            Ordering::Equal => {},
            decided => {
                return decided;
            },
        }
        i += 1;
        proof {
            done = done + 1;
        }
    }
    if a.len() < b.len() {
        Ordering::Less
    } else if a.len() == b.len() {
        Ordering::Equal
    } else {
        Ordering::Greater
    }
}

} // verus!
