//! Gathering the items of a source into a vector.

use vstd::prelude::*;
use vstd::std_specs::iter::IteratorSpec;

verus! {

/// Appends to `items` everything that `iter` still yields, in order.
pub(crate) fn drain_into<T, I: Iterator<Item = T>>(items: &mut Vec<T>, iter: I)
    requires
        iter.obeys_prophetic_iter_laws(),
        iter.decrease() is Some,
    ensures
        final(items)@ == old(items)@ + iter.remaining(),
{
    let ghost source = iter.remaining();
    let ghost start = items@;
    let mut iter = iter;
    loop
        invariant
            iter.obeys_prophetic_iter_laws(),
            iter.decrease() is Some,
            items@ + iter.remaining() == start + source,
        ensures
            items@ == start + source,
        decreases iter.decrease()->0,
    {
        match iter.next() {
            Some(value) => {
                items.push(value);
                assert(items@ + iter.remaining() =~= start + source);
            },
            None => {
                assert(items@ + iter.remaining() =~= items@);
                break ;
            },
        }
    }
}

} // verus!
