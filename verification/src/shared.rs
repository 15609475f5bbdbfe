//! Reference-counted buffers: the calls into `std::sync::Arc` that the
//! handles are built on.

use std::sync::Arc;
use vstd::prelude::*;

verus! {

/// `Arc::<[T]>::clone`: another pointer to the same buffer, so the elements
/// seen through it are those of `buf`.
#[verifier::external_body]
pub(crate) fn shared_clone<T>(buf: &Arc<[T]>) -> (out: Arc<[T]>)
    ensures
        out@ == buf@,
{
    Arc::clone(buf)
}

/// `Arc::<[T]>::from(Vec<T>)`: a new buffer that holds the items of the
/// vector, moved into it in order.
#[verifier::external_body]
pub(crate) fn shared_from_vec<T>(items: Vec<T>) -> (out: Arc<[T]>)
    ensures
        out@ == items@,
{
    Arc::from(items)
}

/// `Arc::<[T]>::from([T; N])`: a new buffer that holds the items of the
/// array, moved into it in order.
#[verifier::external_body]
pub(crate) fn shared_from_array<T, const N: usize>(items: [T; N]) -> (out: Arc<[T]>)
    ensures
        out@ == items@,
{
    Arc::from(items)
}

} // verus!
