//! Handing the visible elements to std's hashing and formatting.

use vstd::prelude::*;

verus! {

#[verifier::external_type_specification]
#[verifier::external_body]
pub struct ExFmtError(std::fmt::Error);

#[verifier::external_type_specification]
#[verifier::external_body]
pub struct ExFormatter<'a>(std::fmt::Formatter<'a>);

/// `<[T] as Hash>::hash`: feeds the length and the items of the slice to the
/// hasher. Nothing is stated of the hasher afterwards.
#[verifier::external_body]
pub(crate) fn hash_slice<T: std::hash::Hash, H: std::hash::Hasher>(items: &[T], state: &mut H) {
    std::hash::Hash::hash(items, state)
}

/// `<[T] as Debug>::fmt`: writes the items of the slice as a list. Nothing
/// is stated of what was written, nor of whether the formatter took it.
#[verifier::external_body]
pub(crate) fn fmt_slice<T: std::fmt::Debug>(
    items: &[T],
    f: &mut std::fmt::Formatter<'_>,
) -> Result<(), std::fmt::Error> {
    std::fmt::Debug::fmt(items, f)
}

} // verus!
