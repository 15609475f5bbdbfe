//! Immutable, cheaply duplicable sequence handles that can be trimmed from
//! either end without copying what remains.

pub mod arc_slice;
mod collect;
pub mod compare;
pub mod inline;
pub mod iter;
mod observe;
mod shared;
pub mod small_arc_slice;
pub mod split;

pub use arc_slice::ArcSlice;
pub use iter::ArcSliceIter;
pub use small_arc_slice::SmallArcSlice;
pub use split::ArcSliceSplit;
