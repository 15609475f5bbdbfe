use arc_slice::{ArcSlice, ArcSliceSplit};
use std::collections::hash_map::DefaultHasher;
use std::hash::{Hash, Hasher};

fn hash_of<T: Hash + ?Sized>(value: &T) -> u64 {
    let mut hasher = DefaultHasher::new();
    value.hash(&mut hasher);
    hasher.finish()
}

#[test]
fn shared_slice_from_array_splits_at_both_ends() {
    let slice = ArcSlice::from([1, 2, 3]);
    assert_eq!(slice.len(), 3);
    assert_eq!(slice.raw_inner_slice(), &[1, 2, 3]);
    let (first, rest) = slice.arc_slice_split_first().unwrap();
    assert_eq!(*first, 1);
    assert_eq!(rest.raw_inner_slice(), &[2, 3]);
    let (last, rest) = slice.arc_slice_split_last().unwrap();
    assert_eq!(*last, 3);
    assert_eq!(rest.raw_inner_slice(), &[1, 2]);
    // the handle that was split is as it was
    assert_eq!(slice.raw_inner_slice(), &[1, 2, 3]);
}

#[test]
fn default_shared_slice_is_empty() {
    let slice: ArcSlice<i32> = ArcSlice::default();
    assert_eq!(slice.len(), 0);
    assert!(slice.is_empty());
    assert!(slice.arc_slice_split_first().is_none());
    assert!(slice.arc_slice_split_last().is_none());
    let mut iter = slice.into_iter();
    assert_eq!(iter.next(), None);
}

#[test]
fn shared_slice_from_empty_source_is_empty() {
    let slice: ArcSlice<i32> = ArcSlice::from_iter(Vec::new().into_iter());
    assert_eq!(slice.len(), 0);
    assert!(slice.arc_slice_split_first().is_none());
    assert!(slice.arc_slice_split_last().is_none());
    assert_eq!(slice, ArcSlice::default());
    assert_eq!(slice.into_iter().into_vec(), Vec::<i32>::new());
}

#[test]
fn shared_slice_from_empty_array_is_empty() {
    let none: [u8; 0] = [];
    let slice = ArcSlice::from(none);
    assert_eq!(slice.len(), 0);
    assert!(slice.arc_slice_split_first().is_none());
}

#[test]
fn shared_slice_from_source_keeps_order() {
    let slice = ArcSlice::from_iter(vec![7, 8, 9, 10].into_iter());
    assert_eq!(slice.raw_inner_slice(), &[7, 8, 9, 10]);
    assert_eq!(slice[0], 7);
    assert_eq!(slice[3], 10);
    let doubled = ArcSlice::from_iter((1..4).map(|n| n * 2));
    assert_eq!(doubled.raw_inner_slice(), &[2, 4, 6]);
}

#[test]
fn shared_slice_single_element_splits_to_empty() {
    let slice = ArcSlice::from([42]);
    let (first, rest) = slice.arc_slice_split_first().unwrap();
    assert_eq!(*first, 42);
    assert_eq!(rest.len(), 0);
    assert!(rest.arc_slice_split_first().is_none());
    assert!(rest.arc_slice_split_last().is_none());
    let (last, rest) = slice.arc_slice_split_last().unwrap();
    assert_eq!(*last, 42);
    assert!(rest.is_empty());
}

#[test]
fn shared_slice_splits_from_both_ends_in_turn() {
    let slice = ArcSlice::from([1, 2, 3, 4, 5]);
    let (_, a) = slice.arc_slice_split_first().unwrap();
    let (_, b) = a.arc_slice_split_last().unwrap();
    let (first, c) = b.arc_slice_split_first().unwrap();
    assert_eq!(*first, 2);
    assert_eq!(b.raw_inner_slice(), &[2, 3, 4]);
    assert_eq!(c.raw_inner_slice(), &[3, 4]);
    let (last, d) = c.arc_slice_split_last().unwrap();
    assert_eq!(*last, 4);
    assert_eq!(d.raw_inner_slice(), &[3]);
}

#[test]
fn shared_slice_equality_is_by_visible_elements() {
    let from_array = ArcSlice::from([1, 2, 3]);
    let from_source = ArcSlice::from_iter(vec![1, 2, 3].into_iter());
    assert!(from_array == from_source);
    let longer = ArcSlice::from([0, 1, 2, 3, 4]);
    let (_, trimmed) = longer.arc_slice_split_first().unwrap();
    let (_, trimmed) = trimmed.arc_slice_split_last().unwrap();
    assert!(trimmed == from_array);
    assert!(longer != from_array);
    assert!(ArcSlice::from([1, 2, 4]) != from_array);
    assert!(ArcSlice::from([1, 2]) != from_array);
    let empty: ArcSlice<i32> = ArcSlice::default();
    let (_, emptied) = ArcSlice::from([9]).arc_slice_split_first().unwrap();
    assert!(empty == emptied);
}

#[test]
fn shared_slice_clone_is_equal_and_outlives_its_source() {
    let slice = ArcSlice::from_iter(vec![String::from("a"), String::from("b")].into_iter());
    let copy = slice.clone();
    assert_eq!(copy, slice);
    assert_eq!(copy.len(), 2);
    drop(slice);
    assert_eq!(copy.len(), 2);
    assert_eq!(copy[0], "a");
    assert_eq!(copy[1], "b");
}

#[test]
fn shared_slice_remainder_outlives_the_handle_it_came_from() {
    let rest = {
        let slice = ArcSlice::from([10, 20, 30]);
        let (_, rest) = slice.arc_slice_split_first().unwrap();
        rest
    };
    assert_eq!(rest.raw_inner_slice(), &[20, 30]);
}

#[test]
fn shared_slice_orders_lexicographically() {
    let a = ArcSlice::from([1, 2]);
    let b = ArcSlice::from([1, 2, 3]);
    let c = ArcSlice::from([1, 3]);
    let (_, d) = ArcSlice::from([0, 1, 2]).arc_slice_split_first().unwrap();
    assert_eq!(a.partial_cmp(&b), Some(std::cmp::Ordering::Less));
    assert_eq!(b.partial_cmp(&a), Some(std::cmp::Ordering::Greater));
    assert_eq!(c.partial_cmp(&b), Some(std::cmp::Ordering::Greater));
    assert_eq!(a.partial_cmp(&d), Some(std::cmp::Ordering::Equal));
    assert!(a < b);
    assert!(c > b);
    assert!(a <= d);
    let empty: ArcSlice<i32> = ArcSlice::default();
    assert!(empty < a);
    assert_eq!(empty.partial_cmp(&ArcSlice::default()), Some(std::cmp::Ordering::Equal));
}

#[test]
fn shared_slice_order_is_undecided_where_an_element_is() {
    let a = ArcSlice::from([1.0, f64::NAN]);
    let b = ArcSlice::from([1.0, 2.0]);
    assert_eq!(a.partial_cmp(&b), None);
    assert!(a != a.clone());
    let c = ArcSlice::from([0.5, f64::NAN]);
    assert_eq!(c.partial_cmp(&b), Some(std::cmp::Ordering::Less));
}

#[test]
fn shared_slice_hashes_as_its_visible_elements() {
    let slice = ArcSlice::from([1u32, 2, 3]);
    let expected: &[u32] = &[1, 2, 3];
    assert_eq!(hash_of(&slice), hash_of(expected));
    let (_, trimmed) = ArcSlice::from([0u32, 1, 2, 3]).arc_slice_split_first().unwrap();
    assert_eq!(hash_of(&trimmed), hash_of(&slice));
    assert_ne!(hash_of(&slice), hash_of(&ArcSlice::from([1u32, 2])));
}

#[test]
fn shared_slice_formats_as_a_list() {
    let slice = ArcSlice::from([1, 2, 3]);
    assert_eq!(format!("{:?}", slice), "[1, 2, 3]");
    let (_, rest) = slice.arc_slice_split_last().unwrap();
    assert_eq!(format!("{:?}", rest), "[1, 2]");
    let empty: ArcSlice<u8> = ArcSlice::default();
    assert_eq!(format!("{:?}", empty), "[]");
}

#[test]
fn shared_slice_reads_as_a_slice() {
    let slice = ArcSlice::from([5, 6, 7]);
    let total: i32 = slice.iter().sum();
    assert_eq!(total, 18);
    assert_eq!(slice.first(), Some(&5));
    assert_eq!(&slice[1..], &[6, 7]);
}

#[test]
fn shared_slice_total_order_is_lexicographic() {
    let a = ArcSlice::from([1, 2]);
    let b = ArcSlice::from([1, 2, 3]);
    let c = ArcSlice::from([1, 3]);
    let (_, d) = ArcSlice::from([0, 1, 2]).arc_slice_split_first().unwrap();
    let empty: ArcSlice<i32> = ArcSlice::default();
    assert_eq!(a.cmp(&b), std::cmp::Ordering::Less);
    assert_eq!(b.cmp(&a), std::cmp::Ordering::Greater);
    assert_eq!(c.cmp(&b), std::cmp::Ordering::Greater);
    assert_eq!(b.cmp(&c), std::cmp::Ordering::Less);
    assert_eq!(a.cmp(&d), std::cmp::Ordering::Equal);
    assert_eq!(empty.cmp(&a), std::cmp::Ordering::Less);
    assert_eq!(a.cmp(&empty), std::cmp::Ordering::Greater);
    assert_eq!(empty.cmp(&ArcSlice::default()), std::cmp::Ordering::Equal);
}
