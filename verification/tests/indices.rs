//! Tests for the index types: numeric, categorical, singleton, sparse,
//! union, one-to-many, function-mapped, and compound.

use slice_and_dice::mapped_index::categorical_index::CategoricalRange;
use slice_and_dice::mapped_index::categorical_index::SliceCategoricalIndex;
use slice_and_dice::mapped_index::compound_index::{CompoundIndex, HCons, HNil};
use slice_and_dice::mapped_index::fn_map_index::FnMapIndex;
use slice_and_dice::mapped_index::numeric_range::NumericRangeIndex;
use slice_and_dice::mapped_index::numeric_range_index::NumericValue;
use slice_and_dice::mapped_index::one_to_many::OneToManyRange;
use slice_and_dice::mapped_index::singleton_index::{CopySingletonRange, SingletonRange};
use slice_and_dice::mapped_index::sparse_numeric_index::SparseNumericIndex;
use slice_and_dice::mapped_index::union_range::UnionRange;
use slice_and_dice::mapped_index::{IndexEq, MappedIndex, VariableRange};
use sorted_vec::SortedSet;

#[test]
fn test_compound_index_size() {
    // Test with a single index
    let singleton = SingletonRange::new(42);
    let indices = HCons { head: singleton.clone(), tail: HNil };
    let compound_single = CompoundIndex::new(indices);
    assert_eq!(compound_single.size(), 1);

    // Test with two indices
    let categorical = CategoricalRange::new(vec![1, 2, 3]);
    let indices = HCons { head: singleton.clone(), tail: HCons { head: categorical.clone(), tail: HNil } };
    let compound_two = CompoundIndex::new(indices);
    assert_eq!(compound_two.size(), 3); // 1 * 3 = 3

    // Test with three indices
    let categorical2 = CategoricalRange::new(vec!["a", "b"]);
    let indices = HCons {
        head: singleton,
        tail: HCons { head: categorical, tail: HCons { head: categorical2, tail: HNil } },
    };
    let compound_three = CompoundIndex::new(indices);
    assert_eq!(compound_three.size(), 6); // 1 * 3 * 2 = 6
}

#[test]
fn test_compound_index_iteration() {
    // Test with a single index
    let singleton = SingletonRange::new(42);
    let indices = HCons { head: singleton.clone(), tail: HNil };
    let compound_single = CompoundIndex::new(indices);

    let values = compound_single.iter();
    assert_eq!(values.len(), 1);
    assert_eq!(values[0].0, 42);

    // Test with two indices: all combinations of values.
    // For a singleton (1 value) and a categorical index (3 values), we get 3 values
    let categorical = CategoricalRange::new(vec![1, 2, 3]);
    let indices = HCons { head: singleton, tail: HCons { head: categorical, tail: HNil } };
    let compound_two = CompoundIndex::new(indices);

    let values = compound_two.iter();
    assert_eq!(values.len(), 3); // 1 * 3 = 3

    // Check the values
    assert_eq!(values[0].0, 42); // First index value
    assert_eq!(values[0].1.0, 1); // First combination

    assert_eq!(values[1].0, 42); // First index value
    assert_eq!(values[1].1.0, 2); // Second combination

    assert_eq!(values[2].0, 42); // First index value
    assert_eq!(values[2].1.0, 3); // Third combination
}

#[test]
fn test_compound_index_unflatten() {
    // Test with two indices
    let singleton = SingletonRange::new(42);
    let categorical = CategoricalRange::new(vec![1, 2, 3]);
    let indices = HCons { head: singleton, tail: HCons { head: categorical, tail: HNil } };
    let compound = CompoundIndex::new(indices);

    // Check unflatten_index_value for each position
    let value0 = compound.unflatten_index_value(0);
    assert_eq!(value0.0, 42);
    assert_eq!(value0.1.0, 1);

    let value1 = compound.unflatten_index_value(1);
    assert_eq!(value1.0, 42);
    assert_eq!(value1.1.0, 2);

    let value2 = compound.unflatten_index_value(2);
    assert_eq!(value2.0, 42);
    assert_eq!(value2.1.0, 3);
}

#[test]
fn test_compound_index_iteration_issue() {
    // A compound of a two-value slice index and a three-value numeric range
    // yields every combination.
    #[derive(Debug, Clone, Copy, PartialEq, Eq)]
    struct UseFilter(bool);

    let use_filters = [UseFilter(false), UseFilter(true)];
    let solvers_vars = SliceCategoricalIndex::new(&use_filters);

    let tree_names_range = NumericRangeIndex::new(0i32, 3);

    let variables =
        CompoundIndex::new(HCons { head: solvers_vars, tail: HCons { head: tree_names_range, tail: HNil } });

    // Check the size
    assert_eq!(variables.size(), 6); // 2 * 3 = 6

    // Collect all values from the iterator
    let values = variables.iter();

    assert_eq!(values.len(), 6);
}

#[test]
fn test_fn_map_index() {
    // Create a numeric range index from 0 to 10
    let range_index = NumericRangeIndex::new(0i32, 10);

    // Create a function that maps a coordinate to a tuple of (i32, i32)
    let map_fn = |v: i32| (v, v * 2);

    // Create a FnMapIndex that maps the numeric values to tuples
    let fn_map_index = FnMapIndex::new(range_index, map_fn);

    // Check the size
    assert_eq!(fn_map_index.size(), 10);

    // Test iteration
    let values = fn_map_index.iter();
    assert_eq!(values.len(), 10);
    assert_eq!(values[0].mapped, (0, 0));
    assert_eq!(values[9].mapped, (9, 18));

    // Test unflatten_index_value
    let value = fn_map_index.unflatten_index_value(5);
    assert_eq!(value.flat_index, 5);
    assert_eq!(value.mapped, (5, 10));
}

#[test]
fn test_flat_index_round_trip() {
    let range = NumericRangeIndex::new(10i32, 20);
    let val: NumericValue<i32> = NumericValue::new(13);
    let flat = (val.index - range.start) as usize;
    let round: NumericValue<i32> = NumericValue::new(flat as i32 + range.start);
    assert_eq!(val.index, round.index);
}

#[test]
fn test_numeric_at() {
    let range = NumericRangeIndex::new(10i32, 20);
    assert_eq!(range.at(13).index, 13);
    assert_eq!(range.flatten_index_value(13), 3);
    assert_eq!(range.unflatten_index_value(3), 13);
}

#[test]
fn test_singleton_index() {
    let index = SingletonRange::<()>::new(());
    assert_eq!(index.size(), 1);

    let value = index.value();
    // For a singleton index, the flat position is always 0
    let flat = 0;

    let round_trip = index.unflatten_index_value(flat);
    assert_eq!(*value, round_trip);
}

#[test]
fn test_copy_singleton_index() {
    let index = CopySingletonRange::<i32>::new(42);
    assert_eq!(index.size(), 1);

    let value = index.value();
    // For a singleton index, the flat position is always 0
    let flat = 0;

    let round_trip = index.unflatten_index_value(flat);
    assert_eq!(value, round_trip);

    // Verify that we get a copy, not a reference
    let mut values: Vec<i32> = index.iter();
    values[0] = 100; // This should not affect the original value
    assert_eq!(index.value(), 42);
}

#[test]
fn test_union_size_and_iteration() {
    let r1 = NumericRangeIndex::new(0usize, 3usize); // 0,1,2
    let r2 = NumericRangeIndex::new(10usize, 12usize); // 10,11
    let union = UnionRange::new(vec![r1, r2]);

    assert_eq!(union.size(), 5);
    let vals: Vec<usize> = union.iter();
    assert_eq!(vals, vec![0usize, 1, 2, 10, 11]);
}

#[test]
fn test_union_unflatten() {
    let r1 = NumericRangeIndex::new(5usize, 7usize); // 5,6
    let r2 = NumericRangeIndex::new(0usize, 1usize); // 0
    let r3 = NumericRangeIndex::new(20usize, 23usize); // 20,21,22
    let union = UnionRange::new(vec![r1, r2, r3]);

    assert_eq!(union.size(), 6);
    assert_eq!(union.unflatten_index_value(0), 5);
    assert_eq!(union.unflatten_index_value(1), 6);
    assert_eq!(union.unflatten_index_value(2), 0);
    assert_eq!(union.unflatten_index_value(3), 20);
    assert_eq!(union.unflatten_index_value(4), 21);
    assert_eq!(union.unflatten_index_value(5), 22);
}

#[test]
fn test_union_with_ref_values() {
    // Ensure it works with singleton ranges over borrowed values.
    let a = SingletonRange::new("a");
    let b = SingletonRange::new("b");
    let union = UnionRange::new(vec![a, b]);

    assert_eq!(union.size(), 2);
    let vals: Vec<&str> = union.iter();
    assert_eq!(vals[0], "a");
    assert_eq!(vals[1], "b");
}

#[test]
fn test_union_with_copy_singleton() {
    let a = CopySingletonRange::new(42u32);
    let b = CopySingletonRange::new(7u32);
    let union = UnionRange::new(vec![a, b]);

    assert_eq!(union.size(), 2);
    let vals: Vec<u32> = union.iter();
    assert_eq!(vals, vec![42, 7]);
}

#[test]
fn test_union_push_len() {
    let mut union = UnionRange::new(vec![NumericRangeIndex::new(0usize, 2usize)]);
    assert_eq!(union.len(), 1);
    assert!(!union.is_empty());
    union.push(NumericRangeIndex::new(5usize, 6usize));
    assert_eq!(union.len(), 2);
    assert_eq!(union.size(), 3);
}

#[test]
fn test_one_to_many_size_and_iteration() {
    // left has size 2
    let left = NumericRangeIndex::new(0usize, 2usize); // 0,1
    let r0 = NumericRangeIndex::new(10usize, 12usize); // 10,11
    let r1 = NumericRangeIndex::new(20usize, 23usize); // 20,21,22
    let otm = OneToManyRange::new(left, vec![r0, r1]);

    assert_eq!(otm.associations(), 2);
    assert_eq!(otm.size(), 5);
    let vals: Vec<usize> = otm.iter();
    assert_eq!(vals, vec![10usize, 11, 20, 21, 22]);
}

#[test]
fn test_one_to_many_unflatten() {
    let left = NumericRangeIndex::new(5usize, 8usize); // size 3
    let r0 = NumericRangeIndex::new(0usize, 1usize); // 0
    let r1 = NumericRangeIndex::new(30usize, 32usize); // 30,31
    let r2 = NumericRangeIndex::new(40usize, 43usize); // 40,41,42
    let otm = OneToManyRange::new(left, vec![r0, r1, r2]);

    assert_eq!(otm.size(), 6);
    assert_eq!(otm.unflatten_index_value(0), 0);
    assert_eq!(otm.unflatten_index_value(1), 30);
    assert_eq!(otm.unflatten_index_value(2), 31);
    assert_eq!(otm.unflatten_index_value(3), 40);
    assert_eq!(otm.unflatten_index_value(4), 41);
    assert_eq!(otm.unflatten_index_value(5), 42);
}

#[test]
fn test_one_to_many_with_ref_values() {
    let left = NumericRangeIndex::new(0usize, 2usize); // size 2
    let a = SingletonRange::new("a");
    let b = SingletonRange::new("b");
    let otm = OneToManyRange::new(left, vec![a, b]);
    assert_eq!(otm.size(), 2);
    let vals: Vec<&str> = otm.iter();
    assert_eq!(vals[0], "a");
    assert_eq!(vals[1], "b");
}

#[test]
fn test_one_to_many_with_copy_singleton() {
    let left = NumericRangeIndex::new(0usize, 2usize);
    let a = CopySingletonRange::new(42u32);
    let b = CopySingletonRange::new(7u32);
    let otm = OneToManyRange::new(left, vec![a, b]);

    assert_eq!(otm.size(), 2);
    let vals: Vec<u32> = otm.iter();
    assert_eq!(vals, vec![42, 7]);
}

#[test]
fn test_sparse_numeric_index() {
    let idx = SparseNumericIndex::new(SortedSet::from(vec![1i64, 3, 5]));
    assert_eq!(idx.size(), 3);
    assert_eq!(idx.unflatten_index_value(0), 1);
    assert_eq!(idx.unflatten_index_value(2), 5);
    assert_eq!(idx.flatten_index_value(3), 1);
    assert_eq!(idx.iter(), vec![1i64, 3, 5]);
    // Duplicates and order are normalized at construction
    let idx2 = SparseNumericIndex::new(SortedSet::from(vec![5i64, 1, 3, 3]));
    assert_eq!(idx2.iter(), vec![1i64, 3, 5]);
}

#[test]
fn test_index_eq() {
    let a = NumericRangeIndex::new(0i32, 3);
    let b = NumericRangeIndex::new(0i32, 3);
    let c = NumericRangeIndex::new(1i32, 4);
    assert!(a.index_eq(&b));
    assert!(!a.index_eq(&c));

    let s1 = SparseNumericIndex::new(SortedSet::from(vec![1i64, 3]));
    let s2 = SparseNumericIndex::new(SortedSet::from(vec![3i64, 1]));
    let s3 = SparseNumericIndex::new(SortedSet::from(vec![1i64, 4]));
    assert!(s1.index_eq(&s2));
    assert!(!s1.index_eq(&s3));
}

#[test]
fn test_categorical_round_trip() {
    let range = CategoricalRange::new(vec![7i32, 11, 13]);
    assert_eq!(range.size(), 3);
    assert_eq!(range.unflatten_index_value(1), 11);
    assert_eq!(range.iter(), vec![7, 11, 13]);
}
