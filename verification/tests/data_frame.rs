//! Tests for the DataFrame core: construction, access, mapping, building,
//! stacking, and collapsing a one-dimensional compound index.

use slice_and_dice::data_frame::frame_core::{DataFrame, FrameData};
use slice_and_dice::mapped_index::compound_index::{CompoundIndex, HCons, HNil};
use slice_and_dice::mapped_index::numeric_range::NumericRangeIndex;
use slice_and_dice::mapped_index::VariableRange;

#[test]
fn test_new() {
    let index = NumericRangeIndex::new(0i32, 3);
    let data = vec![10, 20, 30];
    let df = DataFrame::new(index.clone(), data.clone());
    assert_eq!(df.index, index);
    assert_eq!(df.data, data);
}

#[test]
fn test_get() {
    let index = NumericRangeIndex::new(0i32, 3);
    let data = vec![10, 20, 30];
    let df = DataFrame::new(index, data);
    assert_eq!(*df.get(1), 20);
}

#[test]
fn test_get_flat() {
    let index = NumericRangeIndex::new(0i32, 3);
    let data = vec![10, 20, 30];
    let df = DataFrame::new(index, data);
    assert_eq!(*df.get_flat(2), 30);
}

#[test]
fn test_nonzero_start_index() {
    let index = NumericRangeIndex::new(5i32, 8); // Range: 5, 6, 7
    let data = vec![100, 200, 300];
    let df = DataFrame::new(index.clone(), data.clone());
    assert_eq!(df.index, index);
    assert_eq!(df.data, data);
    assert_eq!(*df.get(5), 100);
    assert_eq!(*df.get(6), 200);
    assert_eq!(*df.get(7), 300);
    assert_eq!(*df.get_flat(0), 100);
    assert_eq!(*df.get_flat(2), 300);
}

#[test]
fn data_frame_test_stack() {
    let index = NumericRangeIndex::new(0i32, 2);
    let df1 = DataFrame::new(index.clone(), vec![10, 20]);
    let df2 = DataFrame::new(index.clone(), vec![30, 40]);
    let stacked = DataFrame::stack(vec![df1, df2]).unwrap();

    assert_eq!(stacked.index.indices.head.size(), 2); // Outer index size
    assert_eq!(stacked.index.indices.tail.head, index); // Inner index
    assert_eq!(stacked.data, vec![10, 20, 30, 40]); // Flattened data
}

#[test]
fn test_accessor_methods() {
    let index = NumericRangeIndex::new(0i32, 3); // [0, 1, 2]
    let data = vec![10, 20, 30];
    let mut df = DataFrame::new(index.clone(), data.clone());

    assert_eq!(df.index().size(), 3);

    assert_eq!(df.data().len(), 3);
    assert_eq!(df.data()[0], 10);
    assert_eq!(df.data()[1], 20);
    assert_eq!(df.data()[2], 30);

    df.data_mut()[0] = 100;
    assert_eq!(df.data()[0], 100);

    assert_eq!(*df.data_at(0), 100);
    assert_eq!(*df.data_at(1), 20);
    assert_eq!(*df.data_at(2), 30);
}

#[test]
fn test_index_operator() {
    let index = NumericRangeIndex::new(0i32, 3); // [0, 1, 2]
    let data = vec![10, 20, 30];
    let df = DataFrame::new(index, data);

    assert_eq!(*df.get_flat(0), 10);
    assert_eq!(*df.get_flat(1), 20);
    assert_eq!(*df.get_flat(2), 30);
}

#[test]
fn test_iter() {
    let index = NumericRangeIndex::new(0i32, 3); // [0, 1, 2]
    let data = vec![10, 20, 30];
    let df = DataFrame::new(index, data);

    let mut iter = df.iter().into_iter();
    assert_eq!(iter.next(), Some((0, 10)));
    assert_eq!(iter.next(), Some((1, 20)));
    assert_eq!(iter.next(), Some((2, 30)));
    assert_eq!(iter.next(), None);

    let collected: Vec<_> = df.iter();
    assert_eq!(collected, vec![(0, 10), (1, 20), (2, 30)]);
}

#[test]
fn test_map() {
    let index = NumericRangeIndex::new(0i32, 3); // [0, 1, 2]
    let data = vec![10, 20, 30];
    let df = DataFrame::new(index, data);

    // Map to double the values
    let mapped_df = df.map(|x| x * 2);

    assert_eq!(mapped_df.data().len(), 3);
    assert_eq!(mapped_df.data()[0], 20);
    assert_eq!(mapped_df.data()[1], 40);
    assert_eq!(mapped_df.data()[2], 60);

    // Map to strings
    let string_df = df.map(|x| x.to_string());

    assert_eq!(string_df.data().len(), 3);
    assert_eq!(string_df.data()[0], "10");
    assert_eq!(string_df.data()[1], "20");
    assert_eq!(string_df.data()[2], "30");
}

#[test]
fn test_build_from_index() {
    let index = NumericRangeIndex::new(0i32, 3); // [0, 1, 2]

    // Build a DataFrame where each value is the index squared
    let df = DataFrame::build_from_index(index, |i| i * i);

    assert_eq!(df.data().len(), 3);
    assert_eq!(df.data()[0], 0);
    assert_eq!(df.data()[1], 1);
    assert_eq!(df.data()[2], 4);
}

#[test]
fn test_collapse_single_index() {
    // Create a compound index with a single NumericRangeIndex
    let numeric_index = NumericRangeIndex::new(0i32, 3); // [0, 1, 2]
    let indices = HCons { head: numeric_index.clone(), tail: HNil };
    let compound_index = CompoundIndex::new(indices);
    let data = vec![10, 20, 30];

    let compound_df = DataFrame::new(compound_index, data);

    let collapsed_df = compound_df.collapse_single_index();

    assert_eq!(collapsed_df.index().size(), 3);
    assert_eq!(collapsed_df.data().len(), 3);
    assert_eq!(*collapsed_df.get_flat(0), 10);
    assert_eq!(*collapsed_df.get_flat(1), 20);
    assert_eq!(*collapsed_df.get_flat(2), 30);
}

#[test]
fn test_framedata_for_vec() {
    let vec = vec![1, 2, 3];

    assert_eq!(FrameData::len(&vec), 3);

    let mut iter = vec.iter();
    assert_eq!(iter.next(), Some(&1));
    assert_eq!(iter.next(), Some(&2));
    assert_eq!(iter.next(), Some(&3));
    assert_eq!(iter.next(), None);
}
