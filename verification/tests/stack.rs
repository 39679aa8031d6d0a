//! Tests for dense and sparse stacking of DataFrames.

use slice_and_dice::data_frame::frame_core::DataFrame;
use slice_and_dice::data_frame::stack::{ExtrapolationMethod, InterpolationMethod};
use slice_and_dice::mapped_index::numeric_range::NumericRangeIndex;
use slice_and_dice::mapped_index::sparse_numeric_index::SparseNumericIndex;
use slice_and_dice::mapped_index::VariableRange;
use sorted_vec::SortedSet;

#[test]
fn stack_test_stack() {
    let index = NumericRangeIndex::new(0i32, 2);
    let df1 = DataFrame::new(index.clone(), vec![10, 20]);
    let df2 = DataFrame::new(index.clone(), vec![30, 40]);
    let stacked = DataFrame::stack(vec![df1, df2]).unwrap();

    assert_eq!(stacked.index.indices.head.size(), 2); // Outer index size
    assert_eq!(stacked.index.indices.tail.head, index); // Inner index
    assert_eq!(stacked.data, vec![10, 20, 30, 40]); // Flattened data
}

#[test]
fn test_stack_mismatching_indices() {
    // Stacking two DataFrames whose inner indices differ must fail.
    let df1 = DataFrame::new(NumericRangeIndex::new(0i32, 2), vec![10, 20]);
    let df2 = DataFrame::new(NumericRangeIndex::new(1i32, 3), vec![30, 40]);
    assert!(DataFrame::stack(vec![df1, df2]).is_none());

    let empty: Vec<DataFrame<NumericRangeIndex<i32>, Vec<i32>>> = vec![];
    assert!(DataFrame::stack(empty).is_none());
}

#[test]
fn test_stack_sparse_empty_input() {
    // Sparse stacking with nothing to stack yields nothing.
    let empty: Vec<DataFrame<SparseNumericIndex, Vec<i32>>> = vec![];
    assert!(DataFrame::stack_sparse(
        empty,
        InterpolationMethod::Nearest,
        ExtrapolationMethod::Nearest,
        0,
    )
    .is_none());
}

#[test]
fn test_stack_sparse_matching() {
    // Test with matching indices
    let index1 = SparseNumericIndex::new(SortedSet::from(vec![1i64, 3, 5]));
    let df1 = DataFrame::new(index1.clone(), vec![10, 30, 50]);
    let df2 = DataFrame::new(index1.clone(), vec![100, 300, 500]);

    let stacked = DataFrame::stack_sparse(
        vec![df1, df2],
        InterpolationMethod::Nearest,
        ExtrapolationMethod::Nearest,
        0,
    )
    .unwrap();

    assert_eq!(stacked.index.indices.head.size(), 2); // Outer index size
    assert_eq!(
        stacked.index.indices.tail.head.indices,
        SortedSet::from(vec![1i64, 3, 5])
    ); // Inner index
    assert_eq!(stacked.data, vec![10, 30, 50, 100, 300, 500]); // Flattened data
}

#[test]
fn test_stack_sparse_mismatching() {
    // Test with mismatching indices
    let index1 = SparseNumericIndex::new(SortedSet::from(vec![1i64, 3, 5]));
    let index2 = SparseNumericIndex::new(SortedSet::from(vec![2i64, 3, 6]));
    let df1 = DataFrame::new(index1, vec![10, 30, 50]);
    let df2 = DataFrame::new(index2, vec![20, 30, 60]);

    let stacked = DataFrame::stack_sparse(
        vec![df1, df2],
        InterpolationMethod::Nearest,
        ExtrapolationMethod::Nearest,
        0,
    )
    .unwrap();

    // Union of indices should be [1, 2, 3, 5, 6]
    assert_eq!(stacked.index.indices.head.size(), 2); // Outer index size
    assert_eq!(
        stacked.index.indices.tail.head.indices,
        SortedSet::from(vec![1i64, 2, 3, 5, 6])
    ); // Inner index

    // First DataFrame: [10, ?, 30, 50, ?] where ? are interpolated/extrapolated
    // Second DataFrame: [?, 20, 30, ?, 60] where ? are interpolated/extrapolated
    // With Nearest interpolation/extrapolation:
    // First DataFrame: [10, 10, 30, 50, 50]
    // Second DataFrame: [20, 20, 30, 30, 60]
    assert_eq!(stacked.data, vec![10, 10, 30, 50, 50, 20, 20, 30, 30, 60]);
}

#[test]
fn test_stack_sparse_interpolation_methods() {
    // Test different interpolation methods
    let index1 = SparseNumericIndex::new(SortedSet::from(vec![1i64, 5]));
    let index2 = SparseNumericIndex::new(SortedSet::from(vec![1i64, 5]));
    let df1 = DataFrame::new(index1, vec![10, 50]);
    let df2 = DataFrame::new(index2, vec![100, 500]);

    // Create a third DataFrame with the index 3 to ensure it's in the union
    let index3 = SparseNumericIndex::new(SortedSet::from(vec![1i64, 3, 5]));
    let df3 = DataFrame::new(index3, vec![1000, 3000, 5000]);

    // Test Previous interpolation
    let stacked_prev = DataFrame::stack_sparse(
        vec![df1.clone(), df2.clone(), df3.clone()],
        InterpolationMethod::Previous,
        ExtrapolationMethod::Nearest,
        0,
    )
    .unwrap();

    assert_eq!(
        stacked_prev.index.indices.tail.head.indices,
        SortedSet::from(vec![1i64, 3, 5])
    );
    // First DataFrame: [10, 10, 50] (value at 3 is from previous at 1)
    // Second DataFrame: [100, 100, 500] (value at 3 is from previous at 1)
    // Third DataFrame: [1000, 3000, 5000] (actual values)
    assert_eq!(
        stacked_prev.data,
        vec![10, 10, 50, 100, 100, 500, 1000, 3000, 5000]
    );

    // Test Next interpolation
    let stacked_next = DataFrame::stack_sparse(
        vec![df1.clone(), df2.clone(), df3.clone()],
        InterpolationMethod::Next,
        ExtrapolationMethod::Nearest,
        0,
    )
    .unwrap();

    assert_eq!(
        stacked_next.index.indices.tail.head.indices,
        SortedSet::from(vec![1i64, 3, 5])
    );
    // First DataFrame: [10, 50, 50] (value at 3 is from next at 5)
    // Second DataFrame: [100, 500, 500] (value at 3 is from next at 5)
    // Third DataFrame: [1000, 3000, 5000] (actual values)
    assert_eq!(
        stacked_next.data,
        vec![10, 50, 50, 100, 500, 500, 1000, 3000, 5000]
    );

    // Test Default interpolation
    let stacked_default = DataFrame::stack_sparse(
        vec![df1, df2, df3],
        InterpolationMethod::Default,
        ExtrapolationMethod::Default,
        999,
    )
    .unwrap();

    assert_eq!(
        stacked_default.index.indices.tail.head.indices,
        SortedSet::from(vec![1i64, 3, 5])
    );
    // First DataFrame: [10, 999, 50] (value at 3 is default)
    // Second DataFrame: [100, 999, 500] (value at 3 is default)
    // Third DataFrame: [1000, 3000, 5000] (actual values)
    assert_eq!(
        stacked_default.data,
        vec![10, 999, 50, 100, 999, 500, 1000, 3000, 5000]
    );
}

#[test]
fn test_stack_sparse_large_matching() {
    // Test with large matching indices (at least 10 elements each)
    let indices1: Vec<i64> = vec![1, 5, 10, 15, 20, 25, 30, 35, 40, 45, 50, 55];
    let indices2 = indices1.clone();

    let index1 = SparseNumericIndex::new(SortedSet::from(indices1));
    let index2 = SparseNumericIndex::new(SortedSet::from(indices2));

    let data1: Vec<i32> = (0..12).map(|i| i * 10).collect();
    let data2: Vec<i32> = (0..12).map(|i| i * 100).collect();

    let df1 = DataFrame::new(index1.clone(), data1);
    let df2 = DataFrame::new(index2.clone(), data2);

    let stacked = DataFrame::stack_sparse(
        vec![df1, df2],
        InterpolationMethod::Nearest,
        ExtrapolationMethod::Nearest,
        0,
    )
    .unwrap();

    assert_eq!(stacked.index.indices.head.size(), 2); // Outer index size
    assert_eq!(stacked.index.indices.tail.head.indices.len(), 12); // Inner index size
    assert_eq!(
        stacked.index.indices.tail.head.indices,
        SortedSet::from(vec![1i64, 5, 10, 15, 20, 25, 30, 35, 40, 45, 50, 55])
    );

    // Expected data: all values from df1 followed by all values from df2
    let expected_data: Vec<i32> = vec![
        0, 10, 20, 30, 40, 50, 60, 70, 80, 90, 100, 110, // df1 values
        0, 100, 200, 300, 400, 500, 600, 700, 800, 900, 1000, 1100, // df2 values
    ];
    assert_eq!(stacked.data, expected_data);
}

#[test]
fn test_stack_sparse_large_mismatching() {
    // Test with large mismatching indices (at least 10 elements each)
    // First DataFrame has even indices
    let indices1: Vec<i64> = (0..12).map(|i| i * 2).collect();
    // Second DataFrame has odd indices
    let indices2: Vec<i64> = (0..12).map(|i| i * 2 + 1).collect();

    let index1 = SparseNumericIndex::new(SortedSet::from(indices1));
    let index2 = SparseNumericIndex::new(SortedSet::from(indices2));

    let data1: Vec<i32> = (0..12).map(|i| i * 10).collect();
    let data2: Vec<i32> = (0..12).map(|i| i * 100).collect();

    let df1 = DataFrame::new(index1, data1);
    let df2 = DataFrame::new(index2, data2);

    let stacked = DataFrame::stack_sparse(
        vec![df1, df2],
        InterpolationMethod::Nearest,
        ExtrapolationMethod::Nearest,
        0,
    )
    .unwrap();

    assert_eq!(stacked.index.indices.head.size(), 2); // Outer index size
    assert_eq!(stacked.index.indices.tail.head.indices.len(), 24); // Union of both

    // Union of indices should be [0, 1, 2, 3, ..., 22, 23]
    let expected_indices: Vec<i64> = (0..24).collect();
    assert_eq!(
        stacked.index.indices.tail.head.indices,
        SortedSet::from(expected_indices)
    );

    // Verify data length
    assert_eq!(stacked.data.len(), 48); // 24 indices * 2 DataFrames
}

#[test]
fn test_stack_sparse_empty_dataframe() {
    // Test with an empty DataFrame
    let empty_indices: Vec<i64> = vec![];
    let non_empty_indices: Vec<i64> = vec![1, 2, 3];

    let empty_index = SparseNumericIndex::new(SortedSet::from(empty_indices));
    let non_empty_index = SparseNumericIndex::new(SortedSet::from(non_empty_indices));

    let empty_data: Vec<i32> = vec![];
    let non_empty_data: Vec<i32> = vec![10, 20, 30];

    let empty_df = DataFrame::new(empty_index, empty_data);
    let non_empty_df = DataFrame::new(non_empty_index, non_empty_data);

    // This should not panic
    let stacked = DataFrame::stack_sparse(
        vec![empty_df.clone(), non_empty_df.clone()],
        InterpolationMethod::Nearest,
        ExtrapolationMethod::Default, // Use Default to avoid filling from nothing
        -999,
    )
    .unwrap();

    // The union of indices should be [1, 2, 3]
    assert_eq!(
        stacked.index.indices.tail.head.indices,
        SortedSet::from(vec![1i64, 2, 3])
    );

    // First DataFrame should use default values for all indices
    // Second DataFrame should use actual values
    assert_eq!(stacked.data, vec![-999, -999, -999, 10, 20, 30]);

    // With Nearest extrapolation an empty DataFrame still has nothing to
    // extrapolate from, so it falls back to the default value
    let stacked_nearest = DataFrame::stack_sparse(
        vec![empty_df, non_empty_df],
        InterpolationMethod::Nearest,
        ExtrapolationMethod::Nearest,
        -999,
    )
    .unwrap();

    // The union of indices should be [1, 2, 3]
    assert_eq!(
        stacked_nearest.index.indices.tail.head.indices,
        SortedSet::from(vec![1i64, 2, 3])
    );

    // First DataFrame should use default values for all indices (since it's empty)
    // Second DataFrame should use actual values
    assert_eq!(stacked_nearest.data, vec![-999, -999, -999, 10, 20, 30]);
}

#[test]
fn test_stack_sparse_large_interpolation() {
    // Test different interpolation methods with large indices
    // Create sparse indices with gaps
    let indices1: Vec<i64> = vec![0, 5, 10, 15, 20, 25, 30, 35, 40, 45, 50];
    let indices2: Vec<i64> = vec![0, 10, 20, 30, 40, 50];
    let indices3: Vec<i64> = vec![0, 2, 4, 6, 8, 12, 16, 24, 32, 48];

    let index1 = SparseNumericIndex::new(SortedSet::from(indices1));
    let index2 = SparseNumericIndex::new(SortedSet::from(indices2));
    let index3 = SparseNumericIndex::new(SortedSet::from(indices3));

    let data1: Vec<i32> = (0..11).map(|i| i * 10).collect();
    let data2: Vec<i32> = (0..6).map(|i| i * 100).collect();
    let data3: Vec<i32> = (0..10).map(|i| i * 1000).collect();

    let df1 = DataFrame::new(index1, data1);
    let df2 = DataFrame::new(index2, data2);
    let df3 = DataFrame::new(index3, data3);

    // Test Previous interpolation
    let stacked_prev = DataFrame::stack_sparse(
        vec![df1.clone(), df2.clone(), df3.clone()],
        InterpolationMethod::Previous,
        ExtrapolationMethod::Nearest,
        -999,
    )
    .unwrap();

    // The union of all indices should have at least 20 elements
    assert!(stacked_prev.index.indices.tail.head.indices.len() >= 20);

    // Test Next interpolation
    let stacked_next = DataFrame::stack_sparse(
        vec![df1.clone(), df2.clone(), df3.clone()],
        InterpolationMethod::Next,
        ExtrapolationMethod::Nearest,
        -999,
    )
    .unwrap();

    assert_eq!(
        stacked_next.index.indices.tail.head.indices,
        stacked_prev.index.indices.tail.head.indices
    );

    // Test Default interpolation and extrapolation
    let stacked_default = DataFrame::stack_sparse(
        vec![df1, df2, df3],
        InterpolationMethod::Default,
        ExtrapolationMethod::Default,
        -999,
    )
    .unwrap();

    assert_eq!(
        stacked_default.index.indices.tail.head.indices,
        stacked_prev.index.indices.tail.head.indices
    );

    // Verify that the default value appears in the data
    assert!(stacked_default.data.contains(&-999));
}
