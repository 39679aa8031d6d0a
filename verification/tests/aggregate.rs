//! Tests for aggregation, per-slice iteration and means over one dimension
//! of a compound-indexed DataFrame.

use slice_and_dice::data_frame::frame_core::DataFrame;
use slice_and_dice::data_frame::strided_index_view::StridedIndexView;
use slice_and_dice::mapped_index::categorical_index::CategoricalRange;
use slice_and_dice::mapped_index::compound_index::{CompoundIndex, HCons, HNil, Here, There};
use slice_and_dice::mapped_index::numeric_range::NumericRangeIndex;

fn sum_view(view: StridedIndexView<Vec<i32>>) -> i32 {
    let values = view.to_vec();
    let mut total = 0;
    for v in values {
        total += v;
    }
    total
}

fn product_view(view: StridedIndexView<Vec<i32>>) -> i32 {
    let values = view.to_vec();
    let mut total = 1;
    for v in values {
        total *= v;
    }
    total
}

#[test]
fn test_mean_over_dim() {
    // Create a 2D DataFrame with dimensions 2x3
    let index1 = NumericRangeIndex::new(0i64, 2); // [0, 1]
    let index2 = NumericRangeIndex::new(10i64, 13); // [10, 11, 12]

    let indices = HCons { head: index1.clone(), tail: HCons { head: index2.clone(), tail: HNil } };
    let compound_index = CompoundIndex::new(indices);

    // Create data: [10, 20, 30, 40, 50, 60]
    // This represents a 2x3 matrix:
    // [10, 20, 30]
    // [40, 50, 60]
    let data: Vec<i64> = vec![10, 20, 30, 40, 50, 60];

    let df = DataFrame::new(compound_index, data);

    // Calculate mean over first dimension (rows)
    let mean_rows = df.clone().mean_over_dim::<Here>().unwrap();

    // Result should be a 1D DataFrame with 3 values: [25, 35, 45]
    // (average of each column)
    assert_eq!(mean_rows.data.len(), 3);
    assert_eq!(mean_rows.data[0], 25);
    assert_eq!(mean_rows.data[1], 35);
    assert_eq!(mean_rows.data[2], 45);

    // Calculate mean over second dimension (columns)
    let mean_cols = df.mean_over_dim::<There<Here>>().unwrap();

    // Result should be a 1D DataFrame with 2 values: [20, 50]
    // (average of each row)
    assert_eq!(mean_cols.data.len(), 2);
    assert_eq!(mean_cols.data[0], 20);
    assert_eq!(mean_cols.data[1], 50);
}

#[test]
fn aggregate_test_aggregate_over_dim() {
    // Create a 2D DataFrame with dimensions 2x3
    let index1 = NumericRangeIndex::new(0i32, 2); // [0, 1]
    let index2 = NumericRangeIndex::new(10i32, 13); // [10, 11, 12]

    let indices = HCons { head: index1.clone(), tail: HCons { head: index2.clone(), tail: HNil } };
    let compound_index = CompoundIndex::new(indices);

    // Create data: [10, 20, 30, 40, 50, 60]
    // This represents a 2x3 matrix:
    // [10, 20, 30]
    // [40, 50, 60]
    let data = vec![10, 20, 30, 40, 50, 60];

    let df = DataFrame::new(compound_index, data);

    // Calculate sum over first dimension (rows)
    let sum_rows = df.clone().aggregate_over_dim::<Here, _, i32>(sum_view);

    // Result should be a 1D DataFrame with 3 values: [50, 70, 90]
    // (sum of each column)
    assert_eq!(sum_rows.data.len(), 3);
    assert_eq!(sum_rows.data[0], 50);
    assert_eq!(sum_rows.data[1], 70);
    assert_eq!(sum_rows.data[2], 90);

    // Calculate sum over second dimension (columns)
    let sum_cols = df.aggregate_over_dim::<There<Here>, _, i32>(sum_view);

    // Result should be a 1D DataFrame with 2 values: [60, 150]
    // (sum of each row)
    assert_eq!(sum_cols.data.len(), 2);
    assert_eq!(sum_cols.data[0], 60);
    assert_eq!(sum_cols.data[1], 150);
}

#[test]
fn test_aggregate_over_dim_3d() {
    // Create a 3D DataFrame with dimensions 2x2x2
    let index1 = NumericRangeIndex::new(0i32, 2); // [0, 1]
    let index2 = NumericRangeIndex::new(10i32, 12); // [10, 11]
    let index3 = NumericRangeIndex::new(100i32, 102); // [100, 101]

    let indices = HCons {
        head: index1.clone(),
        tail: HCons { head: index2.clone(), tail: HCons { head: index3.clone(), tail: HNil } },
    };
    let compound_index = CompoundIndex::new(indices);

    // Create data for a 2x2x2 cube:
    // [
    //   [[1, 2], [3, 4]],
    //   [[5, 6], [7, 8]]
    // ]
    // Flattened as: [1, 2, 3, 4, 5, 6, 7, 8]
    let data = vec![1, 2, 3, 4, 5, 6, 7, 8];

    let df = DataFrame::new(compound_index, data);

    // Calculate sum over middle dimension
    let sum_middle = df.aggregate_over_dim::<There<Here>, _, i32>(sum_view);

    // Result should be a 2D DataFrame with 2x2 values: [[4, 6], [12, 14]]
    // (sum of each slice along the middle dimension)
    assert_eq!(sum_middle.data.len(), 4);
    assert_eq!(sum_middle.data[0], 4); // 1 + 3
    assert_eq!(sum_middle.data[1], 6); // 2 + 4
    assert_eq!(sum_middle.data[2], 12); // 5 + 7
    assert_eq!(sum_middle.data[3], 14); // 6 + 8

    // The middle dimension is gone: the result index is the outer dimension
    // followed by the inner one.
    assert_eq!(sum_middle.index.indices.head, index1);
    assert_eq!(sum_middle.index.indices.tail.head, index3);
}

#[test]
fn test_aggregate_over_dim_edge_cases() {
    // Test with a dimension of size 1
    let index1 = NumericRangeIndex::new(0i32, 1); // [0]
    let index2 = NumericRangeIndex::new(10i32, 13); // [10, 11, 12]

    let indices = HCons { head: index1.clone(), tail: HCons { head: index2.clone(), tail: HNil } };
    let compound_index = CompoundIndex::new(indices);

    // Create data: [100, 101, 102]
    let data = vec![100, 101, 102];

    let df = DataFrame::new(compound_index, data);

    // Calculate sum over first dimension (which has only one value)
    let sum_rows = df.clone().aggregate_over_dim::<Here, _, i32>(sum_view);

    // Result should be a 1D DataFrame with 3 values: [100, 101, 102]
    // (since there's only one row, the sum is just the values themselves)
    assert_eq!(sum_rows.data.len(), 3);
    assert_eq!(sum_rows.data[0], 100);
    assert_eq!(sum_rows.data[1], 101);
    assert_eq!(sum_rows.data[2], 102);

    // Calculate product over second dimension
    let product_cols = df.aggregate_over_dim::<There<Here>, _, i32>(product_view);

    // Result should be a 1D DataFrame with 1 value: [100*101*102]
    assert_eq!(product_cols.data.len(), 1);
    assert_eq!(product_cols.data[0], 100 * 101 * 102);
}

#[test]
fn test_iter_over_dim() {
    // Create a 2D DataFrame with dimensions 2x3
    let index1 = NumericRangeIndex::new(0i32, 2); // [0, 1]
    let index2 = NumericRangeIndex::new(10i32, 13); // [10, 11, 12]

    let indices = HCons { head: index1.clone(), tail: HCons { head: index2.clone(), tail: HNil } };
    let compound_index = CompoundIndex::new(indices);

    // Create data: [10, 20, 30, 40, 50, 60]
    // This represents a 2x3 matrix:
    // [10, 20, 30]
    // [40, 50, 60]
    let data = vec![10, 20, 30, 40, 50, 60];

    let df = DataFrame::new(compound_index, data);

    // Iterate over first dimension (rows)
    let mut iter_rows = df.iter_over_dim::<Here>();

    let mut i = 0;
    while let Some((ix, row_df)) = iter_rows.next() {
        assert_eq!(ix, i as i32);
        assert_eq!(row_df.data().len(), 3);

        if i == 0 {
            // First row should contain [10, 20, 30]
            assert_eq!(*row_df.data().at(0), 10);
            assert_eq!(*row_df.data().at(1), 20);
            assert_eq!(*row_df.data().at(2), 30);
        } else {
            // Second row should contain [40, 50, 60]
            assert_eq!(*row_df.data().at(0), 40);
            assert_eq!(*row_df.data().at(1), 50);
            assert_eq!(*row_df.data().at(2), 60);
        }
        i += 1;
    }

    // Iterate over second dimension (columns)
    let mut iter_cols = df.iter_over_dim::<There<Here>>();

    let mut i = 0;
    while let Some((ix, col_df)) = iter_cols.next() {
        assert_eq!(ix, i as i32 + 10);
        assert_eq!(col_df.data().len(), 2);

        match i {
            0 => {
                // First column should contain [10, 40]
                assert_eq!(*col_df.data().at(0), 10);
                assert_eq!(*col_df.data().at(1), 40);
            }
            1 => {
                // Second column should contain [20, 50]
                assert_eq!(*col_df.data().at(0), 20);
                assert_eq!(*col_df.data().at(1), 50);
            }
            2 => {
                // Third column should contain [30, 60]
                assert_eq!(*col_df.data().at(0), 30);
                assert_eq!(*col_df.data().at(1), 60);
            }
            _ => panic!("Unexpected column index"),
        }
        i += 1;
    }
}

#[test]
fn test_iter_over_dim_complex() {
    // Create a 4D DataFrame with dimensions 3x4x2x5
    let index1 = NumericRangeIndex::new(0i32, 3); // [0, 1, 2]
    let index2 = NumericRangeIndex::new(10i32, 14); // [10, 11, 12, 13]
    let index3 = NumericRangeIndex::new(20i32, 22); // [20, 21]
    let index4 = NumericRangeIndex::new(30i32, 35); // [30, 31, 32, 33, 34]

    let indices = HCons {
        head: index1.clone(),
        tail: HCons {
            head: index2.clone(),
            tail: HCons { head: index3.clone(), tail: HCons { head: index4.clone(), tail: HNil } },
        },
    };
    let compound_index = CompoundIndex::new(indices);

    // Create data for a 3x4x2x5 array (120 elements)
    let data: Vec<i32> = (1..=120).collect();

    let df = DataFrame::new(compound_index, data);

    // Iterate over first dimension (dim0)
    let mut iter_dim0 = df.iter_over_dim::<Here>();
    let mut count = 0;
    while let Some((index_value, slice_df)) = iter_dim0.next() {
        assert_eq!(index_value, count);
        assert_eq!(slice_df.data().len(), 40); // 4*2*5 = 40 elements per slice

        // Check first and last element of each slice
        assert_eq!(*slice_df.data().at(0), count * 40 + 1); // First element
        assert_eq!(*slice_df.data().at(39), (count + 1) * 40); // Last element
        count += 1;
    }
    assert_eq!(count, 3);

    // Iterate over second dimension (dim1)
    let mut iter_dim1 = df.iter_over_dim::<There<Here>>();
    let mut count = 0;
    while let Some((index_value, slice_df)) = iter_dim1.next() {
        assert_eq!(index_value, count + 10);
        assert_eq!(slice_df.data().len(), 30); // 3*2*5 = 30 elements per slice
        count += 1;
    }
    assert_eq!(count, 4);

    // Iterate over third dimension (dim2)
    let mut iter_dim2 = df.iter_over_dim::<There<There<Here>>>();
    let mut count = 0;
    while let Some((index_value, slice_df)) = iter_dim2.next() {
        assert_eq!(index_value, count + 20);
        assert_eq!(slice_df.data().len(), 60); // 3*4*5 = 60 elements per slice
        count += 1;
    }
    assert_eq!(count, 2);

    // Iterate over fourth dimension (dim3)
    let mut iter_dim3 = df.iter_over_dim::<There<There<There<Here>>>>();
    let mut count = 0;
    while let Some((index_value, slice_df)) = iter_dim3.next() {
        assert_eq!(index_value, count + 30);
        assert_eq!(slice_df.data().len(), 24); // 3*4*2 = 24 elements per slice
        count += 1;
    }
    assert_eq!(count, 5);
}

#[test]
fn test_aggregate_over_dim_nd() {
    // Summing through the borrowing variant gives the same results as the
    // consuming one.
    let index1 = NumericRangeIndex::new(0i32, 2); // [0, 1]
    let index2 = NumericRangeIndex::new(10i32, 13); // [10, 11, 12]
    let indices = HCons { head: index1, tail: HCons { head: index2, tail: HNil } };
    let df = DataFrame::new(CompoundIndex::new(indices), vec![10, 20, 30, 40, 50, 60]);

    let sum_cols = df.aggregate_over_dim_nd::<There<Here>, _, i32>(|group: Vec<i32>| {
        let mut total = 0;
        for v in group {
            total += v;
        }
        total
    });
    assert_eq!(sum_cols.data, vec![60, 150]);
}

#[test]
fn test_mean_over_dim_empty_dimension() {
    // The mean over a zero-size dimension must fail deterministically.
    let empty: CategoricalRange<i64> = CategoricalRange::new(vec![]);
    let cols = NumericRangeIndex::new(0i64, 3);
    let indices = HCons { head: empty, tail: HCons { head: cols, tail: HNil } };
    let df: DataFrame<_, Vec<i64>> = DataFrame::new(CompoundIndex::new(indices), vec![]);

    assert!(df.mean_over_dim::<Here>().is_none());
}
