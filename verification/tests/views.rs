//! Tests for the strided and tri-product views, including their bounds
//! checks.

use slice_and_dice::data_frame::strided_index_view::StridedIndexView;
use slice_and_dice::data_frame::util::tri_product_index_view::TriProductIndexView;

#[test]
fn test_strided_index_view() {
    let data = vec![0, 1, 2, 3, 4, 5, 6, 7, 8, 9];
    let mut view = StridedIndexView {
        base: 1,
        stride: 3,
        n_strides: 3,
        view_into: &data,
    };
    let mut collected = Vec::new();
    while let Some(item) = view.next() {
        collected.push(item);
    }
    assert_eq!(collected, vec![&1, &4, &7]);
}

#[test]
fn tri_product_index_view_matches_iproduct_order() {
    let l_size = 3;
    let m_size = 2;
    let r_size = 4;
    let m_i = 1; // Fix middle index
    // Build an example backing buffer with obvious values
    let total = l_size * m_size * r_size;
    let data: Vec<usize> = (0..total).collect();

    let view = TriProductIndexView::new(l_size, m_size, r_size, m_i, &data);
    let mut expected: Vec<&usize> = Vec::new();
    for l_i in 0..l_size {
        for r_i in 0..r_size {
            expected.push(&data[l_i * (m_size * r_size) + m_i * r_size + r_i]);
        }
    }
    let got: Vec<&usize> = (0..view.len()).map(|k| view.at(k)).collect();
    assert_eq!(got, expected);
}

#[test]
fn test_strided_view_out_of_bounds() {
    // A view whose maximal computed position would escape the backing
    // collection must fail to construct.
    let data = vec![0, 1, 2, 3];
    assert!(StridedIndexView::try_new(1, 2, 3, &data).is_none()); // 1, 3, 5: escapes
    assert!(StridedIndexView::try_new(0, 1, 4, &data).is_some()); // 0..=3: fits
    assert!(StridedIndexView::try_new(9, 1, 0, &data).is_some()); // empty view
}

#[test]
fn test_tri_product_view_out_of_bounds() {
    // A tri-product view whose maximal computed position would escape the
    // backing collection must fail to construct.
    let data: Vec<i32> = (0..8).collect();
    assert!(TriProductIndexView::try_new(2, 2, 2, 1, &data).is_some()); // 2*2*2 cube: fits
    assert!(TriProductIndexView::try_new(3, 2, 2, 1, &data).is_none()); // needs 12 slots
}

#[test]
fn test_strided_view_to_vec() {
    let data = vec![10, 20, 30, 40, 50, 60];
    let view = StridedIndexView::new(0, 2, 3, &data);
    assert_eq!(view.to_vec(), vec![10, 30, 50]);
    assert_eq!(view.len(), 3);
    assert_eq!(*view.at(2), 50);
}
