use dense_matrix::matrix::Matrix;
use dense_matrix::slice::MatrixSlice;
use dense_matrix::slicemut::MatrixSliceMut;

fn sample() -> Matrix<i32> {
    Matrix::from_parts(2, 3, vec![1, 2, 3, 4, 5, 6])
}

#[test]
fn view_matches_matrix() {
    let m = sample();
    let v = m.as_slice();
    assert_eq!(v.rows(), m.rows());
    assert_eq!(v.cols(), m.cols());
    for r in 0..3 {
        for c in 0..4 {
            assert_eq!(v.get(r, c), m.get(r, c));
        }
    }
    assert_eq!(*v.get_unchecked(1, 2), 6);
    assert_eq!(v.data(), m.data());
    assert_eq!(v.clone_buffer(), m.clone_buffer());
}

#[test]
fn view_iteration() {
    let m = sample();
    let v = MatrixSlice::new(&m);
    assert_eq!(v.iter().iter().sum::<i32>(), 21);
    assert_eq!(v.iter_row(1), &[4, 5, 6]);
    assert_eq!(v.iter_col(1).into_iter().copied().collect::<Vec<i32>>(), vec![2, 5]);
    assert_eq!(v.iter_rows().concat(), vec![1, 2, 3, 4, 5, 6]);
    assert_eq!(v.iter_cols().len(), 3);
    assert_eq!(v.iter_cols()[2].iter().map(|x| **x).collect::<Vec<i32>>(), vec![3, 6]);
}

#[test]
fn mutable_view_matches_matrix() {
    let mut m = sample();
    let expected = m.clone_buffer();
    let v = m.as_slice_mut();
    assert_eq!(v.rows(), 2);
    assert_eq!(v.cols(), 3);
    assert_eq!(v.get(1, 1), Some(&5));
    assert_eq!(v.get(2, 0), None);
    assert_eq!(*v.get_unchecked(0, 2), 3);
    assert_eq!(v.clone_buffer(), expected);
    assert_eq!(v.data(), &expected[..]);
    assert_eq!(v.iter_row(0), &[1, 2, 3]);
    assert_eq!(v.iter_col(0).into_iter().copied().collect::<Vec<i32>>(), vec![1, 4]);
    assert_eq!(v.iter_rows().concat(), expected);
    assert_eq!(v.iter_cols().len(), 3);
    assert_eq!(v.iter().iter().sum::<i32>(), 21);
}

#[test]
fn writes_through_mutable_view_reach_matrix() {
    let mut m = sample();
    {
        let mut v = MatrixSliceMut::new(&mut m);
        *v.get_mut(0, 0).unwrap() = 100;
        assert!(v.get_mut(5, 0).is_none());
        *v.get_unchecked_mut(1, 2) = 600;
        for x in v.iter_mut().iter_mut() {
            *x += 1;
        }
    }
    assert_eq!(m.get(0, 0), Some(&101));
    assert_eq!(m.get(1, 2), Some(&601));
    assert_eq!(m.clone_buffer(), vec![101, 3, 4, 5, 6, 601]);
}

#[test]
fn mutable_view_row_and_column_access() {
    let mut m = sample();
    {
        let mut v = m.as_slice_mut();
        v.iter_row_mut(0)[1] = 20;
        for x in v.iter_col_mut(0) {
            *x = -*x;
        }
        for row in v.iter_rows_mut() {
            row[2] = 0;
        }
        v.data_mut()[4] = 50;
    }
    assert_eq!(m.clone_buffer(), vec![-1, 20, 0, -4, 50, 0]);
}

#[test]
fn mutable_view_columns_at_once() {
    let mut m = sample();
    {
        let mut v = m.as_slice_mut();
        let mut cols = v.iter_cols_mut();
        *cols[0][1] = 40;
        *cols[2][0] = 30;
    }
    assert_eq!(m.clone_buffer(), vec![1, 2, 30, 40, 5, 6]);
}
