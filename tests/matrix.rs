use dense_matrix::matrix::Matrix;

fn diagonal() -> Matrix<i32> {
    Matrix::from_parts(3, 3, vec![1, 0, 0, 0, 2, 0, 0, 0, 3])
}

#[test]
fn macro_simple() {
    let m = Matrix::from_parts(2, 3, vec![1, 2, 3, 4, 5, 6]);
    assert_eq!(m.rows(), 2);
    assert_eq!(m.cols(), 3);
    assert_eq!(m.get(0, 0), Some(&1));
    assert_eq!(m.get(0, 1), Some(&2));
    assert_eq!(m.get(0, 2), Some(&3));
    assert_eq!(m.get(1, 0), Some(&4));
    assert_eq!(m.get(1, 1), Some(&5));
    assert_eq!(m.get(1, 2), Some(&6));
    assert_eq!(m.get(2, 0), None);
}

#[test]
fn global_iteration() {
    let m = diagonal();
    assert_eq!(m.iter().iter().sum::<i32>(), 6);
    let vals = m.iter().iter().copied().collect::<Vec<i32>>();
    assert_eq!(vals, &[1, 0, 0, 0, 2, 0, 0, 0, 3]);
}

#[test]
fn row_iteration() {
    let m = diagonal();
    assert_eq!(m.iter_row(0).iter().sum::<i32>(), 1);
    assert_eq!(m.iter_row(1).iter().sum::<i32>(), 2);
    assert_eq!(m.iter_row(2).iter().sum::<i32>(), 3);
    let vals = m.iter_row(0).iter().copied().collect::<Vec<i32>>();
    assert_eq!(vals, &[1, 0, 0]);
}

#[test]
fn col_iteration() {
    let m = Matrix::from_parts(3, 3, vec![1, 0, 0, 0, 2, 0, 3, 0, 0]);
    assert_eq!(m.iter_col(0).into_iter().sum::<i32>(), 4);
    assert_eq!(m.iter_col(1).into_iter().sum::<i32>(), 2);
    assert_eq!(m.iter_col(2).into_iter().sum::<i32>(), 0);
    let vals = m.iter_col(0).into_iter().copied().collect::<Vec<i32>>();
    assert_eq!(vals, &[1, 0, 3]);
}

#[test]
fn clone_buffer() {
    let m = diagonal();
    let vals = m.clone_buffer();
    assert_eq!(vals, &[1, 0, 0, 0, 2, 0, 0, 0, 3]);
}

#[test]
fn printing() {
    let m = diagonal();
    assert_eq!(m.to_string(), "[[1, 0, 0],\n [0, 2, 0],\n [0, 0, 3]]\n");
}

#[test]
fn new_fills_with_default() {
    let m: Matrix<i32> = Matrix::new(2, 4);
    assert_eq!(m.rows(), 2);
    assert_eq!(m.cols(), 4);
    assert_eq!(m.clone_buffer(), vec![0; 8]);
    let s: Matrix<String> = Matrix::new(1, 2);
    assert_eq!(s.get(0, 1), Some(&String::new()));
}

#[test]
fn new_with_zero_dimension_is_empty() {
    let m: Matrix<u8> = Matrix::new(0, 5);
    assert_eq!(m.rows(), 0);
    assert_eq!(m.cols(), 5);
    assert!(m.data().is_empty());
    assert_eq!(m.iter_rows().len(), 0);
    assert_eq!(m.iter_cols().len(), 5);
    assert_eq!(m.to_string(), "");
    let n: Matrix<u8> = Matrix::new(3, 0);
    assert_eq!(n.iter_rows().len(), 3);
    assert!(n.iter_rows().iter().all(|r| r.is_empty()));
    assert_eq!(n.get(0, 0), None);
}

#[test]
fn from_default_fills_every_cell() {
    let m = Matrix::from_default(2, 2, String::from("x"));
    assert_eq!(m.clone_buffer(), vec!["x", "x", "x", "x"]);
}

#[test]
fn get_matches_unchecked_access() {
    let m = Matrix::from_parts(2, 3, vec![10, 11, 12, 20, 21, 22]);
    for r in 0..2 {
        for c in 0..3 {
            assert_eq!(m.get(r, c), Some(m.get_unchecked(r, c)));
            assert_eq!(*m.get_unchecked(r, c), 10 * (r as i32 + 1) + c as i32);
        }
    }
}

#[test]
fn get_out_of_range_is_none() {
    let mut m = Matrix::from_parts(2, 3, vec![1, 2, 3, 4, 5, 6]);
    assert_eq!(m.get(2, 0), None);
    assert_eq!(m.get(0, 3), None);
    assert_eq!(m.get(1, 3), None);
    assert_eq!(m.get(usize::MAX, usize::MAX), None);
    assert!(m.get_mut(2, 0).is_none());
    assert!(m.get_mut(0, 3).is_none());
    assert_eq!(m.clone_buffer(), vec![1, 2, 3, 4, 5, 6]);
}

#[test]
fn get_mut_writes_back() {
    let mut m = Matrix::from_parts(2, 2, vec![1, 2, 3, 4]);
    *m.get_mut(1, 0).unwrap() = 30;
    assert_eq!(m.get(1, 0), Some(&30));
    *m.get_unchecked_mut(0, 1) = 20;
    assert_eq!(m.clone_buffer(), vec![1, 20, 30, 4]);
}

#[test]
fn from_parts_round_trip() {
    let d = vec![5, 4, 3, 2, 1, 0];
    let m = Matrix::from_parts(3, 2, d.clone());
    assert_eq!(m.clone_buffer(), d);
    assert_eq!(m.data(), &d[..]);
}

#[test]
fn rows_partition_the_buffer() {
    let m = Matrix::from_parts(3, 2, vec![1, 2, 3, 4, 5, 6]);
    let rows = m.iter_rows();
    assert_eq!(rows.len(), 3);
    assert_eq!(rows[0], &[1, 2]);
    assert_eq!(rows[1], &[3, 4]);
    assert_eq!(rows[2], &[5, 6]);
    assert_eq!(rows.concat(), m.clone_buffer());
}

#[test]
fn cols_in_order() {
    let m = Matrix::from_parts(2, 3, vec![1, 2, 3, 4, 5, 6]);
    let cols: Vec<Vec<i32>> = m.iter_cols().into_iter().map(|c| c.into_iter().copied().collect()).collect();
    assert_eq!(cols, vec![vec![1, 4], vec![2, 5], vec![3, 6]]);
}

#[test]
fn mutable_iteration_over_matrix() {
    let mut m = Matrix::from_parts(2, 3, vec![1, 2, 3, 4, 5, 6]);
    for x in m.iter_mut().iter_mut() {
        *x *= 10;
    }
    assert_eq!(m.clone_buffer(), vec![10, 20, 30, 40, 50, 60]);
    for x in m.iter_row_mut(1).iter_mut() {
        *x += 1;
    }
    assert_eq!(m.clone_buffer(), vec![10, 20, 30, 41, 51, 61]);
    for x in m.iter_col_mut(2) {
        *x = 0;
    }
    assert_eq!(m.clone_buffer(), vec![10, 20, 0, 41, 51, 0]);
    for (i, row) in m.iter_rows_mut().into_iter().enumerate() {
        row[0] = i as i32;
    }
    assert_eq!(m.clone_buffer(), vec![0, 20, 0, 1, 51, 0]);
    m.data_mut()[1] = 7;
    assert_eq!(m.get(0, 1), Some(&7));
}

#[test]
fn equality_compares_dimensions_and_cells() {
    let a = Matrix::from_parts(2, 3, vec![1, 2, 3, 4, 5, 6]);
    let b = Matrix::from_parts(3, 2, vec![1, 2, 3, 4, 5, 6]);
    let c = a.clone();
    assert_eq!(a, c);
    assert_ne!(a, b);
    let mut d = a.clone();
    *d.get_mut(1, 1).unwrap() = 0;
    assert_ne!(a, d);
}

#[test]
fn all_columns_mutable_at_once() {
    let mut m = Matrix::from_parts(2, 3, vec![1, 2, 3, 4, 5, 6]);
    for (j, col) in m.iter_cols_mut().into_iter().enumerate() {
        assert_eq!(col.len(), 2);
        for x in col {
            *x += 10 * j as i32;
        }
    }
    assert_eq!(m.clone_buffer(), vec![1, 12, 23, 4, 15, 26]);
    let mut empty: Matrix<i32> = Matrix::new(0, 2);
    let cols = empty.iter_cols_mut();
    assert_eq!(cols.len(), 2);
    assert!(cols.iter().all(|c| c.is_empty()));
}
