use mematrica::{CMatrix, CMatrixTrait, ErrorKind, Matrix, Matrix2, Matrix23, Matrix3, Operations};

#[test]
fn cmatrix_i32_add_test() {
    let m = CMatrix::<i32>::one(2, 3);
    let m2 = CMatrix::<i32>::one(2, 3);

    assert_eq!(m.try_add(m2.clone()).unwrap().element(0, 0).unwrap(), 2);
}

#[test]
fn cmatrix_i32_sub_test() {
    let m = CMatrix::<i32>::one(2, 3);
    let m2 = CMatrix::<i32>::one(2, 3);

    assert_eq!(m.try_sub(m2.clone()).unwrap().element(0, 0).unwrap(), 0);
}

#[test]
#[should_panic]
fn cmatrix_mul_panic_test() {
    let m = CMatrix::from_element(2, 3, 2);
    let m2 = CMatrix::from_element(2, 3, 2);

    assert_eq!(m.multiplicate(m2.clone()).element(0, 0).unwrap(), 1);
}

#[test]
fn cmatrix_cmatrix_mul_test() {
    let m = CMatrix::from_element(2, 3, 2);
    let m2 = CMatrix::from_element(3, 2, 2);

    assert_eq!(m.clone().multiplicate(m2.clone()).element(0, 0).unwrap(), 12);
    assert_eq!(m.clone().multiplicate(m2.clone()).element(0, 1).unwrap(), 12);
    assert_eq!(m.clone().multiplicate(m2.clone()).element(1, 0).unwrap(), 12);
    assert_eq!(m.clone().multiplicate(m2.clone()).element(1, 1).unwrap(), 12);
}

#[test]
fn cmatrix_matrix2_mul_test() {
    let m = CMatrix::from_element(2, 2, 2);
    let m2 = Matrix2::from_element(2);

    assert_eq!(m.clone().multiplicate(m2.clone()).element(0, 0).unwrap(), 8);
    assert_eq!(m.clone().multiplicate(m2.clone()).element(0, 1).unwrap(), 8);
    assert_eq!(m.clone().multiplicate(m2.clone()).element(1, 0).unwrap(), 8);
    assert_eq!(m.clone().multiplicate(m2.clone()).element(1, 1).unwrap(), 8);
}

#[test]
fn cmatrix_matrix3_mul_test() {
    let m = CMatrix::from_element(2, 3, 2);
    let m2 = Matrix3::from_element(2);

    let mul_result = m.multiplicate(m2.clone());

    assert_eq!(mul_result.element(0, 0).unwrap(), 12);
    assert_eq!(mul_result.element(0, 1).unwrap(), 12);
    assert_eq!(mul_result.element(0, 2).unwrap(), 12);
    assert_eq!(mul_result.element(1, 0).unwrap(), 12);
    assert_eq!(mul_result.element(1, 1).unwrap(), 12);
    assert_eq!(mul_result.element(1, 2).unwrap(), 12);
}

#[test]
fn cmatrix_transpose_test() {
    let m = CMatrix::from_vec_as_rows(2, vec![1, 2, 3, 4]).unwrap();
    let mut m_clone = m.clone();
    m_clone.transpose();

    assert_eq!(m.get_columns(), m_clone.get_rows());
}

#[test]
fn cmatrix_det_test() {
    let mut m = CMatrix::from_element(4, 4, 2);

    m.set_elements(vec![
        vec![2, 0, 1, 6],
        vec![3, 2, 8, 4],
        vec![4, 4, 4, 4],
        vec![8, 7, 9, 5],
    ])
    .unwrap();

    assert_eq!(m.det(), 208);
}

#[test]
#[should_panic]
fn cmatrix_det_panic_test() {
    let mut m = CMatrix::from_element(4, 4, 2);

    m.set_elements(vec![vec![3, 2, 8, 4], vec![4, 4, 4, 4], vec![8, 7, 9, 5]])
        .unwrap();

    assert_eq!(m.det(), 208);
}

#[test]
fn cmatrix_constructors() {
    let zero = CMatrix::<i32>::zero(2, 3);
    assert_eq!(zero.get_elements(), vec![vec![0, 0, 0], vec![0, 0, 0]]);
    assert_eq!(zero.get_rows(), 2);
    assert_eq!(zero.get_columns(), 3);
    let one = CMatrix::<i32>::one(1, 2);
    assert_eq!(one.get_elements(), vec![vec![1, 1]]);
    let identity = CMatrix::<i32>::identity(2, 3);
    assert_eq!(identity.get_elements(), vec![vec![1, 0, 0], vec![0, 1, 0]]);
    let tall = CMatrix::<i32>::identity(3, 2);
    assert_eq!(tall.get_elements(), vec![vec![1, 0], vec![0, 1], vec![0, 0]]);
    let diagonal = CMatrix::from_diagonal(2, 2, 7);
    assert_eq!(diagonal.get_elements(), vec![vec![7, 0], vec![0, 7]]);
    let columns = CMatrix::from_vec_as_columns(3, vec![1, 2, 3, 4, 5, 6]).unwrap();
    assert_eq!(columns.get_elements(), vec![vec![1, 3, 5], vec![2, 4, 6]]);
    let rows = CMatrix::from_vec_as_rows(2, vec![1, 2, 3, 4, 5, 6]).unwrap();
    assert_eq!(rows.get_elements(), vec![vec![1, 2, 3], vec![4, 5, 6]]);
}

#[test]
fn cmatrix_empty_shapes() {
    let none = CMatrix::<i32>::zero(0, 5);
    assert_eq!(none.get_rows(), 0);
    assert_eq!(none.get_columns(), 5);
    let mut turned = none.clone();
    turned.transpose();
    assert_eq!(turned.get_rows(), 5);
    assert_eq!(turned.get_columns(), 0);
    turned.transpose();
    assert!(turned.same(&none));
    let empty = CMatrix::<i32>::zero(0, 0);
    assert_eq!(empty.try_det().unwrap(), 1);
}

#[test]
fn set_elements_pads_short_rows() {
    let mut m = CMatrix::<i32>::zero(1, 1);
    m.set_elements(vec![vec![1], vec![2, 3, 4], vec![]]).unwrap();
    assert_eq!(
        m.get_elements(),
        vec![vec![1, 0, 0], vec![2, 3, 4], vec![0, 0, 0]]
    );
    assert_eq!(m.get_rows(), 3);
    assert_eq!(m.get_columns(), 3);
    m.set_elements(vec![]).unwrap();
    assert_eq!(m.get_rows(), 0);
    assert_eq!(m.get_columns(), 0);
}

#[test]
fn transpose_swaps_cells() {
    let mut m = CMatrix::<i32>::zero(1, 1);
    m.set_elements(vec![vec![1, 2], vec![3, 4]]).unwrap();
    m.transpose();
    assert_eq!(m.get_elements(), vec![vec![1, 3], vec![2, 4]]);
    let mut wide = CMatrix::from_vec_as_rows(2, vec![1, 2, 3, 4, 5, 6]).unwrap();
    wide.transpose();
    assert_eq!(wide.get_elements(), vec![vec![1, 4], vec![2, 5], vec![3, 6]]);
}

#[test]
fn push_and_pop() {
    let mut m = CMatrix::<i32>::zero(1, 2);
    assert!(m.push(vec![5, 6]).is_ok());
    assert_eq!(m.get_elements(), vec![vec![0, 0], vec![5, 6]]);
    let e = m.push(vec![1, 2, 3]).unwrap_err();
    assert_eq!(e.kind(), ErrorKind::ShapeError);
    assert_eq!(m.get_elements(), vec![vec![0, 0], vec![5, 6]]);
    assert!(m.pop().is_ok());
    assert!(m.pop().is_ok());
    assert_eq!(m.get_rows(), 0);
    assert_eq!(m.pop().unwrap_err().kind(), ErrorKind::IndexError);
}

#[test]
fn conversions_check_the_shape() {
    let m = CMatrix::from_element(2, 2, 3);
    let fixed = m.clone().to_matrix2().unwrap();
    assert_eq!(fixed.get_elements(), vec![vec![3, 3], vec![3, 3]]);
    assert_eq!(m.clone().to_matrix3().unwrap_err().kind(), ErrorKind::ShapeError);
    let back = fixed.to_cmatrix();
    assert!(back.same(&m));
    let three = CMatrix::from_element(3, 3, 1).to_matrix3().unwrap();
    assert_eq!(three.get_rows(), 3);
    assert_eq!(
        CMatrix::from_element(3, 2, 1).to_matrix2().unwrap_err().kind(),
        ErrorKind::ShapeError
    );
}

#[test]
fn default_is_empty() {
    let m = CMatrix::<i32>::default();
    assert_eq!(m.get_rows(), 0);
    assert_eq!(m.get_columns(), 0);
    assert!(m.get_elements().is_empty());
}

#[test]
fn flat_vector_fills_rows_or_columns() {
    let m = CMatrix::from_vec_as_rows(2, vec![1, 2, 3, 4]).unwrap();
    assert_eq!(m.get_rows(), 2);
    assert_eq!(m.get_columns(), 2);
    assert_eq!(m.get_elements(), vec![vec![1, 2], vec![3, 4]]);
    let mut t = m.clone();
    t.transpose();
    assert_eq!(t.get_elements(), vec![vec![1, 3], vec![2, 4]]);
    let c = CMatrix::from_vec_as_columns(2, vec![1, 2, 3, 4]).unwrap();
    assert_eq!(c.get_elements(), vec![vec![1, 3], vec![2, 4]]);
    let e = CMatrix::from_vec_as_rows(2, vec![1, 2, 3]).unwrap_err();
    assert_eq!(e.kind(), ErrorKind::ShapeError);
    assert_eq!(e.0, "Wrong vector size!");
    let e = CMatrix::from_vec_as_columns(0, vec![1]).unwrap_err();
    assert_eq!(e.kind(), ErrorKind::ShapeError);
    let none = CMatrix::<i32>::from_vec_as_rows(0, vec![]).unwrap();
    assert_eq!(none.get_rows(), 0);
    assert_eq!(none.get_columns(), 0);
    let empty_rows = CMatrix::<i32>::from_vec_as_rows(3, vec![]).unwrap();
    assert_eq!(empty_rows.get_rows(), 3);
    assert_eq!(empty_rows.get_columns(), 0);
}

#[test]
fn set_element_replaces_one_cell() {
    let mut m = CMatrix::<i32>::zero(2, 2);
    assert!(m.set_element(1, 0, 7).is_ok());
    assert_eq!(m.get_elements(), vec![vec![0, 0], vec![7, 0]]);
    let e = m.set_element(2, 0, 1).unwrap_err();
    assert_eq!(e.kind(), ErrorKind::IndexError);
    assert_eq!(e.0, "Wrong index value!");
    let e = m.set_element(0, 2, 1).unwrap_err();
    assert_eq!(e.kind(), ErrorKind::IndexError);
    assert_eq!(m.get_elements(), vec![vec![0, 0], vec![7, 0]]);
    let mut fixed = Matrix2::new(1, 2, 3, 4);
    fixed.set_element(0, 1, 9).unwrap();
    assert_eq!(fixed.get_elements(), vec![vec![1, 9], vec![3, 4]]);
}
