use mematrica::{CMatrix, CMatrixTrait, ErrorKind, Matrix, Matrix2};

fn sample() -> CMatrix<i32> {
    let mut m = CMatrix::<i32>::zero(0, 0);
    m.set_elements(vec![vec![1, 2, 3], vec![4, 5, 6]]).unwrap();
    m
}

#[test]
fn remove_row_and_column() {
    let m = sample();
    assert_eq!(m.try_remove_row(0).unwrap().get_elements(), vec![vec![4, 5, 6]]);
    assert_eq!(m.try_remove_row(2).unwrap_err().kind(), ErrorKind::IndexError);
    assert_eq!(
        m.try_remove_column(1).unwrap().get_elements(),
        vec![vec![1, 3], vec![4, 6]]
    );
    assert_eq!(m.try_remove_column(3).unwrap_err().kind(), ErrorKind::IndexError);
    assert_eq!(m.get_elements(), vec![vec![1, 2, 3], vec![4, 5, 6]]);
}

#[test]
fn insert_row_and_column() {
    let m = sample();
    assert_eq!(
        m.try_insert_row(1, &vec![7, 8, 9]).unwrap().get_elements(),
        vec![vec![1, 2, 3], vec![7, 8, 9], vec![4, 5, 6]]
    );
    assert_eq!(
        m.try_insert_row(2, &vec![7, 8, 9]).unwrap().get_rows(),
        3
    );
    assert_eq!(m.try_insert_row(3, &vec![7, 8, 9]).unwrap_err().kind(), ErrorKind::IndexError);
    assert_eq!(m.try_insert_row(0, &vec![7, 8]).unwrap_err().kind(), ErrorKind::ShapeError);
    assert_eq!(
        m.try_insert_column(0, &vec![7, 8]).unwrap().get_elements(),
        vec![vec![7, 1, 2, 3], vec![8, 4, 5, 6]]
    );
    assert_eq!(
        m.try_insert_column(3, &vec![7, 8]).unwrap().get_elements(),
        vec![vec![1, 2, 3, 7], vec![4, 5, 6, 8]]
    );
    assert_eq!(m.try_insert_column(4, &vec![7, 8]).unwrap_err().kind(), ErrorKind::IndexError);
    assert_eq!(
        m.try_insert_column(0, &vec![7, 8, 9]).unwrap_err().kind(),
        ErrorKind::ShapeError
    );
}

#[test]
fn row_and_column_ranges() {
    let m = sample();
    assert_eq!(m.try_get_rows(1, 1).unwrap().get_elements(), vec![vec![4, 5, 6]]);
    assert_eq!(m.try_get_rows(0, 2).unwrap().get_elements(), m.get_elements());
    assert_eq!(m.try_get_rows(5, 0).unwrap().get_elements(), m.get_elements());
    assert_eq!(m.try_get_rows(1, 2).unwrap_err().kind(), ErrorKind::IndexError);
    assert_eq!(m.try_get_rows(2, 1).unwrap_err().kind(), ErrorKind::IndexError);
    assert_eq!(m.try_get_rows(usize::MAX, 2).unwrap_err().kind(), ErrorKind::IndexError);
    assert_eq!(
        m.try_get_columns(1, 2).unwrap().get_elements(),
        vec![vec![2, 3], vec![5, 6]]
    );
    assert_eq!(m.try_get_columns(0, 0).unwrap().get_elements(), m.get_elements());
    assert_eq!(m.try_get_columns(2, 2).unwrap_err().kind(), ErrorKind::IndexError);
    assert_eq!(m.try_get_columns(3, 1).unwrap_err().kind(), ErrorKind::IndexError);
}

#[test]
fn replace_row_and_column() {
    let m = sample();
    assert_eq!(
        m.try_replace_row(0, &vec![7, 8, 9]).unwrap().get_elements(),
        vec![vec![7, 8, 9], vec![4, 5, 6]]
    );
    assert_eq!(m.try_replace_row(2, &vec![7, 8, 9]).unwrap_err().kind(), ErrorKind::IndexError);
    assert_eq!(m.try_replace_row(1, &vec![7]).unwrap_err().kind(), ErrorKind::ShapeError);
    assert_eq!(
        m.try_replace_column(2, &vec![7, 8]).unwrap().get_elements(),
        vec![vec![1, 2, 7], vec![4, 5, 8]]
    );
    assert_eq!(m.try_replace_column(3, &vec![7, 8]).unwrap_err().kind(), ErrorKind::IndexError);
    assert_eq!(m.try_replace_column(0, &vec![7]).unwrap_err().kind(), ErrorKind::ShapeError);
}

#[test]
fn contains_and_find() {
    let mut m = CMatrix::<i32>::zero(0, 0);
    m.set_elements(vec![vec![1, 2, 3], vec![3, 2, 1]]).unwrap();
    assert!(m.contains(3));
    assert!(!m.contains(4));
    assert_eq!(m.find(3), Some((0, 2)));
    assert_eq!(m.find(2), Some((0, 1)));
    assert_eq!(m.find(1), Some((0, 0)));
    assert_eq!(m.find(9), None);
    assert_eq!(CMatrix::<i32>::zero(0, 3).find(0), None);
    assert_eq!(Matrix2::new(5, 6, 7, 6).find(6), Some((0, 1)));
}

#[test]
fn element_lookup() {
    let m = sample();
    assert_eq!(m.element(1, 2).unwrap(), 6);
    assert_eq!(m.element(2, 0).unwrap_err().kind(), ErrorKind::IndexError);
    assert_eq!(m.element(0, 3).unwrap_err().kind(), ErrorKind::IndexError);
}
