use mematrica::{ErrorKind, Matrix, Matrix2, Matrix23, Operations};

#[test]
fn matrix2_i32_add_test() {
    let m = Matrix2::<i32>::one();
    let m2 = Matrix2::<i32>::one();

    assert_eq!(m.try_add(m2.clone()).unwrap().element(0, 0).unwrap(), 2);
}

#[test]
fn matrix2_i32_sub_test() {
    let m = Matrix2::<i32>::one();
    let m2 = Matrix2::<i32>::one();

    assert_eq!(m.try_sub(m2.clone()).unwrap().element(0, 0).unwrap(), 0);
}

#[test]
fn matrix2_mul_test() {
    let m = Matrix2::new(1, 2, 3, 4);
    let m2 = Matrix2::new(5, 6, 7, 8);

    assert_eq!(m.clone().try_multiplicate(m2.clone()).unwrap().element(0, 0).unwrap(), 19);
    assert_eq!(m.clone().try_multiplicate(m2.clone()).unwrap().element(0, 1).unwrap(), 22);
    assert_eq!(m.clone().try_multiplicate(m2.clone()).unwrap().element(1, 0).unwrap(), 43);
    assert_eq!(m.clone().try_multiplicate(m2.clone()).unwrap().element(1, 1).unwrap(), 50);

    assert_eq!(m.clone().multiplicate(m2.clone()).element(0, 0).unwrap(), 19);
    assert_eq!(m.clone().multiplicate(m2.clone()).element(0, 1).unwrap(), 22);
    assert_eq!(m.clone().multiplicate(m2.clone()).element(1, 0).unwrap(), 43);
    assert_eq!(m.multiplicate(m2.clone()).element(1, 1).unwrap(), 50);
}

#[test]
fn matrix2_det_test() {
    let m = Matrix2::new(5, 6, 1, 4);

    assert_eq!(m.det(), 14);
}

#[test]
fn matrix2_constructors() {
    assert_eq!(Matrix2::<i32>::zero().get_elements(), vec![vec![0, 0], vec![0, 0]]);
    assert_eq!(Matrix2::<i32>::one().get_elements(), vec![vec![1, 1], vec![1, 1]]);
    assert_eq!(Matrix2::<i32>::identity().get_elements(), vec![vec![1, 0], vec![0, 1]]);
    assert_eq!(Matrix2::from_element(4).get_elements(), vec![vec![4, 4], vec![4, 4]]);
    assert_eq!(Matrix2::from_diagonal(4).get_elements(), vec![vec![4, 0], vec![0, 4]]);
    assert_eq!(Matrix2::new(1, 2, 3, 4).get_elements(), vec![vec![1, 2], vec![3, 4]]);
    assert_eq!(
        Matrix2::from_vec_as_columns(vec![1, 2, 3, 4]).unwrap().get_elements(),
        vec![vec![1, 3], vec![2, 4]]
    );
    assert_eq!(
        Matrix2::from_vec_as_rows(vec![1, 2, 3, 4]).unwrap().get_elements(),
        vec![vec![1, 2], vec![3, 4]]
    );
}

#[test]
fn matrix2_from_three_elements_is_a_shape_error() {
    let e = Matrix2::from_vec_as_rows(vec![1, 2, 3]).unwrap_err();
    assert_eq!(e.kind(), ErrorKind::ShapeError);
    assert_eq!(e.0, "Not enough elements in vector!");
    let e = Matrix2::from_vec_as_columns(vec![1, 2, 3]).unwrap_err();
    assert_eq!(e.kind(), ErrorKind::ShapeError);
    let e = Matrix2::from_vec_as_rows(vec![1, 2, 3, 4, 5]).unwrap_err();
    assert_eq!(e.kind(), ErrorKind::ShapeError);
    assert_eq!(e.0, "Too much elements in vector!");
}

#[test]
fn matrix2_keeps_its_shape() {
    let mut m = Matrix2::new(1, 2, 3, 4);
    let e = m.set_elements(vec![vec![1, 2, 3], vec![4, 5, 6]]).unwrap_err();
    assert_eq!(e.kind(), ErrorKind::ShapeError);
    assert_eq!(m.get_elements(), vec![vec![1, 2], vec![3, 4]]);
    assert_eq!(e.0, "Can't make Matrix2 from this elements! Wrong size maybe?");
    let e = m.set_elements(vec![vec![5, 6], vec![7]]).unwrap_err();
    assert_eq!(e.kind(), ErrorKind::ShapeError);
    assert_eq!(m.get_elements(), vec![vec![1, 2], vec![3, 4]]);
    let e = m.set_elements(vec![vec![5, 6]]).unwrap_err();
    assert_eq!(e.kind(), ErrorKind::ShapeError);
    assert_eq!(m.get_elements(), vec![vec![1, 2], vec![3, 4]]);
    assert!(m.set_elements(vec![vec![9, 8], vec![7, 0]]).is_ok());
    assert_eq!(m.get_elements(), vec![vec![9, 8], vec![7, 0]]);
    assert!(m.check_size().is_ok());
    m.transpose();
    assert_eq!(m.get_elements(), vec![vec![9, 7], vec![8, 0]]);
    assert_eq!(m.get_rows(), 2);
    assert_eq!(m.get_columns(), 2);
}

#[test]
fn matrix2_scaled() {
    let m = Matrix2::new(1, 2, 3, 4);
    let double = m.try_scale(2).unwrap();
    assert_eq!(double.get_elements(), vec![vec![2, 4], vec![6, 8]]);
    let e = Matrix2::new(i32::MAX, 0, 0, 0).try_scale(2).unwrap_err();
    assert_eq!(e.kind(), ErrorKind::Arithmetic);
}
