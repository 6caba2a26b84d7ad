use mematrica::{ErrorKind, Matrix, Matrix23, Matrix3, Operations};

#[test]
fn matrix3_i32_add_test() {
    let m = Matrix3::<i32>::one();
    let m2 = Matrix3::<i32>::one();

    assert_eq!(m.try_add(m2.clone()).unwrap().element(0, 0).unwrap(), 2);
}

#[test]
fn matrix3_i32_sub_test() {
    let m = Matrix3::<i32>::one();
    let m2 = Matrix3::<i32>::one();

    assert_eq!(m.try_sub(m2.clone()).unwrap().element(0, 0).unwrap(), 0);
}

#[test]
fn matrix3_mul_test() {
    let m = Matrix3::new(1, 2, 3, 4, 5, 6, 7, 8, 9);
    let m2 = Matrix3::new(10, 11, 12, 13, 14, 15, 16, 17, 18);

    assert_eq!(m.clone().multiplicate(m2.clone()).element(0, 0).unwrap(), 84);
    assert_eq!(m.clone().multiplicate(m2.clone()).element(0, 1).unwrap(), 90);
    assert_eq!(m.clone().multiplicate(m2.clone()).element(0, 2).unwrap(), 96);
    assert_eq!(m.clone().multiplicate(m2.clone()).element(1, 0).unwrap(), 201);
    assert_eq!(m.clone().multiplicate(m2.clone()).element(1, 1).unwrap(), 216);
    assert_eq!(m.clone().multiplicate(m2.clone()).element(1, 2).unwrap(), 231);
    assert_eq!(m.clone().multiplicate(m2.clone()).element(2, 0).unwrap(), 318);
    assert_eq!(m.clone().multiplicate(m2.clone()).element(2, 1).unwrap(), 342);
    assert_eq!(m.clone().multiplicate(m2.clone()).element(2, 2).unwrap(), 366);
}

#[test]
fn matrix3_det_test() {
    let m = Matrix3::new(1, 4, 6, 2, 1, 2, 8, 3, 2);

    assert_eq!(m.det(), 32);
}

#[test]
fn matrix3_constructors() {
    assert_eq!(
        Matrix3::<i32>::identity().get_elements(),
        vec![vec![1, 0, 0], vec![0, 1, 0], vec![0, 0, 1]]
    );
    assert_eq!(
        Matrix3::from_diagonal(4).get_elements(),
        vec![vec![4, 0, 0], vec![0, 4, 0], vec![0, 0, 4]]
    );
    assert_eq!(
        Matrix3::from_vec_as_columns(vec![1, 2, 3, 4, 5, 6, 7, 8, 9]).unwrap().get_elements(),
        vec![vec![1, 4, 7], vec![2, 5, 8], vec![3, 6, 9]]
    );
    assert_eq!(
        Matrix3::from_vec_as_rows(vec![1, 2, 3, 4, 5, 6, 7, 8, 9]).unwrap().get_elements(),
        vec![vec![1, 2, 3], vec![4, 5, 6], vec![7, 8, 9]]
    );
    assert_eq!(
        Matrix3::from_vec_as_rows(vec![1, 2, 3, 4]).unwrap_err().kind(),
        ErrorKind::ShapeError
    );
    let mut m = Matrix3::<i32>::zero();
    let e = m.set_elements(vec![vec![1, 2, 3], vec![4, 5], vec![6]]).unwrap_err();
    assert_eq!(e.0, "Can't make Matrix3 from this elements! Wrong size maybe?");
    assert_eq!(m.get_elements(), Matrix3::<i32>::zero().get_elements());
    assert_eq!(Matrix3::<i32>::zero().get_columns(), 3);
    assert_eq!(Matrix3::<i32>::one().element(2, 2).unwrap(), 1);
    assert_eq!(Matrix3::from_element(5).element(1, 2).unwrap(), 5);
    assert_eq!(
        Matrix3::from_element(5).element(3, 0).unwrap_err().kind(),
        ErrorKind::IndexError
    );
}

#[test]
fn matrix3_det_with_row_exchange() {
    let m = Matrix3::new(0, 2, 1, 1, 0, 3, 2, 1, 0);
    assert_eq!(m.det(), 13);
    let swapped_far = Matrix3::new(0, 0, 2, 0, 3, 1, 4, 5, 6);
    assert_eq!(swapped_far.det(), -24);
    let singular = Matrix3::new(1, 2, 3, 2, 4, 6, 7, 8, 9);
    assert_eq!(singular.det(), 0);
    let zero_column = Matrix3::new(0, 1, 2, 0, 3, 4, 0, 5, 6);
    assert_eq!(zero_column.det(), 0);
}

#[test]
fn matrix3_to_cmatrix_keeps_the_elements() {
    let m = Matrix3::new(1, 2, 3, 4, 5, 6, 7, 8, 9);
    let c = m.clone().to_cmatrix();
    assert_eq!(c.get_elements(), m.get_elements());
    assert!(m.same(&c));
}
