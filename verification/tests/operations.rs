use mematrica::{CMatrix, CMatrixTrait, Error, ErrorKind, Grid, Matrix, Matrix2, Matrix23, Matrix3, Operations, Scalar};

fn matrix(rows: Vec<Vec<i32>>) -> CMatrix<i32> {
    let mut m = CMatrix::<i32>::zero(0, 0);
    m.set_elements(rows).unwrap();
    m
}

#[test]
fn scalar_units_and_checked_operations() {
    assert_eq!(<i32 as Scalar>::zero(), 0);
    assert_eq!(<i32 as Scalar>::one(), 1);
    assert_eq!(Scalar::checked_add(2, 3), Some(5));
    assert_eq!(Scalar::checked_add(i32::MAX, 1), None);
    assert_eq!(Scalar::checked_sub(i32::MIN, 1), None);
    assert_eq!(Scalar::checked_sub(2, 3), Some(-1));
    assert_eq!(Scalar::checked_mul(1 << 16, 1 << 16), None);
    assert_eq!(Scalar::checked_mul(-4, 5), Some(-20));
    assert_eq!(Scalar::checked_div(-7, 2), Some(-3));
    assert_eq!(Scalar::checked_div(7, -2), Some(-3));
    assert_eq!(Scalar::checked_div(7, 0), None);
    assert_eq!(Scalar::checked_div(i32::MIN, -1), None);
    assert!(Scalar::same(4, 4));
    assert!(Scalar::less(-1, 0));
    assert!(!Scalar::less(3, 3));
    assert_eq!(Scalar::to_i64(-5), -5i64);
    assert_eq!(<i32 as Scalar>::from_i64(1 << 40), None);
    assert_eq!(<i32 as Scalar>::from_i64(-12), Some(-12));
}

#[test]
fn product_of_two_by_two() {
    let a = matrix(vec![vec![1, 2], vec![3, 4]]);
    let b = matrix(vec![vec![5, 6], vec![7, 8]]);
    let p = a.try_multiplicate(b.clone()).unwrap();
    assert_eq!(p.get_elements(), vec![vec![19, 22], vec![43, 50]]);
}

#[test]
fn product_needs_fitting_shapes() {
    let a = CMatrix::from_element(2, 3, 2);
    let b = CMatrix::from_element(2, 3, 2);
    let e = a.try_multiplicate(b.clone()).unwrap_err();
    assert_eq!(e.kind(), ErrorKind::DimensionMismatch);
    let c = CMatrix::from_element(3, 4, 2);
    let p = a.try_multiplicate(c.clone()).unwrap();
    assert_eq!(p.get_rows(), 2);
    assert_eq!(p.get_columns(), 4);
    let w = Matrix3::from_element(4);
    let m = Matrix2::new(1, 2, 3, 4);
    let mul = m.try_multiplicate(w).unwrap_err();
    assert_eq!(mul.kind(), ErrorKind::DimensionMismatch);
    assert_eq!(
        mul.0,
        String::from("Can't multiplicate this matrices: self.columns != rhs.rows")
    );
}

#[test]
fn product_reports_overflow() {
    let a = CMatrix::from_element(1, 2, i32::MAX);
    let b = CMatrix::from_element(2, 1, 1);
    assert_eq!(a.try_multiplicate(b.clone()).unwrap_err().kind(), ErrorKind::Arithmetic);
    let c = CMatrix::from_element(1, 1, 1 << 20);
    assert_eq!(c.try_multiplicate(c.clone()).unwrap_err().kind(), ErrorKind::Arithmetic);
}

#[test]
fn transpose_of_product_is_product_of_transposes() {
    let m = matrix(vec![vec![1, 2, 3], vec![4, 5, 6]]);
    let n = matrix(vec![vec![7, 8], vec![9, 10], vec![11, 12]]);
    let mut left = m.try_multiplicate(n.clone()).unwrap();
    left.transpose();
    let mut mt = m.clone();
    mt.transpose();
    let mut nt = n.clone();
    nt.transpose();
    let right = nt.try_multiplicate(mt.clone()).unwrap();
    assert!(left.same(&right));
    assert_eq!(left.get_elements(), vec![vec![58, 139], vec![64, 154]]);
}

#[test]
fn determinant_of_transpose() {
    let m = matrix(vec![
        vec![2, 0, 1, 6],
        vec![3, 2, 8, 4],
        vec![4, 4, 4, 4],
        vec![8, 7, 9, 5],
    ]);
    let mut t = m.clone();
    t.transpose();
    assert_eq!(m.try_det().unwrap(), 208);
    assert_eq!(t.try_det().unwrap(), 208);
}

#[test]
fn determinant_needs_a_square() {
    let m = CMatrix::from_element(2, 3, 1);
    assert_eq!(m.try_det().unwrap_err().kind(), ErrorKind::NotSquare);
    assert_eq!(matrix(vec![vec![5]]).try_det().unwrap(), 5);
}

#[test]
fn determinant_reports_overflow() {
    let m = matrix(vec![vec![1 << 20, 0], vec![0, 1 << 20]]);
    assert_eq!(m.try_det().unwrap_err().kind(), ErrorKind::Arithmetic);
}

#[test]
fn inverse_with_unit_pivots() {
    let mut m = matrix(vec![vec![1, 1], vec![0, 1]]);
    let given = m.clone();
    m.try_inverse().unwrap();
    assert_eq!(m.get_elements(), vec![vec![1, -1], vec![0, 1]]);
    let product = given.try_multiplicate(m.clone()).unwrap();
    assert!(product.same(&CMatrix::<i32>::identity(2, 2)));
}

#[test]
fn inverse_exchanges_rows_for_the_largest_pivot() {
    let mut m = matrix(vec![vec![0, 1], vec![-1, 0]]);
    let given = m.clone();
    m.try_inverse().unwrap();
    assert_eq!(m.get_elements(), vec![vec![0, -1], vec![1, 0]]);
    let product = given.try_multiplicate(m.clone()).unwrap();
    assert!(product.same(&CMatrix::<i32>::identity(2, 2)));
}

#[test]
fn inverse_errors() {
    let mut wide = CMatrix::from_element(2, 3, 1);
    assert_eq!(wide.try_inverse().unwrap_err().kind(), ErrorKind::NotSquare);
    assert_eq!(wide.get_columns(), 3);
    let mut singular = matrix(vec![vec![1, 2], vec![2, 4]]);
    assert_eq!(singular.try_inverse().unwrap_err().kind(), ErrorKind::Singular);
    assert_eq!(singular.get_elements(), vec![vec![1, 2], vec![2, 4]]);
    let mut zero_pivot = matrix(vec![vec![2, 3], vec![2, 2]]);
    assert_eq!(zero_pivot.try_inverse().unwrap_err().kind(), ErrorKind::Arithmetic);
    assert_eq!(zero_pivot.get_elements(), vec![vec![2, 3], vec![2, 2]]);
}

#[test]
fn inverse_rounds_towards_zero() {
    let mut m = matrix(vec![vec![2]]);
    m.try_inverse().unwrap();
    assert_eq!(m.get_elements(), vec![vec![0]]);
    let mut k = matrix(vec![vec![2, 1], vec![1, 1]]);
    k.try_inverse().unwrap();
    assert_eq!(k.get_elements(), vec![vec![0, 0], vec![0, 1]]);
    let mut n = Matrix2::<i32>::identity();
    n.inverse();
    assert_eq!(n.get_elements(), vec![vec![1, 0], vec![0, 1]]);
}

#[test]
fn sums_and_differences() {
    let a = matrix(vec![vec![1, 2], vec![3, 4]]);
    let b = matrix(vec![vec![10, 20], vec![30, 40]]);
    assert_eq!(
        a.try_add(b.clone()).unwrap().get_elements(),
        vec![vec![11, 22], vec![33, 44]]
    );
    assert_eq!(
        a.try_sub(b.clone()).unwrap().get_elements(),
        vec![vec![-9, -18], vec![-27, -36]]
    );
    let c = CMatrix::from_element(2, 3, 1);
    assert_eq!(a.try_add(c.clone()).unwrap_err().kind(), ErrorKind::DimensionMismatch);
    assert_eq!(a.try_sub(c.clone()).unwrap_err().kind(), ErrorKind::DimensionMismatch);
    let big = CMatrix::from_element(2, 2, i32::MAX);
    assert_eq!(a.try_add(big.clone()).unwrap_err().kind(), ErrorKind::Arithmetic);
    let small = CMatrix::from_element(2, 2, i32::MIN);
    assert_eq!(a.try_sub(small.clone()).unwrap_err().kind(), ErrorKind::Arithmetic);
    let fixed = Matrix2::new(1, 1, 1, 1);
    assert_eq!(
        fixed.try_add(a.clone()).unwrap().get_elements(),
        vec![vec![2, 3], vec![4, 5]]
    );
}

#[test]
fn equality_compares_shape_and_elements() {
    let a = matrix(vec![vec![1, 2], vec![3, 4]]);
    let b = Matrix2::new(1, 2, 3, 4);
    assert!(a.same(&b));
    assert!(!a.same(&Matrix2::new(1, 2, 3, 5)));
    assert!(!a.same(&CMatrix::from_element(2, 3, 1)));
    assert!(!CMatrix::<i32>::zero(0, 2).same(&CMatrix::<i32>::zero(0, 3)));
}

#[test]
fn grid_operations() {
    let g = Grid::from_rows(vec![vec![1, 2], vec![3]]);
    assert_eq!(g.rows(), 2);
    assert_eq!(g.columns(), 2);
    assert_eq!(g.elements(), vec![vec![1, 2], vec![3, 0]]);
    assert_eq!(g.transposed().elements(), vec![vec![1, 3], vec![2, 0]]);
    assert_eq!(g.try_det().unwrap(), -6);
    assert_eq!(g.clone().try_scale(3).unwrap().elements(), vec![vec![3, 6], vec![9, 0]]);
    assert_eq!(Grid::<i32>::identity(2, 2).try_inverse().unwrap().elements(), vec![vec![1, 0], vec![0, 1]]);
}

#[test]
fn error_messages() {
    let wide = CMatrix::from_element(2, 3, 1);
    let e = wide.try_det().unwrap_err();
    assert_eq!(e.0, "Can't find determinant! Maybe rows != columns?");
    assert_eq!(e.description(), e.0);
    let e = wide.clone().try_inverse().unwrap_err();
    assert_eq!(e.0, "Can't inverse this matrix! Maybe rows != columns?");
    let e = matrix(vec![vec![1, 2], vec![2, 4]]).try_inverse().unwrap_err();
    assert_eq!(e.0, "Can't inverse this matrix! determinant = 0");
    let e = wide.try_add(CMatrix::from_element(2, 2, 1)).unwrap_err();
    assert_eq!(
        e.0,
        "Can't fold this matrices: self.columns != rhs.columns || self.rows != rhs.rows"
    );
    assert_eq!(e.kind(), ErrorKind::DimensionMismatch);
    let e = wide.try_remove_row(7).unwrap_err();
    assert_eq!(e.0, "Wrong index value!");
    let e = wide.try_insert_row(0, &vec![1]).unwrap_err();
    assert_eq!(e.0, "Wrong row size!");
    let e = wide.try_insert_column(0, &vec![1]).unwrap_err();
    assert_eq!(e.0, "Wrong column size!");
    let e = wide.try_get_rows(1, 5).unwrap_err();
    assert_eq!(e.0, "Can't take that amount of rows from that index!");
    let e = wide.try_get_columns(1, 5).unwrap_err();
    assert_eq!(e.0, "Can't take that amount of columns from that index!");
    let e = CMatrix::from_element(1, 1, i32::MAX).try_scale(2).unwrap_err();
    assert_eq!(e.kind(), ErrorKind::Arithmetic);
    assert!(!e.0.is_empty());
    let made = Error::new(ErrorKind::IOError, "Can't open file with filename 'x'");
    assert_eq!(made.kind(), ErrorKind::IOError);
    assert_eq!(made.description(), "Can't open file with filename 'x'");
}

#[test]
fn column_cannot_be_added_beyond_the_range() {
    let g = Grid::<i32>::zero(0, usize::MAX);
    let e = g.try_insert_column(0, &vec![]).unwrap_err();
    assert_eq!(e.kind(), ErrorKind::IndexError);
}

#[test]
fn other_element_types() {
    let m = Matrix2::<u8>::new(1, 2, 3, 4);
    assert_eq!(m.try_det().unwrap_err().kind(), ErrorKind::Arithmetic);
    let n = Matrix2::<u8>::new(4, 3, 2, 2);
    assert_eq!(n.try_det().unwrap(), 2);
    assert_eq!(
        n.try_multiplicate(Matrix2::<u8>::identity()).unwrap().get_elements(),
        vec![vec![4, 3], vec![2, 2]]
    );
    assert_eq!(
        Matrix2::<u8>::new(200, 0, 0, 0).try_add(Matrix2::<u8>::new(100, 0, 0, 0)).unwrap_err().kind(),
        ErrorKind::Arithmetic
    );
    let s = Matrix2::<i8>::new(5, 6, 1, 4);
    assert_eq!(s.try_det().unwrap(), 14);
    let t = Matrix2::<i16>::new(-5, 6, 1, 4);
    assert_eq!(t.try_det().unwrap(), -26);
    let u = Matrix2::<u16>::new(200, 1, 1, 1);
    assert_eq!(u.try_det().unwrap(), 199);
    let w = Matrix2::<u32>::new(60000, 1, 1, 1);
    assert_eq!(w.try_det().unwrap(), 59999);
    let big = Matrix2::<u16>::new(300, 1, 1, 1);
    assert_eq!(big.try_det().unwrap_err().kind(), ErrorKind::Arithmetic);
    assert_eq!(<u8 as Scalar>::zero(), 0);
    assert_eq!(<u8 as Scalar>::one(), 1);
    assert_eq!(<i8 as Scalar>::zero(), 0);
    assert_eq!(<i8 as Scalar>::one(), 1);
    assert_eq!(<i16 as Scalar>::zero(), 0);
    assert_eq!(<i16 as Scalar>::one(), 1);
    assert_eq!(<u16 as Scalar>::zero(), 0);
    assert_eq!(<u16 as Scalar>::one(), 1);
    assert_eq!(<u32 as Scalar>::zero(), 0);
    assert_eq!(<u32 as Scalar>::one(), 1);
    assert_eq!(<u8 as Scalar>::from_i64(256), None);
    assert_eq!(<u8 as Scalar>::from_i64(-1), None);
    assert_eq!(<i8 as Scalar>::from_i64(-128), Some(-128));
    assert_eq!(Scalar::checked_sub(1u32, 2u32), None);
    assert_eq!(Scalar::checked_div(7u16, 2u16), Some(3));
    assert_eq!(
        CMatrix::<u8>::from_text(&"1,2,255".chars().collect(), ',', 1, 3).unwrap().get_elements(),
        vec![vec![1, 2, 255]]
    );
    assert_eq!(
        CMatrix::<u8>::from_text(&"-1".chars().collect(), ',', 1, 1).unwrap_err().kind(),
        ErrorKind::ParseError
    );
}

#[test]
fn determinant_of_transpose_may_overflow_alone() {
    let m = matrix(vec![vec![2, 0], vec![1 << 30, 1]]);
    let mut t = m.clone();
    t.transpose();
    assert_eq!(m.try_det().unwrap_err().kind(), ErrorKind::Arithmetic);
    assert_eq!(t.try_det().unwrap(), 2);
}

#[test]
fn product_with_exact_inverse_is_identity() {
    let m = matrix(vec![vec![1, 2, 3], vec![0, 1, 4], vec![0, 0, 1]]);
    let mut inverse = m.clone();
    inverse.try_inverse().unwrap();
    assert_eq!(
        inverse.get_elements(),
        vec![vec![1, -2, 5], vec![0, 1, -4], vec![0, 0, 1]]
    );
    let identity = CMatrix::<i32>::identity(3, 3);
    assert!(m.try_multiplicate(inverse.clone()).unwrap().same(&identity));
    assert!(inverse.try_multiplicate(m.clone()).unwrap().same(&identity));
    let mut n = matrix(vec![vec![0, -1], vec![1, 0]]);
    let given = n.clone();
    n.try_inverse().unwrap();
    let two = CMatrix::<i32>::identity(2, 2);
    assert!(given.try_multiplicate(n.clone()).unwrap().same(&two));
    assert!(n.try_multiplicate(given.clone()).unwrap().same(&two));
}

#[test]
fn product_with_rounded_inverse_is_not_identity() {
    let m = matrix(vec![vec![2, 1], vec![1, 1]]);
    let mut inverse = m.clone();
    inverse.try_inverse().unwrap();
    let product = m.try_multiplicate(inverse.clone()).unwrap();
    assert_eq!(product.get_elements(), vec![vec![0, 1], vec![0, 1]]);
}
