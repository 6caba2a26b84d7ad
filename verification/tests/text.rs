use mematrica::{CMatrix, CMatrixTrait, ErrorKind, Grid, Matrix, Matrix2, Matrix23, Matrix3, Operations};

fn chars(s: &str) -> Vec<char> {
    s.chars().collect()
}

#[test]
fn text_of_a_matrix() {
    let m = Matrix2::new(1, 2, 3, 4);
    assert_eq!(m.to_text(','), chars("1,2,3,4"));
    let n = Matrix2::new(-10, 0, i32::MAX, i32::MIN);
    assert_eq!(n.to_text(';'), chars("-10;0;2147483647;-2147483648"));
    assert_eq!(CMatrix::<i32>::zero(0, 3).to_text(','), chars(""));
    assert_eq!(CMatrix::from_element(1, 1, 105).to_text(','), chars("105"));
}

#[test]
fn matrix_of_a_text() {
    let m = Matrix2::<i32>::from_text(&chars("1,2,3,4"), ',').unwrap();
    assert_eq!(m.get_elements(), vec![vec![1, 2], vec![3, 4]]);
    let c = CMatrix::<i32>::from_text(&chars("  1;-2;+3;004;5;6\n"), ';', 2, 3).unwrap();
    assert_eq!(c.get_elements(), vec![vec![1, -2, 3], vec![4, 5, 6]]);
    let t = Matrix3::<i32>::from_text(&chars("1 2 3 4 5 6 7 8 9"), ' ').unwrap();
    assert_eq!(t.element(2, 1).unwrap(), 8);
}

#[test]
fn missing_tokens_are_zero() {
    let m = Matrix2::<i32>::from_text(&chars("7,8"), ',').unwrap();
    assert_eq!(m.get_elements(), vec![vec![7, 8], vec![0, 0]]);
    let e = CMatrix::<i32>::from_text(&chars("   "), ',', 2, 2).unwrap();
    assert_eq!(e.get_elements(), vec![vec![0, 0], vec![0, 0]]);
    let f = CMatrix::<i32>::from_text(&chars(""), ',', 1, 3).unwrap();
    assert_eq!(f.get_elements(), vec![vec![0, 0, 0]]);
}

#[test]
fn tokens_beyond_the_shape_are_read_and_left_out() {
    let m = CMatrix::<i32>::from_text(&chars("1,2,3,4,5"), ',', 1, 2).unwrap();
    assert_eq!(m.get_elements(), vec![vec![1, 2]]);
    let e = CMatrix::<i32>::from_text(&chars("1,2,x"), ',', 1, 2).unwrap_err();
    assert_eq!(e.kind(), ErrorKind::ParseError);
}

#[test]
fn bad_tokens_are_parse_errors() {
    for text in [
        "1,,2", "1,2,", ",1", "1, 2", "a", "1.5", "-", "+", "--1", "2147483648", "-2147483649",
        "99999999999999999999999", "1,2;3",
    ] {
        let e = CMatrix::<i32>::from_text(&chars(text), ',', 2, 2).unwrap_err();
        assert_eq!(e.kind(), ErrorKind::ParseError);
        assert_eq!(e.0, "Can't parse file. Maybe some errors in delimiters?");
    }
    assert!(CMatrix::<i32>::from_text(&chars("2147483647,-2147483648"), ',', 1, 2).is_ok());
    assert!(CMatrix::<i32>::from_text(&chars("0000000000000000000000000001"), ',', 1, 1).is_ok());
}

#[test]
fn text_round_trip() {
    let mut m = CMatrix::<i32>::zero(0, 0);
    m.set_elements(vec![vec![1, -20, 300], vec![0, i32::MAX, i32::MIN]]).unwrap();
    for delimiter in [',', ';', ' ', '\n', '+', 'x'] {
        let text = m.to_text(delimiter);
        let back = CMatrix::<i32>::from_text(&text, delimiter, 2, 3).unwrap();
        assert!(back.same(&m));
    }
    let counts = CMatrix::from_vec_as_rows(2, vec![10, 0, 35, 7]).unwrap();
    let text = counts.to_text('-');
    assert_eq!(text, chars("10-0-35-7"));
    assert!(CMatrix::<i32>::from_text(&text, '-', 2, 2).unwrap().same(&counts));
    let text = counts.to_text('2');
    assert_eq!(text, chars("102023527"));
    assert!(CMatrix::<i32>::from_text(&text, '2', 2, 2).unwrap().same(&counts));
    let empty = Grid::<i32>::zero(3, 0);
    let back = Grid::<i32>::from_text(&empty.to_text(','), ',', 3, 0).unwrap();
    assert!(back.same(&empty));
}
