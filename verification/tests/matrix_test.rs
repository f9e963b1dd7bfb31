use dense_num::matrix::{CMatrix, Matrix};
use num_complex::Complex64;

#[test]
fn matrix_test_test_matrix() {
    let mut a = Matrix::<f64>::identity(6);
    let mut b = Matrix::<f64>::identity(6);

    a.div_assign_scalar(2.0);
    b.mul_assign_scalar(3.0);
    a.mul_assign_mat(&b);
    let text = (-a - 3.0).to_string();
    println!("{}", text);
    let lines: Vec<&str> = text.split('\n').collect();
    assert_eq!(lines.len(), 6);
    assert_eq!(lines[0], "-4.5 -3 -3 -3 -3 -3");
    assert_eq!(lines[5], "-3 -3 -3 -3 -3 -4.5");
}

#[test]
fn matrix_constructors() {
    let z = Matrix::<f64>::zeros(2, 3);
    assert_eq!(z.to_string(), "0 0 0\n0 0 0");
    let o = Matrix::<i32>::ones(1, 2);
    assert_eq!(o.to_string(), "1 1");
    let i = Matrix::<i32>::identity(2);
    assert_eq!(i.to_string(), "1 0\n0 1");
}

#[test]
fn matrix_products() {
    let i = Matrix::<i32>::identity(3);
    let two = i.mul_scalar(2);
    assert_eq!(two.mat_vec(&[1, 2, 3]), vec![2, 4, 6]);
    let four = two.mat_mat(&two);
    assert_eq!(four.to_string(), "4 0 0\n0 4 0\n0 0 4");
    let sum = four.add_mat(&i.scalar_sub(1));
    assert_eq!(sum.to_string(), "4 1 1\n1 4 1\n1 1 4");
    assert_eq!(sum.mat_vec(&[1, 0, -1]), vec![3, 0, -3]);
}

#[test]
fn complex_matrix_parts() {
    let i = Matrix::<Complex64>::identity(2);
    let m = i.mul_scalar(Complex64::new(1.0, 2.0));
    let re: Matrix<f64> = m.real_part();
    assert_eq!(re.to_string(), "1 0\n0 1");
    let im: Matrix<f64> = m.imag();
    assert_eq!(im.to_string(), "2 0\n0 2");
    let k: Matrix<Complex64> = CMatrix::<Complex64, f64>::conj(&m);
    let back: Matrix<f64> = k.imag();
    assert_eq!(back.to_string(), "-2 -0\n-0 -2");
}
