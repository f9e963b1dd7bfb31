use dense_num::mat::CMat;
use dense_num::Mat;
use num_complex::Complex64;

#[test]
fn mat_test_test_matrix() {
    let mut a = Mat::<f64>::identity(6, true);
    let mut b = Mat::<f64>::identity(6, true);

    a.div_assign_scalar(2.0);
    b.mul_assign_scalar(3.0);
    a.mul_assign_mat(&b);
    for r in 0..6 {
        for c in 0..6 {
            let want = if r == c { 1.5 } else { 0.0 };
            assert_eq!(*a.get_ref(r, c), want);
        }
    }
}

#[test]
fn mat_new_keeps_shape_and_buffer() {
    let m = Mat::new(2, 3, vec![1, 2, 3, 4, 5, 6], false);
    assert_eq!(m.rows(), 2);
    assert_eq!(m.cols(), 3);
    assert_eq!(m.shape(), (2, 3));
    assert!(!m.col_major());
    assert_eq!(m.values(), &[1, 2, 3, 4, 5, 6]);
    assert_eq!(*m.get_ref(0, 0), 1);
    assert_eq!(*m.get_ref(0, 2), 3);
    assert_eq!(*m.get_ref(1, 0), 4);
    assert_eq!(*m.get_ref(1, 2), 6);
    assert_eq!(m[(1, 1)], 5);
}

#[test]
fn mat_column_major_addresses_by_column() {
    let m = Mat::new(2, 3, vec![1, 2, 3, 4, 5, 6], true);
    assert!(m.col_major());
    assert_eq!(*m.get_ref(0, 0), 1);
    assert_eq!(*m.get_ref(1, 0), 2);
    assert_eq!(*m.get_ref(0, 1), 3);
    assert_eq!(*m.get_ref(1, 2), 6);
    assert_eq!(m[(0, 2)], 5);
}

#[test]
fn mat_from_fn_fills_every_cell() {
    for col_major in [false, true] {
        let m = Mat::from_fn(3, 4, |r, c| 10 * r + c, col_major);
        assert_eq!(m.values().len(), 12);
        for r in 0..3 {
            for c in 0..4 {
                assert_eq!(*m.get_ref(r, c), 10 * r + c);
            }
        }
    }
    let row_major = Mat::from_fn(2, 2, |r, c| 10 * r + c, false);
    assert_eq!(row_major.values(), &[0, 1, 10, 11]);
    let col_major = Mat::from_fn(2, 2, |r, c| 10 * r + c, true);
    assert_eq!(col_major.values(), &[0, 10, 1, 11]);
    let empty = Mat::from_fn(0, 5, |r, c| r + c, false);
    assert_eq!(empty.values().len(), 0);
}

#[test]
fn mat_zeros_ones_identity() {
    let z = Mat::<f64>::zeros(2, 3, false);
    assert_eq!(z.values(), &[0.0; 6]);
    let o = Mat::<i32>::ones(3, 2, true);
    assert_eq!(o.values(), &[1; 6]);
    for col_major in [false, true] {
        let i = Mat::<i32>::identity(3, col_major);
        assert_eq!(i.values(), &[1, 0, 0, 0, 1, 0, 0, 0, 1]);
    }
    assert_eq!(Mat::<i32>::identity(0, false).values().len(), 0);
}

#[test]
fn mat_writes_through_references() {
    let mut m = Mat::new(2, 2, vec![1, 2, 3, 4], false);
    *m.get_ref_mut(0, 1) = 20;
    assert_eq!(m.values(), &[1, 20, 3, 4]);
    m.values_mut()[3] = 40;
    assert_eq!(*m.get_ref(1, 1), 40);
    let mut c = Mat::new(2, 2, vec![1, 2, 3, 4], true);
    *c.get_ref_mut(0, 1) = 30;
    assert_eq!(c.values(), &[1, 2, 30, 4]);
}

#[test]
fn mat_rows_and_columns() {
    let m = Mat::new(2, 3, vec![1, 2, 3, 4, 5, 6], false);
    assert_eq!(m.row(1), vec![&4, &5, &6]);
    assert_eq!(m.col(2), vec![&3, &6]);
    assert_eq!(m.row_slice(0), &[1, 2, 3]);
    assert_eq!(m.row_slice(1), &[4, 5, 6]);
    assert_eq!(m.row_iter(), vec![&[1, 2, 3][..], &[4, 5, 6][..]]);
    let c = Mat::new(2, 3, vec![1, 2, 3, 4, 5, 6], true);
    assert_eq!(c.row(1), vec![&2, &4, &6]);
    assert_eq!(c.col(2), vec![&5, &6]);
    assert_eq!(c.col_slice(1), &[3, 4]);
    assert_eq!(c.col_iter(), vec![&[1, 2][..], &[3, 4][..], &[5, 6][..]]);
}

#[test]
fn mat_slices_for_writing() {
    let mut m = Mat::new(2, 3, vec![1, 2, 3, 4, 5, 6], false);
    m.row_slice_mut(1).copy_from_slice(&[7, 8, 9]);
    assert_eq!(m.values(), &[1, 2, 3, 7, 8, 9]);
    let mut c = Mat::new(2, 3, vec![1, 2, 3, 4, 5, 6], true);
    c.col_slice_mut(0).copy_from_slice(&[7, 8]);
    assert_eq!(c.values(), &[7, 8, 3, 4, 5, 6]);
    c.col_slice_mut(2)[1] = 0;
    assert_eq!(c.values(), &[7, 8, 3, 4, 5, 0]);
}

#[test]
fn mat_select_rows_is_row_major() {
    let m = Mat::new(3, 2, vec![1, 2, 3, 4, 5, 6], false);
    let s = m.select_rows(&[2, 0, 2]);
    assert_eq!(s.shape(), (3, 2));
    assert!(!s.col_major());
    assert_eq!(s.values(), &[5, 6, 1, 2, 5, 6]);
    // the same matrix, stored by column
    let c = Mat::new(3, 2, vec![1, 3, 5, 2, 4, 6], true);
    let t = c.select_rows(&[2, 0]);
    assert_eq!(t.shape(), (2, 2));
    assert!(!t.col_major());
    assert_eq!(t.values(), &[5, 6, 1, 2]);
    assert_eq!(m.select_rows(&[]).shape(), (0, 2));
}

#[test]
fn mat_times_vector() {
    // [1 2 3; 4 5 6] * [1, 0, -1]
    let m = Mat::new(2, 3, vec![1, 2, 3, 4, 5, 6], false);
    assert_eq!(m.mat_vec(&[1, 0, -1]), vec![-2, -2]);
    let c = Mat::new(2, 3, vec![1, 4, 2, 5, 3, 6], true);
    assert_eq!(c.mat_vec(&[1, 0, -1]), vec![-2, -2]);
    assert_eq!(c.mat_vec(&[1, 1, 1]), vec![6, 15]);
    let none = Mat::<i32>::zeros(2, 0, false);
    assert_eq!(none.mat_vec(&[]), vec![0, 0]);
}

#[test]
fn mat_times_mat() {
    // [1 2; 3 4] * [5 6; 7 8] = [19 22; 43 50]
    let a = Mat::new(2, 2, vec![1, 2, 3, 4], false);
    let b = Mat::new(2, 2, vec![5, 6, 7, 8], false);
    let p = a.mat_mat(&b);
    assert_eq!(p.shape(), (2, 2));
    assert!(!p.col_major());
    assert_eq!(p.values(), &[19, 22, 43, 50]);
    let ac = Mat::new(2, 2, vec![1, 3, 2, 4], true);
    let bc = Mat::new(2, 2, vec![5, 7, 6, 8], true);
    let pc = ac.mat_mat(&bc);
    assert!(pc.col_major());
    assert_eq!(pc.values(), &[19, 43, 22, 50]);
    // 2x3 times 3x1
    let w = Mat::new(2, 3, vec![1, 2, 3, 4, 5, 6], false);
    let v = Mat::new(3, 1, vec![1, 1, 1], false);
    let y = w.mat_mat(&v);
    assert_eq!(y.shape(), (2, 1));
    assert_eq!(y.values(), &[6, 15]);
}

#[test]
fn mat_arithmetic_keeps_shape_and_order() {
    let a = Mat::new(2, 2, vec![1.0, 2.0, 3.0, 4.0], true);
    let b = a.add_scalar(1.0);
    assert_eq!(b.shape(), (2, 2));
    assert!(b.col_major());
    assert_eq!(b.values(), &[2.0, 3.0, 4.0, 5.0]);
    assert_eq!(a.scalar_sub(10.0).values(), &[9.0, 8.0, 7.0, 6.0]);
    assert_eq!(a.scalar_div(12.0).values(), &[12.0, 6.0, 4.0, 3.0]);
    assert_eq!(a.mul_mat(&b).values(), &[2.0, 6.0, 12.0, 20.0]);
    assert_eq!(a.sub_mat(&b).values(), &[-1.0; 4]);
    assert_eq!(a.div_mat(&a).values(), &[1.0; 4]);
    assert_eq!(a.negate().values(), &[-1.0, -2.0, -3.0, -4.0]);
    let c = (-(a.clone() * 2.0) + b.clone()) / 2.0 - 1.0;
    assert!(c.col_major());
    assert_eq!(c.values(), &[-1.0, -1.5, -2.0, -2.5]);
    let d = a.clone() + b.clone() - a.clone() * b.clone() / b;
    assert_eq!(d.values(), &[2.0, 3.0, 4.0, 5.0]);
    let mut e = a.clone();
    e.add_assign_scalar(1.0);
    e.sub_assign_mat(&a);
    e.mul_assign_scalar(6.0);
    e.div_assign_mat(&a);
    e.sub_assign_scalar(1.0);
    e.div_assign_scalar(0.5);
    e.add_assign_mat(&a);
    assert_eq!(e.values(), &[11.0, 6.0, 5.0, 5.0]);
}

#[test]
fn mat_renders_row_by_row() {
    let m = Mat::new(2, 3, vec![1, 2, 3, 4, 5, 6], false);
    assert_eq!(m.to_string(), "1 2 3\n4 5 6");
    let c = Mat::new(2, 3, vec![1, 4, 2, 5, 3, 6], true);
    assert_eq!(c.to_string(), "1 2 3\n4 5 6");
    assert_eq!(Mat::new(1, 1, vec![7.5], false).to_string(), "7.5");
    assert_eq!(Mat::<i32>::zeros(0, 3, false).to_string(), "");
    assert_eq!(Mat::<i32>::zeros(2, 0, false).to_string(), "\n");
}

#[test]
fn complex_mat_parts() {
    let m = Mat::new(
        1,
        2,
        vec![Complex64::new(1.0, 2.0), Complex64::new(3.0, -4.0)],
        true,
    );
    let re: Mat<f64> = m.real_part();
    assert_eq!(re.shape(), (1, 2));
    assert!(re.col_major());
    assert_eq!(re.values(), &[1.0, 3.0]);
    let im: Mat<f64> = m.imag();
    assert_eq!(im.values(), &[2.0, -4.0]);
    let k: Mat<Complex64> = CMat::<Complex64, f64>::conj(&m);
    assert_eq!(k.values(), &[Complex64::new(1.0, -2.0), Complex64::new(3.0, 4.0)]);
    assert!(k.col_major());
}
