use dense_num::arr::{CArr, Rand};
use dense_num::elem::{differ, greater, greater_eq, less, less_eq, minus, negated, over, plus, same, times};
use dense_num::fold::{prod_onto, sum_onto};
use dense_num::num::{from_usize, is_zero, min_value, one, zero};
use dense_num::slice::{argsort, cum_sum, diff, dot, linspace, select, set_slice, sum};
use dense_num::text::{join_lines, render_line};
use dense_num::{Arr, Mat};
use num_complex::Complex64;

#[test]
fn adding_then_subtracting_gives_the_array_back() {
    let a = Arr::with_vec(vec![1i64, -5, 1 << 40, 0]);
    let b = Arr::with_vec(vec![9i64, 5, 1 << 41, -7]);
    let back = &(&a + &b) - &b;
    assert_eq!(back.values(), a.values());
    // in floating point, up to rounding
    let x = Arr::<f64>::with_vec(vec![0.1, 1e10, -3.5]);
    let y = Arr::with_vec(vec![0.2, 1e-3, 2.25]);
    let z = &(&x + &y) - &y;
    for i in 0..3 {
        let gap: f64 = z.values()[i] - x.values()[i];
        assert!(gap.abs() <= 1e-6);
    }
}

#[test]
fn sum_is_a_fold_from_zero() {
    let v = [1.5, -2.25, 4.0, 0.125];
    let a = Arr::with_vec(v.to_vec());
    assert_eq!(a.sum(), v.iter().fold(0.0, |s, x| s + x));
    assert_eq!(sum(&v), sum_onto(0.0, &v));
    assert_eq!(Arr::<f64>::ones(17).sum(), 17.0);
    assert_eq!(Arr::<i64>::ones(1000).sum(), 1000);
    assert_eq!(Arr::<f64>::new().sum(), 0.0);
    assert_eq!(prod_onto(2, &[3, 4]), 24);
}

#[test]
fn dot_with_itself_is_not_negative() {
    for v in [vec![1.0, -2.0, 3.0], vec![-0.5], vec![0.0, 0.0], vec![]] {
        assert!(dot(&v, &v) >= 0.0);
    }
    assert_eq!(dot(&[3i64, -4], &[3, -4]), 25);
}

#[test]
fn cumulative_sum_holds_the_partial_sums() {
    let a = [3, -1, 4, 1, -5, 9];
    let c = cum_sum(&a);
    assert_eq!(c.len(), a.len());
    for i in 0..a.len() {
        assert_eq!(c[i], sum(&a[0..=i]));
    }
    assert_eq!(c, vec![3, 2, 6, 7, 2, 11]);
}

#[test]
fn sorting_and_scattering_back() {
    let a = [0.3, -1.0, 2.5, 0.3, 0.0];
    for reverse in [false, true] {
        let ix = argsort(&a, reverse);
        let sorted = select(&a, &ix);
        for i in 1..sorted.len() {
            if reverse {
                assert!(sorted[i - 1] >= sorted[i]);
            } else {
                assert!(sorted[i - 1] <= sorted[i]);
            }
        }
        let mut back = sorted.clone();
        set_slice(&mut back, &ix, &sorted);
        assert_eq!(back, a);
    }
    assert_eq!(argsort(&a, false), vec![1, 4, 0, 3, 2]);
    assert_eq!(argsort(&a, true), vec![2, 3, 0, 4, 1]);
}

#[test]
fn arr_sort_applies_the_permutation_it_returns() {
    let mut a = Arr::with_vec(vec![5, 2, 8, 2, 1]);
    let ix = a.sort();
    assert_eq!(a.values(), &[1, 2, 2, 5, 8]);
    assert_eq!(ix, vec![4, 1, 3, 0, 2]);
    let mut b = Arr::with_vec(vec![5, 2, 8, 2, 1]);
    let jx = b.sort_order(true);
    assert_eq!(b.values(), &[8, 5, 2, 2, 1]);
    assert_eq!(jx, vec![2, 0, 3, 1, 4]);
    let mut e = Arr::<i32>::new();
    assert_eq!(e.sort(), Vec::<usize>::new());
}

#[test]
fn inclusive_linspace_ends_at_stop_and_starts_at_start() {
    for (start, stop) in [(0.0, 1.0), (0.1, 0.7), (-3.0, 1e9), (5.0, -5.0), (1e-9, 3e-9)] {
        for num in [2, 3, 7, 100] {
            let l = linspace(start, stop, num, true);
            assert_eq!(l.len(), num);
            assert_eq!(l[0], start);
            assert_eq!(l[num - 1], stop);
        }
    }
}

#[test]
fn diff_is_one_shorter() {
    let a = [1.0, 4.0, 2.5, 2.5];
    let d = diff(&a);
    assert_eq!(d.len(), a.len() - 1);
    for i in 0..d.len() {
        assert_eq!(d[i], a[i + 1] - a[i]);
    }
    assert_eq!(Arr::with_vec(a.to_vec()).diff().values(), &[3.0, -1.5, 0.0]);
}

#[test]
fn concatenation_keeps_every_value_in_place() {
    let a1 = [1, 2];
    let a2: [i32; 0] = [];
    let a3 = [3, 4, 5];
    let b = Arr::concat(&[&a1, &a2, &a3]);
    assert_eq!(b.values().len(), a1.len() + a2.len() + a3.len());
    assert_eq!(b.values(), &[1, 2, 3, 4, 5]);
    assert_eq!(Arr::<i32>::concat(&[]).values().len(), 0);
    assert_eq!(Arr::concat(&[&a3]).vec(), vec![3, 4, 5]);
}

#[test]
fn identity_times_vector_is_the_vector() {
    let v = [2.5, -1.0, 0.0, 7.0];
    for col_major in [false, true] {
        let i = Mat::<f64>::identity(4, col_major);
        assert_eq!(i.mat_vec(&v), v);
    }
    let w = [3i64, -9];
    assert_eq!(Mat::<i64>::identity(2, true).mat_vec(&w), w);
    assert_eq!(Mat::<f64>::identity(0, false).mat_vec(&[]), Vec::<f64>::new());
}

#[test]
fn setting_one_value_of_zeros() {
    let mut a = Arr::<f64>::zeros(5);
    a.values_mut()[2] = 7.0;
    assert_eq!(a.nonzero(), vec![2]);
    let found: Vec<usize> = a.find();
    assert_eq!(found, vec![2]);
    assert!(a.any());
    assert!(!a.all());
}

#[test]
fn scaled_identity_times_ones() {
    let mut m = Mat::<f64>::identity(3, false);
    m.mul_assign_scalar(2.0);
    assert_eq!(m.mat_vec(&[1.0, 1.0, 1.0]), vec![2.0, 2.0, 2.0]);
}

#[test]
fn complex_array_from_parts() {
    let c = Arr::<Complex64>::from_parts(&[1.0, 2.0], &[2.0, 3.0]);
    assert_eq!(c.real_part().values(), &[1.0, 2.0]);
    assert_eq!(c.imag().values(), &[2.0, 3.0]);
    assert_eq!(CArr::norm(&c).values()[0], (1.0f64 * 1.0 + 2.0 * 2.0).sqrt());
}

#[test]
fn element_operations() {
    assert_eq!(plus(2, 3), 5);
    assert_eq!(minus(2.5, 3.0), -0.5);
    assert_eq!(times(4, -3), -12);
    assert_eq!(over(7, 2), 3);
    assert_eq!(over(1.0, 0.0), f64::INFINITY);
    assert_eq!(negated(2.5), -2.5);
    assert!(same(&1, &1) && !same(&1, &2));
    assert!(differ(&1.0, &f64::NAN) && !differ(&2, &2));
    assert!(less(&1, &2) && !less(&2, &2));
    assert!(less_eq(&2, &2) && !less_eq(&3, &2));
    assert!(greater(&3, &2) && !greater(&2, &2));
    assert!(greater_eq(&2, &2) && !greater_eq(&f64::NAN, &f64::NAN));
}

#[test]
fn identities_and_conversions() {
    let z: f64 = zero();
    let o: f64 = one();
    assert_eq!(z, 0.0);
    assert_eq!(o, 1.0);
    assert!(is_zero(&z));
    assert!(!is_zero(&o));
    assert!(is_zero(&Complex64::new(0.0, 0.0)));
    assert_eq!(min_value::<i8>(), -128);
    assert_eq!(min_value::<f64>(), f64::MIN);
    assert_eq!(from_usize::<f64>(12), Some(12.0));
    assert_eq!(from_usize::<u8>(255), Some(255));
    assert_eq!(from_usize::<u8>(256), None);
}

#[test]
fn text_is_joined_without_a_trailing_separator() {
    assert_eq!(render_line(&[1, 2, 3], false), "1 2 3");
    assert_eq!(render_line(&[1, 2, 3], true), "1\n2\n3");
    assert_eq!(render_line(&[4.5], false), "4.5");
    assert_eq!(render_line::<i32>(&[], false), "");
    assert_eq!(join_lines(&vec!["a b".to_string(), "c".to_string()]), "a b\nc");
    assert_eq!(join_lines(&vec![]), "");
    assert_eq!(join_lines(&vec!["".to_string(), "".to_string()]), "\n");
    let a = Arr::with_vec(vec![1.5, -2.0]);
    assert_eq!(a.to_string_col(), "1.5\n-2");
    assert_eq!(a.to_string(), "1.5 -2");
    assert_eq!(Arr::<f64>::new().to_string_col(), "");
}

#[test]
fn arr_constructors_and_accessors() {
    let e = Arr::<f64>::new();
    assert_eq!(e.values().len(), 0);
    let mut c = Arr::<f64>::with_capacity(10);
    assert_eq!(c.values().len(), 0);
    c.values_mut().push(1.5);
    c.values_mut().push(2.5);
    assert_eq!(c.values(), &[1.5, 2.5]);
    assert_eq!(c.sum(), 4.0);
    let w = Arr::with_value(3, 2.5);
    assert_eq!(w.values(), &[2.5, 2.5, 2.5]);
    assert_eq!(Arr::with_value(0, 1).values().len(), 0);
    let v = Arr::with_vec(vec![1, 2, 3]);
    assert_eq!(v.select(&[2, 2, 0]).values(), &[3, 3, 1]);
    assert_eq!(v.prod(), 6);
    assert_eq!(v.cumsum(), vec![1, 3, 6]);
    assert_eq!(v.max(), 3);
    assert_eq!(v.min(), 1);
    assert_eq!(v.clone().vec(), vec![1, 2, 3]);
    let mut m = v;
    m.set_all(&[0, 1], 9);
    assert_eq!(m.values(), &[9, 9, 3]);
    m.set(&[2, 0], &[7, 8]);
    assert_eq!(m.values(), &[8, 9, 7]);
}

#[test]
fn arr_arithmetic_by_name() {
    let a = Arr::with_vec(vec![8.0, 4.0]);
    let b = Arr::with_vec(vec![2.0, 4.0]);
    assert_eq!(a.add_scalar(1.0).values(), &[9.0, 5.0]);
    assert_eq!(a.sub_scalar(1.0).values(), &[7.0, 3.0]);
    assert_eq!(a.mul_scalar(0.5).values(), &[4.0, 2.0]);
    assert_eq!(a.div_scalar(4.0).values(), &[2.0, 1.0]);
    assert_eq!(a.scalar_add(1.0).values(), &[9.0, 5.0]);
    assert_eq!(a.scalar_sub(1.0).values(), &[-7.0, -3.0]);
    assert_eq!(a.scalar_mul(0.5).values(), &[4.0, 2.0]);
    assert_eq!(a.scalar_div(4.0).values(), &[0.5, 1.0]);
    assert_eq!(a.add_array(&b).values(), &[10.0, 8.0]);
    assert_eq!(a.sub_array(&b).values(), &[6.0, 0.0]);
    assert_eq!(a.mul_array(&b).values(), &[16.0, 16.0]);
    assert_eq!(a.div_array(&b).values(), &[4.0, 1.0]);
    assert_eq!(a.negate().values(), &[-8.0, -4.0]);
    assert_eq!((a.clone() + b.clone()).values(), &[10.0, 8.0]);
    assert_eq!((a.clone() - &b).values(), &[6.0, 0.0]);
    assert_eq!((&a * b.clone()).values(), &[16.0, 16.0]);
    assert_eq!((&a / &b).values(), &[4.0, 1.0]);
    assert_eq!((a.clone() / 2.0).values(), &[4.0, 2.0]);
    assert_eq!((-a.clone()).values(), &[-8.0, -4.0]);
    let mut c = a.clone();
    c.add_assign_scalar(2.0);
    c.sub_assign_array(&b);
    c.mul_assign_scalar(3.0);
    c.div_assign_array(&b);
    c.sub_assign_scalar(1.0);
    c.mul_assign_array(&b);
    c.div_assign_scalar(2.0);
    c.add_assign_array(&a);
    assert_eq!(c.values(), &[19.0, 5.0]);
}

#[test]
fn random_arrays() {
    let u = Arr::<f64>::rand(200);
    assert_eq!(u.values().len(), 200);
    assert!(u.values().iter().all(|&v| (0.0..1.0).contains(&v)));
    let n = Arr::<f64>::randn(200);
    assert_eq!(n.values().len(), 200);
    assert!(n.values().iter().all(|v| v.is_finite()));
    assert!(n.values().iter().any(|&v| v < 0.0));
    assert_ne!(u.values(), Arr::<f64>::rand(200).values());
    assert_eq!(Arr::<f64>::randn(0).values().len(), 0);
}
