use dense_num::slice::{
    all, and, any, arange, argmax, argmin, argsort, cum_sum, cum_sum_onto, diff, dot, dot_onto, eq, equal, find,
    ge, greater_than, gt, le, less_than, linspace, lt, max, mean, min, ne, nonzero, not,
    not_equal, or, positions, prod, range, select, set_all, set_slice, sum, try_find,
    try_linspace, try_mean, try_range,
};
use dense_num::Arr;

#[test]
fn find_gives_the_nonzero_positions() {
    let ix: Vec<usize> = find(&[0.0, 3.0, 0.0, -1.0, 0.0]);
    assert_eq!(ix, vec![1, 3]);
    let as_floats: Vec<f64> = find(&[5, 0, 7]);
    assert_eq!(as_floats, vec![0.0, 2.0]);
    let none: Vec<usize> = find(&[0, 0]);
    assert!(none.is_empty());
    let empty: Vec<usize> = find::<i32, usize>(&[]);
    assert!(empty.is_empty());
}

#[test]
fn any_and_all_read_zero_as_false() {
    assert!(any(&[0.0, 0.0, 2.0]));
    assert!(!any(&[0.0, 0.0]));
    assert!(!any::<f64>(&[]));
    assert!(all(&[1, 2, 3]));
    assert!(!all(&[1, 0, 3]));
    assert!(all::<i32>(&[]));
}

#[test]
fn range_counts_up_from_zero() {
    let r: Vec<f64> = range(4);
    assert_eq!(r, vec![0.0, 1.0, 2.0, 3.0]);
    let none: Vec<i32> = range(0);
    assert!(none.is_empty());
}

#[test]
fn arange_stops_before_stop() {
    assert_eq!(arange(0.0, 1.0, 0.25), vec![0.0, 0.25, 0.5, 0.75]);
    assert_eq!(arange(0.0, 1.0, 0.3), vec![0.0, 0.3, 0.6, 0.8999999999999999]);
    assert_eq!(arange(2, 11, 3), vec![2, 5, 8]);
    assert_eq!(arange(2, 2, 1), Vec::<i32>::new());
    // a step of the wrong sign gives nothing
    assert_eq!(arange(1.0, 0.0, 0.5), Vec::<f64>::new());
    assert_eq!(arange(5, 1, -1), Vec::<i32>::new());
}

#[test]
fn logical_masks() {
    let a = [0.0, 1.0, 0.0, 2.0];
    let b = [0.0, 0.0, 3.0, 4.0];
    let both: Vec<i32> = and(&a, &b);
    assert_eq!(both, vec![0, 0, 0, 1]);
    let either: Vec<i32> = or(&a, &b);
    assert_eq!(either, vec![0, 1, 1, 1]);
    let neither: Vec<f64> = not(&a);
    assert_eq!(neither, vec![1.0, 0.0, 1.0, 0.0]);
    let set: Vec<usize> = nonzero(&a);
    assert_eq!(set, vec![1, 3]);
    assert_eq!(positions(&a), vec![1, 3]);
    assert_eq!(positions(&[0, 0]), Vec::<usize>::new());
}

#[test]
fn scalar_comparison_masks() {
    let a = [1, 2, 3, 2];
    let m: Vec<i32> = eq(&a, 2);
    assert_eq!(m, vec![0, 1, 0, 1]);
    let m: Vec<i32> = ne(&a, 2);
    assert_eq!(m, vec![1, 0, 1, 0]);
    let m: Vec<i32> = gt(&a, 2);
    assert_eq!(m, vec![0, 0, 1, 0]);
    let m: Vec<i32> = lt(&a, 2);
    assert_eq!(m, vec![1, 0, 0, 0]);
    let m: Vec<i32> = ge(&a, 2);
    assert_eq!(m, vec![0, 1, 1, 1]);
    let m: Vec<f64> = le(&a, 2);
    assert_eq!(m, vec![1.0, 1.0, 0.0, 1.0]);
    // a value that is not a number compares as false, except with `ne`
    let n = [f64::NAN, 1.0];
    let m: Vec<i32> = eq(&n, f64::NAN);
    assert_eq!(m, vec![0, 0]);
    let m: Vec<i32> = ne(&n, f64::NAN);
    assert_eq!(m, vec![1, 1]);
    let m: Vec<i32> = le(&n, 1.0);
    assert_eq!(m, vec![0, 1]);
}

#[test]
fn pairwise_comparison_masks() {
    let a = [1.0, 5.0, 3.0];
    let b = [2.0, 5.0, 1.0];
    let m: Vec<i32> = less_than(&a, &b);
    assert_eq!(m, vec![1, 0, 0]);
    let m: Vec<i32> = greater_than(&a, &b);
    assert_eq!(m, vec![0, 0, 1]);
    let m: Vec<i32> = equal(&a, &b);
    assert_eq!(m, vec![0, 1, 0]);
    let m: Vec<f64> = not_equal(&a, &b);
    assert_eq!(m, vec![1.0, 0.0, 1.0]);
    // a mask goes straight into arithmetic or selection
    let picked: Vec<usize> = find(&m);
    assert_eq!(select(&a, &picked), vec![1.0, 3.0]);
}

#[test]
fn select_gathers() {
    let a = [10, 20, 30, 40];
    assert_eq!(select(&a, &[3, 0, 3, 1]), vec![40, 10, 40, 20]);
    assert_eq!(select(&a, &[]), Vec::<i32>::new());
}

#[test]
fn set_slice_scatters_in_order() {
    let mut a = [0; 5];
    set_slice(&mut a, &[4, 1], &[7, 8]);
    assert_eq!(a, [0, 8, 0, 0, 7]);
    // the later of two writes to one position stays
    set_slice(&mut a, &[2, 2], &[1, 9]);
    assert_eq!(a, [0, 8, 9, 0, 7]);
    // the shorter of the two lists decides how many pairs there are
    set_slice(&mut a, &[0, 3], &[5]);
    assert_eq!(a, [5, 8, 9, 0, 7]);
    set_slice(&mut a, &[0], &[6, 6, 6]);
    assert_eq!(a, [6, 8, 9, 0, 7]);
}

#[test]
fn set_all_writes_one_value() {
    let mut a = [1, 2, 3, 4];
    set_all(&mut a, &[0, 2, 2], 9);
    assert_eq!(a, [9, 2, 9, 4]);
    set_all(&mut a, &[], 0);
    assert_eq!(a, [9, 2, 9, 4]);
}

#[test]
fn products() {
    assert_eq!(prod(&[2.0, 3.0, 4.0]), 24.0);
    assert_eq!(prod(&[5]), 5);
    assert_eq!(prod(&[3, 0, 2]), 0);
    // an empty product is the multiplicative identity
    assert_eq!(prod::<f64>(&[]), 1.0);
    assert_eq!(prod::<i32>(&[]), 1);
}

#[test]
fn sums() {
    assert_eq!(sum(&[1.0, 2.0, 3.5]), 6.5);
    assert_eq!(sum::<i32>(&[]), 0);
    assert_eq!(sum(&[-4]), -4);
    assert_eq!(cum_sum(&[1, 2, 3, 4]), vec![1, 3, 6, 10]);
    assert_eq!(cum_sum::<f64>(&[]), Vec::<f64>::new());
    assert_eq!(cum_sum_onto(10, &[1, 2, 3]), vec![11, 13, 16]);
    assert_eq!(cum_sum_onto(0.5, &[]), Vec::<f64>::new());
    assert_eq!(mean(&[1.0, 2.0, 6.0]), 3.0);
    assert_eq!(mean(&[7.0]), 7.0);
}

#[test]
fn dot_products() {
    assert_eq!(dot(&[1, 2, 3], &[4, 5, 6]), 32);
    assert_eq!(dot(&[1.5], &[2.0]), 3.0);
    assert_eq!(dot::<f64>(&[], &[]), 0.0);
    assert_eq!(dot_onto(100, &[1, 2, 3], &[4, 5, 6]), 132);
    assert_eq!(dot_onto(7, &[], &[]), 7);
}

#[test]
fn argsort_is_stable() {
    let a = [3, 1, 2, 1, 3, 0];
    assert_eq!(argsort(&a, false), vec![5, 1, 3, 2, 0, 4]);
    // the ascending order flipped as a whole: ties stand in reverse
    assert_eq!(argsort(&a, true), vec![4, 0, 2, 3, 1, 5]);
    assert_eq!(argsort(&[1.5, -2.0, 0.0], false), vec![1, 2, 0]);
    assert_eq!(argsort::<f64>(&[], false), Vec::<usize>::new());
    assert_eq!(argsort(&[7], true), vec![0]);
    // with a value that is not a number the result is still a permutation
    let mut ix = argsort(&[2.0, f64::NAN, 1.0], false);
    ix.sort();
    assert_eq!(ix, vec![0, 1, 2]);
}

#[test]
fn extremes() {
    assert_eq!(max(&[1.0, 7.0, 3.0]), 7.0);
    assert_eq!(min(&[1.0, 7.0, -3.0]), -3.0);
    assert_eq!(max(&[4]), 4);
    assert_eq!(min(&[4]), 4);
    // of several indexes that hold the extreme, the first
    assert_eq!(argmax(&[1, 9, 3, 9]), 1);
    assert_eq!(argmin(&[4, 1, 3, 1]), 1);
    assert_eq!(argmax(&[5.0]), 0);
    assert_eq!(argmin(&[5.0]), 0);
    assert_eq!(argmax(&[2, 2, 2]), 0);
    assert_eq!(argmin(&[2, 2, 2]), 0);
    // values at and beyond the finite bounds
    assert_eq!(argmax(&[i32::MIN, i32::MIN]), 0);
    assert_eq!(argmax(&[i32::MIN, i32::MIN + 1]), 1);
    assert_eq!(argmax(&[f64::NEG_INFINITY, f64::MIN]), 1);
    assert_eq!(argmax(&[f64::NEG_INFINITY, f64::NEG_INFINITY, f64::MIN, f64::MIN]), 2);
    assert_eq!(argmin(&[f64::MAX, f64::MAX]), 0);
    assert_eq!(argmin(&[f64::INFINITY, f64::MAX]), 1);
    assert_eq!(argmin(&[i8::MAX, i8::MAX, 126, 126]), 2);
    // a value that is not a number leaves the index unspecified, but valid
    assert!(argmax(&[f64::NAN, 1.0, f64::NAN]) < 3);
    assert!(argmin(&[1.0, f64::NAN]) < 2);
}

#[test]
fn linspace_with_and_without_stop() {
    assert_eq!(linspace(0.0, 1.0, 5, true), vec![0.0, 0.25, 0.5, 0.75, 1.0]);
    assert_eq!(
        linspace(0.0, 1.0, 5, false),
        vec![0.0, 0.2, 0.4, 0.6000000000000001, 0.8]
    );
    assert_eq!(
        linspace(1.0, 2.0, 4, true),
        vec![1.0, 1.3333333333333333, 1.6666666666666665, 2.0]
    );
    assert_eq!(linspace(2.0, -1.0, 4, true), vec![2.0, 1.0, 0.0, -1.0]);
    assert_eq!(linspace(0, 10, 3, true), vec![0, 5, 10]);
}

#[test]
fn linspace_edge_cases() {
    assert_eq!(linspace(0.0, 1.0, 0, true), Vec::<f64>::new());
    assert_eq!(linspace(0.0, 1.0, 0, false), Vec::<f64>::new());
    // a single point is start + (stop - start)
    assert_eq!(linspace(3.0, 5.0, 1, true), vec![5.0]);
    assert_eq!(linspace(3.0, 5.0, 1, false), vec![5.0]);
    // an interval of no length: the step compares equal to zero
    assert_eq!(linspace(1.0, 1.0, 3, true), vec![1.0, 1.0, 1.0]);
    assert_eq!(linspace(1.0, 1.0, 3, false), vec![1.0, 1.0, 1.0]);
    // two points, inclusive: exactly the two ends
    assert_eq!(linspace(0.1, 0.7, 2, true), vec![0.1, 0.7]);
    // a step that rounds to zero among integers
    assert_eq!(linspace(0, 3, 4, false), vec![0, 0, 0, 0]);
    assert_eq!(linspace(0, 3, 5, true), vec![0, 0, 0, 0, 3]);
}

#[test]
fn differences() {
    assert_eq!(diff(&[1, 4, 9, 16]), vec![3, 5, 7]);
    assert_eq!(diff(&[2.5]), Vec::<f64>::new());
    assert_eq!(diff(&[1.0, 0.5]), vec![-0.5]);
}

#[test]
fn conversions_that_fail_give_none() {
    // an i8 holds no count above 127
    assert_eq!(try_range::<i8>(3), Some(vec![0, 1, 2]));
    assert_eq!(try_range::<i8>(128).map(|v| v.len()), Some(128));
    assert_eq!(try_range::<i8>(129), None);
    assert_eq!(try_range::<f64>(0), Some(vec![]));
    let mut a = vec![0i32; 200];
    a[7] = 1;
    assert_eq!(try_find::<i32, i8>(&a), Some(vec![7]));
    a[150] = 1;
    assert_eq!(try_find::<i32, i8>(&a), None);
    assert_eq!(try_find::<i32, u8>(&a), Some(vec![7, 150]));
    assert_eq!(try_mean(&[2i8, 4, 6]), Some(4));
    assert_eq!(try_mean(&[0i8; 200]), None);
    assert_eq!(try_mean(&[1.5, 2.5]), Some(2.0));
    assert_eq!(try_linspace(0i8, 100, 5, true), Some(vec![0, 25, 50, 75, 100]));
    assert_eq!(try_linspace(0i8, 1, 200, false), None);
    assert_eq!(try_linspace(0i8, 1, 129, true), None);
    assert_eq!(try_linspace(0.0, 1.0, 3, true), Some(vec![0.0, 0.5, 1.0]));
    assert_eq!(try_linspace(0i8, 1, 0, true), Some(vec![]));
    assert_eq!(try_linspace(3i8, 5, 1, false), Some(vec![5]));
    assert_eq!(Arr::<i8>::try_range(4).map(|a| a.vec()), Some(vec![0, 1, 2, 3]));
    assert!(Arr::<i8>::try_range(200).is_none());
    assert!(Arr::<i8>::try_linspace(0, 1, 200, true).is_none());
    assert_eq!(Arr::with_vec(vec![3.0, 5.0]).try_mean(), Some(4.0));
    assert_eq!(Arr::with_vec(vec![0i8; 130]).try_mean(), None);
    assert_eq!(Arr::with_vec(vec![0, 9]).try_find::<u8>(), Some(vec![1]));
}
