use dense_num::{densetools, full, iter, random};

#[test]
fn offsets_in_both_orders() {
    // 2 rows, 3 columns
    assert_eq!(full::ix(2, 3, 0, 0, false), 0);
    assert_eq!(full::ix(2, 3, 1, 2, false), 5);
    assert_eq!(full::ix(2, 3, 1, 0, false), 3);
    assert_eq!(full::ix(2, 3, 1, 0, true), 1);
    assert_eq!(full::ix(2, 3, 0, 2, true), 4);
    assert_eq!(full::ix(2, 3, 1, 2, true), 5);
    // the flag of densetools reads the other way round
    assert_eq!(densetools::ix(2, 3, 1, 0, true), 3);
    assert_eq!(densetools::ix(2, 3, 1, 0, false), 1);
    // every coordinate has an offset of its own
    for col_major in [false, true] {
        let mut seen = vec![false; 12];
        for r in 0..3 {
            for c in 0..4 {
                let i = full::ix(3, 4, r, c, col_major);
                assert!(!seen[i]);
                seen[i] = true;
            }
        }
        assert!(seen.iter().all(|&s| s));
    }
}

#[test]
fn reading_and_writing_cells() {
    let mut a = vec![1, 2, 3, 4, 5, 6];
    assert_eq!(full::get(2, 3, &a, 1, 1, false), 5);
    assert_eq!(full::get(2, 3, &a, 1, 1, true), 4);
    assert_eq!(*full::get_ref(2, 3, &a, 0, 2, false), 3);
    full::set(2, 3, &mut a, 0, 2, 30, false);
    assert_eq!(a, vec![1, 2, 30, 4, 5, 6]);
    *full::get_ref_mut(2, 3, &mut a, 0, 2, true) = 50;
    assert_eq!(a, vec![1, 2, 30, 4, 50, 6]);
    assert_eq!(densetools::get(2, 3, &a, 1, 0, true), 4);
    densetools::set(2, 3, &mut a, 1, 0, 40, false);
    assert_eq!(a, vec![1, 40, 30, 4, 50, 6]);
}

#[test]
fn filled_buffers() {
    assert_eq!(full::zeros::<f64>(2, 2), vec![0.0; 4]);
    assert_eq!(full::ones::<i32>(3, 1), vec![1; 3]);
    assert_eq!(full::zeros::<f64>(0, 7), Vec::<f64>::new());
    assert_eq!(full::identity::<i32>(2), vec![1, 0, 0, 1]);
    assert_eq!(full::identity::<f64>(1), vec![1.0]);
    assert_eq!(densetools::zeros::<i32>(1, 2), vec![0, 0]);
    assert_eq!(densetools::ones::<i32>(1, 2), vec![1, 1]);
    assert_eq!(densetools::identity::<i32>(3), vec![1, 0, 0, 0, 1, 0, 0, 0, 1]);
    assert_eq!(full::identity_with(2, 'o', 'i'), vec!['i', 'o', 'o', 'i']);
    assert_eq!(full::identity_with(3, 0u8, 7), vec![7, 0, 0, 0, 7, 0, 0, 0, 7]);
    assert_eq!(full::identity_with(0, 0, 1), Vec::<i32>::new());
    assert_eq!(
        full::mat_vec(3, 3, &full::identity_with(3, 0i64, 1), &[4, -5, 6], true),
        vec![4, -5, 6]
    );
}

#[test]
fn products_on_buffers() {
    // [1 2 3; 4 5 6]
    let row_major = [1, 2, 3, 4, 5, 6];
    let col_major = [1, 4, 2, 5, 3, 6];
    assert_eq!(full::mat_vec(2, 3, &row_major, &[1, 1, 1], false), vec![6, 15]);
    assert_eq!(full::mat_vec(2, 3, &col_major, &[1, 1, 1], true), vec![6, 15]);
    assert_eq!(densetools::mat_vec(2, 3, &row_major, &[1, 2, 3], true), vec![14, 32]);
    // times [1 0; 0 1; 1 1] = [4 5; 10 11]
    let b_row = [1, 0, 0, 1, 1, 1];
    let b_col = [1, 0, 1, 0, 1, 1];
    assert_eq!(
        full::mat_mat(2, 3, &row_major, 3, 2, &b_row, false),
        vec![4, 5, 10, 11]
    );
    assert_eq!(
        full::mat_mat(2, 3, &col_major, 3, 2, &b_col, true),
        vec![4, 10, 5, 11]
    );
    assert_eq!(
        densetools::mat_mat(2, 3, &row_major, 3, 2, &b_row, true),
        vec![4, 5, 10, 11]
    );
    // onto a seed: every cell starts from it
    assert_eq!(
        full::mat_mat_onto(100, 2, 3, &row_major, 3, 2, &b_row, false),
        vec![104, 105, 110, 111]
    );
    assert_eq!(full::mat_mat_onto(7, 1, 0, &[], 0, 2, &[], true), vec![7, 7]);
    // an inner dimension of zero leaves zeros
    assert_eq!(full::mat_mat::<i32>(2, 0, &[], 0, 2, &[], false), vec![0; 4]);
}

#[test]
fn text_of_a_buffer() {
    let a = [1.5, 2.0, -3.0, 4.25];
    assert_eq!(full::to_string(2, 2, &a, false), "1.5 2\n-3 4.25");
    assert_eq!(full::to_string(2, 2, &a, true), "1.5 -3\n2 4.25");
    assert_eq!(densetools::to_string(2, 2, &a, true), "1.5 2\n-3 4.25");
    assert_eq!(full::to_string(1, 4, &a, false), "1.5 2 -3 4.25");
    assert_eq!(full::to_string(4, 1, &a, false), "1.5\n2\n-3\n4.25");
    assert_eq!(full::to_string::<f64>(0, 0, &[], false), "");
}

#[test]
fn algorithms_on_iterators() {
    let a = [1.0, 2.0, 3.0];
    let b = [4.0, 5.0, 6.0];
    assert_eq!(iter::dot(a.iter().copied(), b.iter().copied()), 32.0);
    assert_eq!(iter::dot(a.iter().copied().skip(1).step_by(2), b.iter().copied().take(1)), 8.0);
    assert_eq!(iter::dot(std::iter::empty::<i32>(), std::iter::empty::<i32>()), 0);
    assert_eq!(iter::max(a.iter().copied()), 3.0);
    assert_eq!(iter::min(b.iter().copied()), 4.0);
    assert_eq!(iter::max((1..=5).map(|i| (i * 3) % 7)), 6);
}

#[test]
fn random_buffers() {
    let r: Vec<f64> = random::random(3, 4);
    assert_eq!(r.len(), 12);
    assert!(r.iter().all(|&v| (0.0..1.0).contains(&v)));
    let none: Vec<f64> = random::random(0, 4);
    assert!(none.is_empty());
    let u: f64 = random::standard();
    assert!((0.0..1.0).contains(&u));
    let n: f64 = random::normal();
    assert!(n.is_finite());
    // two buffers of draws differ
    let s: Vec<u64> = random::random(1, 8);
    let t: Vec<u64> = random::random(1, 8);
    assert_ne!(s, t);
}
