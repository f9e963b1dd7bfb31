use dense_num::array::Array;

#[test]
fn test_array() {
    let mut a = Array::<f64>::ones(6);
    let mut b = Array::<f64>::ones(6);

    a.add_assign_scalar(1.0);
    b.mul_assign_scalar(2.0);
    a.add_assign_array(&b);
    println!("{}", a.to_string());
    println!("{}", b.to_string());
    assert_eq!(a.data(), &[4.0; 6]);
    assert_eq!(b.data(), &[2.0; 6]);
}

#[test]
fn array_renders_on_one_line() {
    let mut a = Array::<f64>::zeros(3);
    a.add_assign_scalar(1.5);
    assert_eq!(a.to_string(), "1.5 1.5 1.5");
    assert_eq!(Array::<f64>::zeros(0).to_string(), "");
    a.data_mut()[1] = -2.0;
    a.data_mut().push(0.25);
    assert_eq!(a.to_string(), "1.5 -2 1.5 0.25");
}

#[test]
fn array_arithmetic_with_operators() {
    let a = Array::<i64>::ones(4);
    let b = a + 2;
    assert_eq!(b.data(), &[3, 3, 3, 3]);
    let c = b.mul_array(&b);
    assert_eq!(c.data(), &[9, 9, 9, 9]);
    let d = c.scalar_sub(10);
    assert_eq!(d.data(), &[1, 1, 1, 1]);
    let e = -(d * b / Array::<i64>::ones(4) - 1);
    assert_eq!(e.data(), &[-2, -2, -2, -2]);
}
