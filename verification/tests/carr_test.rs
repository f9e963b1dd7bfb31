use dense_num::arr::{conj, pow, rand_complex, randn_complex, CArr};
use dense_num::slice::{is_nan, norm_inf};
use dense_num::traits::{Exp, Ln, Norm};
use dense_num::Arr;
use num_complex::Complex64;

#[test]
fn test_complex() {
    let c = Arr::<Complex64>::from_parts(&vec![1.0, 2.0], &vec![2.0, 3.0]);

    println!("{}", c.to_polar().0.to_string())
}

#[test]
fn complex_parts_come_back() {
    let c = Arr::<Complex64>::from_parts(&[1.0, 2.0], &[2.0, 3.0]);
    assert_eq!(c.real_part().values(), &[1.0, 2.0]);
    assert_eq!(c.imag().values(), &[2.0, 3.0]);
    let norm = CArr::norm(&c);
    assert_eq!(norm.values()[0], (1.0f64 * 1.0 + 2.0 * 2.0).sqrt());
    assert_eq!(norm.values()[1], (2.0f64 * 2.0 + 3.0 * 3.0).sqrt());
    let arg = c.arg();
    assert_eq!(arg.values()[0], 2.0f64.atan2(1.0));
    let (r, theta) = c.to_polar();
    assert_eq!(r.values(), norm.values());
    assert_eq!(theta.values(), arg.values());
}

#[test]
fn complex_from_real_and_imag() {
    let re = Arr::<Complex64>::from_real(&[1.5, -2.0]);
    assert_eq!(re.values(), &[Complex64::new(1.5, 0.0), Complex64::new(-2.0, 0.0)]);
    let im = Arr::<Complex64>::from_imag(&[1.5, -2.0]);
    assert_eq!(im.values(), &[Complex64::new(0.0, 1.5), Complex64::new(0.0, -2.0)]);
}

#[test]
fn complex_interleaved_round_trip() {
    let flat = [1.0, 2.0, 3.0, 4.0, 5.0, 6.0];
    let c = Arr::<Complex64>::from_interleaved(&flat);
    assert_eq!(
        c.values(),
        &[Complex64::new(1.0, 2.0), Complex64::new(3.0, 4.0), Complex64::new(5.0, 6.0)]
    );
    assert_eq!(c.interleave().values(), &flat);
    let none = Arr::<Complex64>::from_interleaved(&[]);
    assert_eq!(none.values().len(), 0);
    assert_eq!(none.interleave().values().len(), 0);
}

#[test]
fn complex_from_polar_matches_the_crate() {
    let c = Arr::<Complex64>::from_polar(&[2.0, 1.0], &[0.0, std::f64::consts::FRAC_PI_2]);
    assert_eq!(c.values()[0], Complex64::from_polar(2.0, 0.0));
    assert_eq!(c.values()[1], Complex64::from_polar(1.0, std::f64::consts::FRAC_PI_2));
    assert_eq!(c.values()[0], Complex64::new(2.0, 0.0));
}

#[test]
fn complex_conjugate_and_power() {
    let c = Arr::<Complex64>::from_parts(&[1.0, 0.0], &[2.0, 1.0]);
    let k = CArr::conj(&c);
    assert_eq!(k.values(), &[Complex64::new(1.0, -2.0), Complex64::new(0.0, -1.0)]);
    let k2 = conj::<f64, Complex64>(c.values());
    assert_eq!(k2.values(), k.values());
    let p = pow::<f64, Complex64>(c.values(), 2);
    assert_eq!(p.values(), &[Complex64::new(-3.0, 4.0), Complex64::new(-1.0, 0.0)]);
    let p0 = pow::<f64, Complex64>(c.values(), 0);
    assert_eq!(p0.values(), &[Complex64::new(1.0, 0.0), Complex64::new(1.0, 0.0)]);
}

#[test]
fn complex_random_arrays_have_the_length_asked_for() {
    let u = rand_complex::<f64, Complex64>(50);
    assert_eq!(u.values().len(), 50);
    for c in u.values() {
        assert!(0.0 <= c.re && c.re < 1.0);
        assert!(0.0 <= c.im && c.im < 1.0);
    }
    let n = randn_complex::<f64, Complex64>(50);
    assert_eq!(n.values().len(), 50);
    assert!(n.values().iter().all(|c| c.re.is_finite() && c.im.is_finite()));
    assert_eq!(rand_complex::<f64, Complex64>(0).values().len(), 0);
}

#[test]
fn complex_arrays_have_the_elementwise_functions() {
    let v = vec![Complex64::new(1.0, 2.0), Complex64::new(-0.5, 0.25)];
    let c = Arr::with_vec(v.clone());
    for i in 0..v.len() {
        assert_eq!(c.ln().values()[i], Complex64::ln(v[i]));
        assert_eq!(c.exp().values()[i], Complex64::exp(v[i]));
        assert_eq!(c.sqrt().values()[i], Complex64::sqrt(v[i]));
        assert_eq!(c.sin().values()[i], Complex64::sin(v[i]));
        assert_eq!(c.cos().values()[i], Complex64::cos(v[i]));
        assert_eq!(c.asin().values()[i], Complex64::asin(v[i]));
        assert_eq!(c.acos().values()[i], Complex64::acos(v[i]));
    }
    // e to the i pi is -1, up to rounding
    let e = Arr::with_vec(vec![Complex64::new(0.0, std::f64::consts::PI)]).exp();
    assert!((e.values()[0] - Complex64::new(-1.0, 0.0)).norm() < 1e-15);
    // the square root of -4 is 2i
    let r = Arr::with_vec(vec![Complex64::new(-4.0, 0.0)]).sqrt();
    assert_eq!(r.values()[0], Complex64::new(0.0, 2.0));
    // one value through the traits themselves
    assert_eq!(Ln::ln(&Complex64::new(1.0, 0.0)), Complex64::new(0.0, 0.0));
    assert_eq!(Exp::exp(&Complex64::new(0.0, 0.0)), Complex64::new(1.0, 0.0));
    assert_eq!(Norm::norm(&Complex64::new(3.0, -4.0)), 5.0);
}

#[test]
fn complex_arrays_have_norms_and_the_nan_test() {
    let c = Arr::with_vec(vec![
        Complex64::new(3.0, 4.0),
        Complex64::new(f64::NAN, 0.0),
        Complex64::new(0.0, -12.0),
        Complex64::new(1.0, f64::NAN),
    ]);
    assert_eq!(c.is_nan(), vec![0, 1, 0, 1]);
    assert_eq!(is_nan(c.values()), vec![0, 1, 0, 1]);
    let d = [Complex64::new(3.0, 4.0), Complex64::new(0.0, -12.0)];
    assert_eq!(norm_inf::<Complex64, f64>(&d), 12.0);
    let empty: [Complex64; 0] = [];
    assert_eq!(norm_inf::<Complex64, f64>(&empty), f64::MIN);
}
