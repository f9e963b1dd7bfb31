use dense_num::slice::{is_nan, norm, norm_complex, norm_inf, std_dev, try_std_dev};
use dense_num::traits::{
    Abs, ArcCos, ArcSin, Cos, Exp, IsNaN, Ln, Norm, Round, Scalar, Sin, Sqrt,
};
use dense_num::Arr;
use std::ops::{Add, Div, Mul, Sub};

/// A real number with the capabilities that the library asks for.
#[derive(Debug, Clone, Copy, PartialEq, PartialOrd)]
struct R(f64);

impl Add for R {
    type Output = R;
    fn add(self, rhs: R) -> R {
        R(self.0 + rhs.0)
    }
}

impl Sub for R {
    type Output = R;
    fn sub(self, rhs: R) -> R {
        R(self.0 - rhs.0)
    }
}

impl Mul for R {
    type Output = R;
    fn mul(self, rhs: R) -> R {
        R(self.0 * rhs.0)
    }
}

impl Div for R {
    type Output = R;
    fn div(self, rhs: R) -> R {
        R(self.0 / rhs.0)
    }
}

impl num_traits::Zero for R {
    fn zero() -> R {
        R(0.0)
    }
    fn is_zero(&self) -> bool {
        self.0 == 0.0
    }
}

impl num_traits::One for R {
    fn one() -> R {
        R(1.0)
    }
}

impl num_traits::Bounded for R {
    fn min_value() -> R {
        R(f64::MIN)
    }
    fn max_value() -> R {
        R(f64::MAX)
    }
}

impl num_traits::FromPrimitive for R {
    fn from_i64(n: i64) -> Option<R> {
        Some(R(n as f64))
    }
    fn from_u64(n: u64) -> Option<R> {
        Some(R(n as f64))
    }
}

impl Scalar for R {
    type Real = f64;
}

impl Scalar for C {
    type Real = f64;
}

impl Ln for R {
    fn ln(&self) -> R {
        R(self.0.ln())
    }
}

impl Exp for R {
    fn exp(&self) -> R {
        R(self.0.exp())
    }
}

impl Abs for R {
    fn abs(&self) -> R {
        R(self.0.abs())
    }
}

impl Round for R {
    fn round(&self) -> R {
        R(self.0.round())
    }
}

impl Sqrt for R {
    fn sqrt(&self) -> R {
        R(self.0.sqrt())
    }
}

impl IsNaN for R {
    fn is_nan(&self) -> bool {
        self.0.is_nan()
    }
}

impl Sin for R {
    fn sin(&self) -> R {
        R(self.0.sin())
    }
}

impl Cos for R {
    fn cos(&self) -> R {
        R(self.0.cos())
    }
}

impl ArcSin for R {
    fn asin(&self) -> R {
        R(self.0.asin())
    }
}

impl ArcCos for R {
    fn acos(&self) -> R {
        R(self.0.acos())
    }
}

impl Norm<R> for R {
    fn norm(&self) -> R {
        R(self.0.abs())
    }
}

/// A complex number that knows its magnitude.
#[derive(Debug, Clone, Copy)]
struct C(f64, f64);

impl Norm<R> for C {
    fn norm(&self) -> R {
        R(self.0.hypot(self.1))
    }
}

fn reals(v: &[f64]) -> Arr<R> {
    Arr::with_vec(v.iter().map(|&x| R(x)).collect())
}

fn plain(a: &Arr<R>) -> Vec<f64> {
    a.values().iter().map(|r| r.0).collect()
}

#[test]
fn elementwise_functions() {
    let a = reals(&[0.5, 1.0, 2.0]);
    assert_eq!(plain(&a.ln()), vec![0.5f64.ln(), 0.0, 0.6931471805599453]);
    assert_eq!(plain(&a.exp()), vec![0.5f64.exp(), 2.718281828459045, 2.0f64.exp()]);
    assert_eq!(plain(&a.sqrt()), vec![0.5f64.sqrt(), 1.0, 2.0f64.sqrt()]);
    assert_eq!(plain(&a.sin())[0], 0.479425538604203);
    assert_eq!(plain(&a.cos())[0], 0.8775825618903728);
    assert_eq!(plain(&a.asin())[0], 0.5235987755982989);
    assert_eq!(plain(&a.acos())[0], 1.0471975511965979);
    let b = reals(&[-1.5, 2.4, -0.4, 2.5]);
    assert_eq!(plain(&b.abs()), vec![1.5, 2.4, 0.4, 2.5]);
    assert_eq!(plain(&b.round()), vec![-2.0, 2.0, -0.0, 3.0]);
    // the source is left as it was
    assert_eq!(plain(&b), vec![-1.5, 2.4, -0.4, 2.5]);
    let mut c = reals(&[-1.5, 2.4, -0.4, 2.5]);
    c.round_mut();
    assert_eq!(plain(&c), vec![-2.0, 2.0, -0.0, 3.0]);
    assert_eq!(reals(&[]).ln().values().len(), 0);
}

#[test]
fn edge_values_pass_through() {
    let a = reals(&[0.0, -1.0]);
    let l = plain(&a.ln());
    assert_eq!(l[0], f64::NEG_INFINITY);
    assert!(l[1].is_nan());
    assert!(plain(&a.sqrt())[1].is_nan());
    let q = a.scalar_div(R(1.0));
    assert_eq!(plain(&q), vec![f64::INFINITY, -1.0]);
}

#[test]
fn nan_masks() {
    let a = reals(&[1.0, f64::NAN, f64::INFINITY, f64::NAN]);
    assert_eq!(a.is_nan(), vec![0, 1, 0, 1]);
    assert_eq!(is_nan(a.values()), vec![0, 1, 0, 1]);
    assert_eq!(is_nan::<R>(&[]), Vec::<usize>::new());
}

#[test]
fn norms() {
    let a = reals(&[3.0, -4.0]);
    assert_eq!(a.norm2(), R(5.0));
    assert_eq!(norm(a.values()), R(5.0));
    assert_eq!(norm::<R>(&[]), R(0.0));
    assert_eq!(norm_inf::<R, R>(a.values()), R(4.0));
    assert_eq!(norm_inf::<R, R>(&[R(-7.0), R(2.0)]), R(7.0));
    // with nothing to scan, the smallest finite number
    assert_eq!(norm_inf::<R, R>(&[]), R(f64::MIN));
    // complex values go by their magnitude
    let c = [C(3.0, 4.0), C(0.0, -12.0)];
    assert_eq!(norm_inf::<C, R>(&c), R(12.0));
    assert_eq!(norm_complex::<C, R>(&c), R(13.0));
}

#[test]
fn statistics() {
    let a = reals(&[2.0, 4.0, 4.0, 4.0, 5.0, 5.0, 7.0, 9.0]);
    assert_eq!(a.mean(), R(5.0));
    // the population formula: divided by the length, not by one less
    assert_eq!(a.std_dev(), R(2.0));
    assert_eq!(std_dev(a.values()), R(2.0));
    assert_eq!(std_dev(&[R(3.0)]), R(0.0));
    assert_eq!(try_std_dev(a.values()), Some(R(2.0)));
    assert_eq!(a.try_std_dev(), Some(R(2.0)));
    assert_eq!(a.max(), R(9.0));
    assert_eq!(a.min(), R(2.0));
    assert_eq!(a.argmax(), 7);
    assert_eq!(a.argmin(), 0);
}

#[test]
fn generators() {
    assert_eq!(plain(&Arr::<R>::range(3)), vec![0.0, 1.0, 2.0]);
    assert_eq!(plain(&Arr::arange(R(1.0), R(2.0), R(0.5))), vec![1.0, 1.5]);
    assert_eq!(
        plain(&Arr::linspace(R(0.0), R(1.0), 3, true)),
        vec![0.0, 0.5, 1.0]
    );
    let found: Vec<R> = reals(&[0.0, 2.0]).find();
    assert_eq!(found, vec![R(1.0)]);
}
