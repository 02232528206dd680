use polynomial::{FixedPolynomial, Numeric, Polynomial, VecPolynomial};

#[test]
fn it_works_vec() {
    let p = VecPolynomial::<i32> { coefficients: vec![-1, 2, 3] };
    let result = p.evaluate(42);
    assert_eq!(result, 3 * 42 * 42 + 2 * 42 - 1);
}

#[test]
fn it_works_fixed() {
    let p = FixedPolynomial { coefficients: [-1, 2, 3] };
    let result = p.evaluate(42);
    assert_eq!(result, 3 * 42 * 42 + 2 * 42 - 1);
}

#[test]
fn value_matches_power_sum() {
    let p = VecPolynomial::new(vec![-1i32, 2, 3]);
    assert_eq!(p.evaluate(42), 5375);
    let q = VecPolynomial::new(vec![4i64, 0, -2, 1]);
    // 4 - 2 * 9 + 27
    assert_eq!(q.evaluate(3), 13);
    assert_eq!(q.evaluate(-2), 4 - 8 - 8);
}

#[test]
fn derivative_matches_weighted_sum() {
    let p = VecPolynomial::new(vec![-1i32, 2, 3]);
    assert_eq!(p.evaluate_derivative(5), 32);
    // 4 - 2x^2 + x^3 has derivative -4x + 3x^2
    let q = FixedPolynomial::new([4i64, 0, -2, 1]);
    assert_eq!(q.evaluate_derivative(3), -12 + 27);
    assert_eq!(q.evaluate_derivative(-1), 4 + 3);
}

#[test]
fn empty_store_is_zero() {
    let p: VecPolynomial<i32> = VecPolynomial::new(Vec::new());
    for x in [-7, 0, 1, 1000] {
        assert_eq!(p.evaluate(x), 0);
        assert_eq!(p.evaluate_derivative(x), 0);
    }
    let f: FixedPolynomial<i64, 0> = FixedPolynomial::new([]);
    assert_eq!(f.evaluate(9), 0);
    assert_eq!(f.evaluate_derivative(9), 0);
}

#[test]
fn constant_ignores_the_point() {
    let p = VecPolynomial::new(vec![17i32]);
    for x in [-3, 0, 2, 40000] {
        assert_eq!(p.evaluate(x), 17);
        assert_eq!(p.evaluate_derivative(x), 0);
    }
}

#[test]
fn stores_agree() {
    let v = VecPolynomial::new(vec![5i32, -3, 0, 2, 1]);
    let f = FixedPolynomial::new([5i32, -3, 0, 2, 1]);
    for x in [-4, -1, 0, 1, 3, 10] {
        assert_eq!(v.evaluate(x), f.evaluate(x));
        assert_eq!(v.evaluate_derivative(x), f.evaluate_derivative(x));
    }
    assert_eq!(v.evaluate(2), 5 - 6 + 16 + 16);
    assert_eq!(f.evaluate_derivative(2), -3 + 6 * 4 + 4 * 8);
}

#[test]
fn at_zero_gives_low_coefficients() {
    let p = VecPolynomial::new(vec![-9i32, 6, 4, 8]);
    assert_eq!(p.evaluate(0), -9);
    assert_eq!(p.evaluate_derivative(0), 6);
    let c = FixedPolynomial::new([11i64]);
    assert_eq!(c.evaluate(0), 11);
    assert_eq!(c.evaluate_derivative(0), 0);
}

#[test]
fn coefficients_are_kept_in_order() {
    let v = VecPolynomial::new(vec![3i32, 1, 4, 1, 5]);
    assert_eq!(v.coefficients(), &[3, 1, 4, 1, 5][..]);
    let f = FixedPolynomial::new([2i64, 7, 1]);
    assert_eq!(f.coefficients(), &[2, 7, 1][..]);
}

#[test]
fn extreme_values_in_range() {
    let p = VecPolynomial::new(vec![i32::MIN, 1]);
    assert_eq!(p.evaluate(i32::MAX), -1);
    let q = VecPolynomial::new(vec![0i64, i64::MAX]);
    assert_eq!(q.evaluate(1), i64::MAX);
    assert_eq!(q.evaluate_derivative(7), i64::MAX);
}

#[test]
fn numeric_operations() {
    assert_eq!(<i32 as Numeric>::zero(), 0);
    assert_eq!(<i64 as Numeric>::zero(), 0);
    assert_eq!(<i32 as Numeric>::from_index(12), Some(12));
    assert_eq!(<i64 as Numeric>::from_index(0), Some(0));
    assert_eq!(<i32 as Numeric>::from_index(i32::MAX as usize), Some(i32::MAX));
    assert_eq!(<i32 as Numeric>::from_index(i32::MAX as usize + 1), None);
    assert_eq!(<i64 as Numeric>::from_index(usize::MAX), None);
    assert_eq!(6i32.times(-7).plus(2), -40);
    assert_eq!(6i64.times(-7).plus(2), -40);
}
