use digits_calculator::{calculate_pi, Term};

fn scalar(term: Term) -> f64 {
    let sign = if term.negative { -1.0 } else { 1.0 };
    (sign / term.denominator as f64) * term.numerator as f64
}

fn plus(x: f64, y: f64) -> f64 {
    x + y
}

#[test]
fn math_test_calculate_pi_zero_iterations() {
    let result = calculate_pi(0, 0.0, scalar, plus);
    assert_eq!(result, 0.0, "Zero iterations should return 0");
}

#[test]
fn math_test_calculate_pi_one_iteration() {
    let result = calculate_pi(1, 0.0, scalar, plus);
    assert!((result - 4.0).abs() < 0.001, "One iteration should approximate to 4.0");
}

#[test]
fn math_test_calculate_pi_accuracy_increases_with_iterations() {
    let result_100 = calculate_pi(100, 0.0, scalar, plus);
    let result_1000 = calculate_pi(1000, 0.0, scalar, plus);
    let result_10000 = calculate_pi(10000, 0.0, scalar, plus);
    let pi_actual = std::f64::consts::PI;

    let error_100 = (result_100 - pi_actual).abs();
    let error_1000 = (result_1000 - pi_actual).abs();
    let error_10000 = (result_10000 - pi_actual).abs();

    assert!(error_100 > error_1000, "Error should decrease with more iterations");
    assert!(error_1000 > error_10000, "Error should continue to decrease");
}

#[test]
fn math_test_calculate_pi_large_iterations() {
    let result = calculate_pi(1_000_000, 0.0, scalar, plus);
    let pi_actual = std::f64::consts::PI;
    let error = (result - pi_actual).abs();
    assert!(error < 0.001, "1M iterations should be accurate within 0.001");
}

#[test]
fn lib_test_calculate_pi_zero_iterations() {
    let result = calculate_pi(0, 0.0, scalar, plus);
    assert_eq!(result, 0.0, "Zero iterations should return 0");
}

#[test]
fn lib_test_calculate_pi_one_iteration() {
    let result = calculate_pi(1, 0.0, scalar, plus);
    assert!((result - 4.0).abs() < 0.001, "One iteration should approximate to 4.0");
}

#[test]
fn lib_test_calculate_pi_accuracy_increases_with_iterations() {
    let result_100 = calculate_pi(100, 0.0, scalar, plus);
    let result_1000 = calculate_pi(1000, 0.0, scalar, plus);
    let result_10000 = calculate_pi(10000, 0.0, scalar, plus);
    let pi_actual = std::f64::consts::PI;

    let error_100 = (result_100 - pi_actual).abs();
    let error_1000 = (result_1000 - pi_actual).abs();
    let error_10000 = (result_10000 - pi_actual).abs();

    assert!(
        error_100 > error_1000,
        "Error should decrease with more iterations"
    );
    assert!(
        error_1000 > error_10000,
        "Error should continue to decrease with more iterations"
    );
}

#[test]
fn lib_test_calculate_pi_large_iterations() {
    let result = calculate_pi(1_000_000, 0.0, scalar, plus);
    let pi_actual = std::f64::consts::PI;
    let error = (result - pi_actual).abs();

    assert!(error < 0.001, "1M iterations should be accurate within 0.001");
}

#[test]
fn calculate_pi_first_partial_sums_are_exact() {
    assert_eq!(calculate_pi(1, 0.0, scalar, plus), 4.0);
    assert_eq!(calculate_pi(2, 0.0, scalar, plus), 4.0 + (-1.0 / 3.0) * 4.0);
    assert_eq!(
        calculate_pi(3, 0.0, scalar, plus),
        4.0 + (-1.0 / 3.0) * 4.0 + (1.0 / 5.0) * 4.0
    );
}

#[test]
fn calculate_pi_matches_summing_the_series_with_powers() {
    for n in [0u32, 1, 2, 3, 10, 57, 1000] {
        let mut expected = 0.0;
        for k in 0..n {
            expected += ((-1.0f64).powf(k as f64) / (2 * k + 1) as f64) * 4.0;
        }
        assert_eq!(calculate_pi(n, 0.0, scalar, plus), expected);
    }
}

#[test]
fn calculate_pi_hands_out_the_terms_of_the_series_in_order() {
    let seen = std::cell::RefCell::new(Vec::new());
    let record = |term: Term| {
        seen.borrow_mut().push(term);
        seen.borrow().len()
    };
    let last = calculate_pi(4, 0usize, record, |_sum, index| index);
    assert_eq!(last, 4);
    assert_eq!(
        seen.into_inner(),
        vec![
            Term { negative: false, numerator: 4, denominator: 1 },
            Term { negative: true, numerator: 4, denominator: 3 },
            Term { negative: false, numerator: 4, denominator: 5 },
            Term { negative: true, numerator: 4, denominator: 7 },
        ]
    );
}

#[test]
fn calculate_pi_in_exact_arithmetic() {
    // Over the common denominator 3 * 5 * 7 = 105 the first four terms are integers.
    let scaled = |term: Term| {
        let magnitude = (term.numerator * 105 / term.denominator) as i64;
        if term.negative { -magnitude } else { magnitude }
    };
    let sum = |x: i64, y: i64| x + y;
    assert_eq!(calculate_pi(0, 0, scaled, sum), 0);
    assert_eq!(calculate_pi(1, 0, scaled, sum), 420);
    assert_eq!(calculate_pi(2, 0, scaled, sum), 420 - 140);
    assert_eq!(calculate_pi(3, 0, scaled, sum), 420 - 140 + 84);
    assert_eq!(calculate_pi(4, 0, scaled, sum), 420 - 140 + 84 - 60);
}

#[test]
fn calculate_pi_starts_from_the_given_zero() {
    assert_eq!(calculate_pi(0, 7.5, scalar, plus), 7.5);
    assert_eq!(calculate_pi(1, 1.0, scalar, plus), 5.0);
}

#[test]
fn calculate_pi_denominators_stay_odd_for_large_counts() {
    let largest = std::cell::Cell::new(0u64);
    let watch = |term: Term| {
        assert_eq!(term.denominator % 2, 1);
        assert_eq!(term.numerator, 4);
        largest.set(term.denominator);
        term.negative
    };
    let last_sign = calculate_pi(100_001, false, watch, |_before, sign| sign);
    assert_eq!(largest.get(), 2 * 100_000 + 1);
    assert!(!last_sign);
}
