use digit_classifier::metrics::{Ratio, F1};

fn value(r: Ratio) -> f64 {
    r.num as f64 / r.den as f64
}

#[test]
fn test_f1() {
    let f1_example = F1 {
        digit: 0,
        n_train: 0,
        tpos: 8,
        fpos: 7,
        fneg: 2,
    };

    let precision = value(f1_example.precision());
    let recall = value(f1_example.recall());
    let f1 = value(f1_example.f1());

    assert!((precision - 0.533).abs() <= 0.001);
    assert!((recall - 0.80).abs() <= 0.001);
    assert!((f1 - 0.64).abs() <= 0.001);
}

#[test]
fn f1_exact_fractions() {
    let m = F1 { digit: 3, n_train: 1000, tpos: 8, fpos: 7, fneg: 2 };
    assert_eq!(m.precision(), Ratio { num: 8, den: 15 });
    assert_eq!(m.recall(), Ratio { num: 8, den: 10 });
    assert_eq!(m.f1(), Ratio { num: 16, den: 25 });
}

#[test]
fn f1_is_harmonic_mean_of_precision_and_recall() {
    let m = F1 { digit: 1, n_train: 10, tpos: 5, fpos: 3, fneg: 9 };
    let p = value(m.precision());
    let r = value(m.recall());
    let f = value(m.f1());
    assert!((f - 2.0 * p * r / (p + r)).abs() < 1e-12);
}

#[test]
fn new_record_starts_at_zero() {
    let m = F1::new(7, 1000);
    assert_eq!(m.digit, 7);
    assert_eq!(m.n_train, 1000);
    assert_eq!((m.tpos, m.fpos, m.fneg), (0, 0, 0));
}

#[test]
fn undefined_when_nothing_counted() {
    let m = F1::new(4, 1000);
    assert_eq!(m.precision(), Ratio { num: 0, den: 0 });
    assert_eq!(m.recall(), Ratio { num: 0, den: 0 });
    assert_eq!(m.f1(), Ratio { num: 0, den: 0 });
    assert!(value(m.f1()).is_nan());
}

#[test]
fn f1_undefined_without_true_positive() {
    let m = F1 { digit: 2, n_train: 1000, tpos: 0, fpos: 4, fneg: 3 };
    assert_eq!(m.precision(), Ratio { num: 0, den: 4 });
    assert_eq!(m.recall(), Ratio { num: 0, den: 3 });
    assert_eq!(m.f1().den, 0);
}

#[test]
fn large_counts_do_not_overflow() {
    let m = F1 { digit: 9, n_train: 1, tpos: u64::MAX, fpos: u64::MAX, fneg: u64::MAX };
    assert_eq!(m.f1(), Ratio { num: 2 * (u64::MAX as u128), den: 4 * (u64::MAX as u128) });
    assert_eq!(m.precision().den, 2 * (u64::MAX as u128));
}
