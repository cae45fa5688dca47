use digit_classifier::cli::{Library, Method};
use digit_classifier::labels::prepare_trn_lbl;
use digit_classifier::models::logistic_regression::one_hot_encode;
use digit_classifier::solvers::qr::leading_rank;

#[test]
fn indicator_marks_the_digit() {
    assert_eq!(prepare_trn_lbl(&[5, 3, 5, 0], 5), vec![1, 0, 1, 0]);
    assert_eq!(prepare_trn_lbl(&[5, 3, 5, 0], 7), vec![0, 0, 0, 0]);
    assert_eq!(prepare_trn_lbl(&[], 1), Vec::<u8>::new());
}

#[test]
fn one_hot_rows() {
    let rows = one_hot_encode(&[2, 0, 9]);
    assert_eq!(rows.len(), 3);
    assert_eq!(rows[0], vec![0, 0, 1, 0, 0, 0, 0, 0, 0, 0]);
    assert_eq!(rows[1], vec![1, 0, 0, 0, 0, 0, 0, 0, 0, 0]);
    assert_eq!(rows[2], vec![0, 0, 0, 0, 0, 0, 0, 0, 0, 1]);
    assert!(rows.iter().all(|r| r.iter().map(|&x| x as u32).sum::<u32>() == 1));
}

#[test]
fn one_hot_columns_match_indicators() {
    let labels = [4u8, 1, 4, 7, 0];
    let rows = one_hot_encode(&labels);
    for d in 0..10u8 {
        let column: Vec<u8> = rows.iter().map(|r| r[d as usize]).collect();
        assert_eq!(column, prepare_trn_lbl(&labels, d));
    }
}

#[test]
fn rank_counts_leading_significant_entries() {
    assert_eq!(leading_rank(&[true, true, false, true]), 2);
    assert_eq!(leading_rank(&[true, true, true]), 3);
    assert_eq!(leading_rank(&[false, true]), 0);
    assert_eq!(leading_rank(&[]), 0);
}

#[test]
fn menu_selections() {
    assert_eq!(Library::from_selection(0), Library::Faer);
    assert_eq!(Library::from_selection(1), Library::NAlgebra);
    assert_eq!(Method::from_selection(0), Method::SVD);
    assert_eq!(Method::from_selection(1), Method::QR);
    assert_eq!(Method::from_selection(2), Method::Logistic);
}
