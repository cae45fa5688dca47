use digit_classifier::inference::evaluate_predictions;

#[test]
fn evaluation_counts_each_outcome() {
    let predictions = [0usize, 1, 1, 2, 5];
    let labels = [0u8, 1, 2, 2, 3];
    let e = evaluate_predictions(&predictions, &labels, 1000);
    assert_eq!(e.metrics.len(), 10);
    for (d, m) in e.metrics.iter().enumerate() {
        assert_eq!(m.digit as usize, d);
        assert_eq!(m.n_train, 1000);
    }
    let counts: Vec<(u64, u64, u64)> =
        e.metrics.iter().map(|m| (m.tpos, m.fpos, m.fneg)).collect();
    assert_eq!(counts[0], (1, 0, 0));
    assert_eq!(counts[1], (1, 1, 0));
    assert_eq!(counts[2], (1, 0, 1));
    assert_eq!(counts[3], (0, 0, 1));
    assert_eq!(counts[5], (0, 1, 0));
    assert_eq!(counts[7], (0, 0, 0));
    assert_eq!(e.score, 3);
}

#[test]
fn true_positives_add_up_to_score() {
    let predictions = [3usize, 3, 4, 9, 0, 0, 7, 7, 7];
    let labels = [3u8, 2, 4, 9, 1, 0, 7, 1, 7];
    let e = evaluate_predictions(&predictions, &labels, 1000);
    let total: u64 = e.metrics.iter().map(|m| m.tpos).sum();
    assert_eq!(total, e.score);
    assert_eq!(e.score, 6);
}

#[test]
fn precision_and_recall_denominators_count_predictions_and_labels() {
    let predictions = [1usize, 1, 1, 0, 2];
    let labels = [1u8, 0, 2, 1, 1];
    let e = evaluate_predictions(&predictions, &labels, 5);
    let one = e.metrics[1];
    assert_eq!(one.precision().den, 3);
    assert_eq!(one.recall().den, 3);
    assert_eq!(one.precision().num, 1);
}

#[test]
fn extra_labels_are_ignored() {
    let predictions = [4usize];
    let labels = [4u8, 4, 4];
    let e = evaluate_predictions(&predictions, &labels, 1000);
    assert_eq!((e.metrics[4].tpos, e.metrics[4].fpos, e.metrics[4].fneg), (1, 0, 0));
    assert_eq!(e.score, 1);
}

#[test]
fn empty_test_set() {
    let e = evaluate_predictions(&[], &[], 1000);
    assert_eq!(e.metrics.len(), 10);
    assert!(e.metrics.iter().all(|m| m.tpos == 0 && m.fpos == 0 && m.fneg == 0));
    assert_eq!(e.score, 0);
}

#[test]
fn score_compares_the_prediction_narrowed_to_a_byte() {
    // 258 narrowed to a byte is 2: it counts as correct for the score,
    // but it is no true positive of digit 2.
    let predictions = [258usize];
    let labels = [2u8];
    let e = evaluate_predictions(&predictions, &labels, 1000);
    assert_eq!(e.score, 1);
    assert_eq!(e.metrics[2].tpos, 0);
    assert_eq!(e.metrics[2].fneg, 1);
}
