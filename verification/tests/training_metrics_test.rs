use mlp::training::metrics::{class_ids, class_outcomes, correct_count};

#[test]
fn class_outcomes_binary_known_errors() {
    let pred = [1usize, 0, 1, 1, 0];
    let truth = [1usize, 0, 0, 1, 1];
    assert_eq!(class_outcomes(&pred, &truth, 1), (2, 1, 1));
    assert_eq!(class_outcomes(&pred, &truth, 0), (1, 1, 1));
    assert_eq!(correct_count(&pred, &truth), 3);
}

#[test]
fn class_outcomes_uses_only_paired_rows() {
    let pred = [2usize, 2, 2];
    let truth = [2usize];
    assert_eq!(class_outcomes(&pred, &truth, 2), (1, 0, 0));
    assert_eq!(correct_count(&pred, &truth), 1);
}

#[test]
fn class_outcomes_empty_inputs() {
    assert_eq!(class_outcomes(&[], &[], 0), (0, 0, 0));
    assert_eq!(correct_count(&[], &[]), 0);
    assert!(class_ids(&[], &[]).is_empty());
}

#[test]
fn class_ids_sorted_and_distinct_over_both_lists() {
    let pred = [3usize, 0, 3, 1];
    let truth = [2usize, 0, 2];
    assert_eq!(class_ids(&pred, &truth), vec![0, 1, 2, 3]);
}

#[test]
fn multiclass_support_is_true_positives_plus_false_negatives() {
    let pred = [0usize, 1, 2, 2, 1, 0];
    let truth = [0usize, 1, 1, 2, 2, 0];
    for class_id in class_ids(&pred, &truth) {
        let (tp, fp, fn_) = class_outcomes(&pred, &truth, class_id);
        let support = truth.iter().filter(|t| **t == class_id).count();
        let predicted = pred.iter().filter(|p| **p == class_id).count();
        assert_eq!(tp + fn_, support);
        assert_eq!(tp + fp, predicted);
    }
    assert_eq!(class_outcomes(&pred, &truth, 2), (1, 1, 1));
}

// The scenarios below give predicted labels as the prediction rows decode to
// them (the highest output, or `>= 0.5` for a single output), and derive the
// reported ratios from the library's counts.

fn ratio(numerator: usize, denominator: usize) -> f64 {
    if denominator == 0 {
        0.0
    } else {
        numerator as f64 / denominator as f64
    }
}

/// (class, precision, recall, f1, support) for every class that occurs.
fn report(pred: &[usize], truth: &[usize]) -> Vec<(usize, f64, f64, f64, usize)> {
    class_ids(pred, truth)
        .into_iter()
        .map(|c| {
            let (tp, fp, fn_) = class_outcomes(pred, truth, c);
            let precision = ratio(tp, tp + fp);
            let recall = ratio(tp, tp + fn_);
            let f1 = if precision + recall == 0.0 {
                0.0
            } else {
                2.0 * precision * recall / (precision + recall)
            };
            (c, precision, recall, f1, tp + fn_)
        })
        .collect()
}

fn accuracy(pred: &[usize], truth: &[usize]) -> f64 {
    ratio(correct_count(pred, truth), pred.len())
}

fn macro_precision(pred: &[usize], truth: &[usize]) -> f64 {
    let rows = report(pred, truth);
    if rows.is_empty() {
        0.0
    } else {
        rows.iter().map(|r| r.1).sum::<f64>() / rows.len() as f64
    }
}

#[test]
fn scores_empty_predictions_returns_default() {
    assert_eq!(accuracy(&[], &[]), 0.0);
    assert_eq!(macro_precision(&[], &[]), 0.0);
}

#[test]
fn scores_binary_single_column_perfect_classification() {
    let pred = [1usize, 0, 1, 0];
    let truth = [1usize, 0, 1, 0];
    assert!((accuracy(&pred, &truth) - 1.0).abs() < 1e-9);
    assert!((macro_precision(&pred, &truth) - 1.0).abs() < 1e-9);
}

#[test]
fn scores_binary_single_column_partial_errors() {
    let pred = [1usize, 1, 0, 0];
    let truth = [1usize, 0, 0, 0];
    assert!(accuracy(&pred, &truth) < 1.0);
}

#[test]
fn scores_multiclass_perfect_classification() {
    let pred = [0usize, 1, 2];
    let truth = [0usize, 1, 2];
    assert!((accuracy(&pred, &truth) - 1.0).abs() < 1e-9);
}

#[test]
fn scores_all_wrong_predictions_zero_accuracy() {
    let pred = [1usize, 1];
    let truth = [0usize, 0];
    assert_eq!(accuracy(&pred, &truth), 0.0);
}

#[test]
fn scores_precision_zero_when_no_tp_and_fp_match() {
    let pred = [0usize, 0];
    let truth = [1usize, 1];
    assert_eq!(accuracy(&pred, &truth), 0.0);
    assert_eq!(macro_precision(&pred, &truth), 0.0);
}

#[test]
fn report_empty_predictions_returns_default() {
    assert!(report(&[], &[]).is_empty());
    assert_eq!(accuracy(&[], &[]), 0.0);
}

#[test]
fn report_binary_perfect_classification() {
    let pred = [0usize, 1, 0];
    let truth = [0usize, 1, 0];
    assert!((accuracy(&pred, &truth) - 1.0).abs() < 1e-9);
    let rows = report(&pred, &truth);
    assert_eq!(rows.len(), 2);
    for (_, precision, recall, f1, _) in rows {
        assert!((precision - 1.0).abs() < 1e-9);
        assert!((recall - 1.0).abs() < 1e-9);
        assert!((f1 - 1.0).abs() < 1e-9);
    }
}

#[test]
fn report_binary_known_errors() {
    let pred = [0usize, 1, 1, 0];
    let truth = [1usize, 1, 0, 0];
    assert!((accuracy(&pred, &truth) - 0.5).abs() < 1e-9);
    let rows = report(&pred, &truth);
    assert_eq!(rows.len(), 2);
    for (_, precision, recall, f1, support) in rows {
        assert!((precision - 0.5).abs() < 1e-9);
        assert!((recall - 0.5).abs() < 1e-9);
        assert!((f1 - 0.5).abs() < 1e-9);
        assert_eq!(support, 2);
    }
}

#[test]
fn report_multiclass_metrics() {
    let pred = [0usize, 1, 2, 0];
    let truth = [0usize, 2, 2, 1];
    let rows = report(&pred, &truth);
    assert_eq!(rows.len(), 3);
    assert!((accuracy(&pred, &truth) - 0.5).abs() < 1e-9);

    let (_, p0, r0, _, s0) = rows[0];
    assert!((p0 - 0.5).abs() < 1e-9);
    assert!((r0 - 1.0).abs() < 1e-9);
    assert_eq!(s0, 1);
    let (_, p1, r1, f1, s1) = rows[1];
    assert_eq!(p1, 0.0);
    assert_eq!(r1, 0.0);
    assert_eq!(f1, 0.0);
    assert_eq!(s1, 1);
    let (_, p2, r2, _, s2) = rows[2];
    assert!((p2 - 1.0).abs() < 1e-9);
    assert!((r2 - 0.5).abs() < 1e-9);
    assert_eq!(s2, 2);
}
