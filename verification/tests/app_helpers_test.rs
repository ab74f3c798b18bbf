use mlp::app::split::{check_split_ratio, check_split_rows, SplitError};
use mlp::app::training::{
    check_split_sizes, check_training_rows, curve_file_path, dataset_column_names,
    history_enabled, PrepareError,
};
use mlp::app::types::MonitorOptions;
use mlp::network::callbacks::ProgressLogger;
use mlp::visualization::plotter::{is_bounded_metric, metric_labels, selected_metrics};
use mlp::training::monitor::MonitoredMetric;

#[test]
fn split_ratio_must_be_strictly_between_zero_and_one() {
    assert_eq!(check_split_ratio(0.0f64.to_bits()), Err(SplitError::RatioOutOfRange));
    assert_eq!(check_split_ratio(1.0f64.to_bits()), Err(SplitError::RatioOutOfRange));
    assert_eq!(check_split_ratio((-0.5f64).to_bits()), Err(SplitError::RatioOutOfRange));
    assert_eq!(check_split_ratio((-0.0f64).to_bits()), Err(SplitError::RatioOutOfRange));
    assert_eq!(check_split_ratio(f64::INFINITY.to_bits()), Err(SplitError::RatioOutOfRange));
    assert_eq!(check_split_ratio(0.8f64.to_bits()), Ok(()));
    assert_eq!(check_split_ratio(f64::MIN_POSITIVE.to_bits()), Ok(()));
    assert_eq!(check_split_ratio(0.999_999f64.to_bits()), Ok(()));
    assert_eq!(check_split_ratio(f64::NAN.to_bits()), Ok(()));
}

#[test]
fn split_needs_two_rows() {
    assert_eq!(check_split_rows(1), Err(SplitError::TooFewRows));
    assert_eq!(check_split_rows(2), Ok(()));
    assert!(SplitError::rows_message().contains("at least 2 rows"));
}

#[test]
fn training_needs_three_rows_and_two_nonempty_sides() {
    assert_eq!(check_training_rows(2), Err(PrepareError::TooFewRows));
    assert_eq!(check_training_rows(3), Ok(()));
    assert!(PrepareError::TooFewRows.message().contains("at least 3 rows"));
    assert_eq!(check_split_sizes(0, 3), Err(PrepareError::EmptySplit));
    assert_eq!(check_split_sizes(3, 0), Err(PrepareError::EmptySplit));
    assert_eq!(check_split_sizes(2, 1), Ok(()));
    assert!(PrepareError::EmptySplit.message().contains("empty training or validation"));
}

#[test]
fn curve_file_path_embeds_config_and_timestamp() {
    assert_eq!(
        curve_file_path(Some("mandatory_sgd"), "20260802-104713"),
        "reports/learning_curves_mandatory_sgd_20260802-104713.png"
    );
    assert_eq!(curve_file_path(None, "20260802-104713"), "reports/learning_curves_20260802-104713.png");
}

#[test]
fn history_is_recorded_when_saved_or_monitored() {
    let mut opts = MonitorOptions::default();
    assert!(history_enabled(&opts));
    opts.metrics.clear();
    assert!(!history_enabled(&opts));
    opts.history_out = Some("h.json".to_string());
    assert!(history_enabled(&opts));
}

#[test]
fn dataset_columns_are_id_diagnosis_and_thirty_features() {
    let names = dataset_column_names();
    assert_eq!(names.len(), 32);
    assert_eq!(names[0], "ID");
    assert_eq!(names[1], "Diagnosis");
    assert_eq!(names[2], "Radius_mean");
    assert_eq!(names[3], "Radius_se");
    assert_eq!(names[4], "Radius_extreme");
    assert_eq!(names[23], "Concave Points_mean");
    assert_eq!(names[25], "Concave Points_extreme");
    assert_eq!(names[31], "Fractal Dimension_extreme");
}

#[test]
fn selected_metrics_defaults_when_empty() {
    assert_eq!(
        selected_metrics(&[]),
        vec![MonitoredMetric::Loss, MonitoredMetric::Accuracy, MonitoredMetric::Precision]
    );
    assert_eq!(selected_metrics(&[MonitoredMetric::Precision]), vec![MonitoredMetric::Precision]);
    assert_eq!(metric_labels(MonitoredMetric::Accuracy).2, "training accuracy");
    assert!(!is_bounded_metric(MonitoredMetric::Loss));
    assert!(is_bounded_metric(MonitoredMetric::Precision));
}

#[test]
fn progress_logger_keeps_epoch_total() {
    assert_eq!(ProgressLogger::new(84).total_epochs, 84);
}
