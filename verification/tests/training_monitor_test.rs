use mlp::training::monitor::{
    parse_monitored_metrics, EarlyStoppingConfig, EarlyStoppingState, MonitorMode, MonitoredMetric,
};

#[test]
fn monitored_metric_parse_all_known_variants() {
    assert_eq!(MonitoredMetric::parse("loss"), Some(MonitoredMetric::Loss));
    assert_eq!(MonitoredMetric::parse("accuracy"), Some(MonitoredMetric::Accuracy));
    assert_eq!(MonitoredMetric::parse("acc"), Some(MonitoredMetric::Accuracy));
    assert_eq!(MonitoredMetric::parse("precision"), Some(MonitoredMetric::Precision));
}

#[test]
fn monitored_metric_parse_unknown_returns_none() {
    assert_eq!(MonitoredMetric::parse("unknown_metric"), None);
    assert_eq!(MonitoredMetric::parse(""), None);
}

#[test]
fn monitored_metric_parse_is_case_insensitive() {
    assert_eq!(MonitoredMetric::parse("LOSS"), Some(MonitoredMetric::Loss));
    assert_eq!(MonitoredMetric::parse("Accuracy"), Some(MonitoredMetric::Accuracy));
}

#[test]
fn monitored_metric_parse_strips_whitespace() {
    assert_eq!(MonitoredMetric::parse("  loss  "), Some(MonitoredMetric::Loss));
}

#[test]
fn monitored_metric_as_str_round_trips() {
    let variants = [
        MonitoredMetric::Loss,
        MonitoredMetric::Accuracy,
        MonitoredMetric::Precision,
    ];
    for v in variants {
        let s = v.as_str();
        assert!(MonitoredMetric::parse(s).is_some(), "as_str round-trip failed for {s}");
        assert_eq!(MonitoredMetric::parse(s), Some(v));
    }
}

#[test]
fn monitor_mode_parse_known_variants() {
    assert!(matches!(MonitorMode::parse("min"), Some(MonitorMode::Min)));
    assert!(matches!(MonitorMode::parse("max"), Some(MonitorMode::Max)));
    assert!(matches!(MonitorMode::parse("MIN"), Some(MonitorMode::Min)));
}

#[test]
fn monitor_mode_parse_unknown_returns_none() {
    assert!(MonitorMode::parse("median").is_none());
}

#[test]
fn metric_parse_trims_unicode_white_space_and_tabs() {
    assert_eq!(MonitoredMetric::parse("\t Precision\n"), Some(MonitoredMetric::Precision));
    assert_eq!(MonitoredMetric::parse("\u{3000}acc\u{a0}"), Some(MonitoredMetric::Accuracy));
    assert_eq!(MonitoredMetric::parse("lo ss"), None);
}

#[test]
fn parse_monitored_metrics_reads_list_in_order() {
    let parsed = parse_monitored_metrics("loss, ACC ,precision").unwrap();
    assert_eq!(
        parsed,
        vec![MonitoredMetric::Loss, MonitoredMetric::Accuracy, MonitoredMetric::Precision]
    );
}

#[test]
fn parse_monitored_metrics_reports_first_unknown_piece() {
    let err = parse_monitored_metrics("loss, f1 ,bogus").unwrap_err();
    assert_eq!(err, "unknown metric 'f1' in --monitor-metrics");
}

#[test]
fn parse_monitored_metrics_empty_piece_is_unknown() {
    assert_eq!(
        parse_monitored_metrics("loss,,acc").unwrap_err(),
        "unknown metric '' in --monitor-metrics"
    );
    assert_eq!(
        parse_monitored_metrics("").unwrap_err(),
        "unknown metric '' in --monitor-metrics"
    );
}

fn make_cfg(mode: MonitorMode, patience: usize) -> EarlyStoppingConfig {
    EarlyStoppingConfig {
        metric: MonitoredMetric::Loss,
        mode,
        patience,
        min_delta_bits: 0.0f64.to_bits(),
        start_epoch: 0,
        restore_best_weights: true,
    }
}

#[test]
fn early_stopping_config_default_values() {
    let cfg = EarlyStoppingConfig::default();
    assert_eq!(cfg.patience, 10);
    assert_eq!(cfg.metric, MonitoredMetric::Loss);
    assert_eq!(cfg.mode, MonitorMode::Min);
    assert_eq!(cfg.start_epoch, 0);
    assert_eq!(cfg.min_delta_bits, 0);
    assert!(cfg.restore_best_weights);
}

#[test]
fn early_stopping_state_does_not_stop_while_improving() {
    let mut st = EarlyStoppingState::new(make_cfg(MonitorMode::Min, 2));
    for epoch in 0..5 {
        assert!(st.on_epoch_end(epoch, Some(true)));
    }
    assert!(!st.stopped());
    assert_eq!(st.wait(), 0);
}

#[test]
fn early_stopping_state_stops_after_patience_epochs_without_improvement() {
    let mut st = EarlyStoppingState::new(make_cfg(MonitorMode::Min, 2));
    // The first value always becomes the best one.
    assert!(st.on_epoch_end(0, Some(false)));
    assert!(!st.on_epoch_end(1, Some(false)));
    assert!(!st.stopped());
    assert_eq!(st.stopped_epoch(), None);
    assert!(!st.on_epoch_end(2, Some(false)));
    assert!(st.stopped());
    assert_eq!(st.stopped_epoch(), Some(2));
}

#[test]
fn early_stopping_state_respects_start_epoch() {
    let mut cfg = make_cfg(MonitorMode::Min, 1);
    cfg.start_epoch = 5;
    let mut st = EarlyStoppingState::new(cfg);
    for epoch in 0..5 {
        assert!(!st.on_epoch_end(epoch, Some(false)));
    }
    assert!(!st.stopped());
    assert_eq!(st.wait(), 0);
}

#[test]
fn early_stopping_state_ignores_missing_values() {
    let mut st = EarlyStoppingState::new(make_cfg(MonitorMode::Min, 1));
    assert!(!st.on_epoch_end(0, None));
    assert!(!st.stopped());
    assert_eq!(st.stopped_epoch(), None);
}

#[test]
fn early_stopping_state_patience_zero_stops_at_first_observation() {
    let mut st = EarlyStoppingState::new(make_cfg(MonitorMode::Max, 0));
    assert!(st.on_epoch_end(3, Some(true)));
    assert!(st.stopped());
    assert_eq!(st.stopped_epoch(), Some(3));
}

#[test]
fn early_stopping_state_snapshot_decisions() {
    let mut st = EarlyStoppingState::new(make_cfg(MonitorMode::Min, 1));
    st.on_epoch_end(0, Some(true));
    assert!(st.take_snapshot(0, true, false));
    st.on_epoch_end(1, Some(false));
    assert!(!st.take_snapshot(1, true, true));
    assert!(st.stopped());
    assert_eq!(st.stopped_epoch(), Some(1));
}

#[test]
fn early_stopping_state_no_snapshot_without_restore() {
    let mut cfg = make_cfg(MonitorMode::Min, 5);
    cfg.restore_best_weights = false;
    let mut st = EarlyStoppingState::new(cfg);
    st.on_epoch_end(0, Some(true));
    assert!(!st.take_snapshot(0, true, false));
}

/// Feeds one epoch's monitored value to the state, comparing it with the best
/// value seen so far as the training loop does.
fn feed(state: &mut EarlyStoppingState, best: &mut Option<f64>, epoch: usize, value: Option<f64>) {
    let cfg = *state.config_ref();
    let min_delta = f64::from_bits(cfg.min_delta_bits);
    let beats_best = value.map(|v| match *best {
        Some(b) => match cfg.mode {
            MonitorMode::Min => v < b - min_delta,
            MonitorMode::Max => v > b + min_delta,
        },
        None => true,
    });
    if state.on_epoch_end(epoch, beats_best) {
        *best = value;
    }
}

#[test]
fn early_stopping_does_not_stop_when_loss_keeps_improving() {
    let mut st = EarlyStoppingState::new(make_cfg(MonitorMode::Min, 2));
    let mut best = None;
    for epoch in 0..5 {
        let l = 1.0 - epoch as f64 * 0.1;
        feed(&mut st, &mut best, epoch, Some(l));
    }
    assert!(!st.stopped());
}

#[test]
fn early_stopping_stops_after_patience_consecutive_epochs() {
    let mut st = EarlyStoppingState::new(make_cfg(MonitorMode::Min, 2));
    let mut best = None;
    feed(&mut st, &mut best, 0, Some(1.0));
    feed(&mut st, &mut best, 1, Some(1.0));
    assert!(!st.stopped());
    feed(&mut st, &mut best, 2, Some(1.0));
    assert!(st.stopped());
}

#[test]
fn early_stopping_respects_start_epoch() {
    let mut cfg = make_cfg(MonitorMode::Min, 1);
    cfg.start_epoch = 5;
    let mut st = EarlyStoppingState::new(cfg);
    let mut best = None;
    for epoch in 0..5 {
        feed(&mut st, &mut best, epoch, Some(2.0));
    }
    assert!(!st.stopped());
}

#[test]
fn early_stopping_respects_max_mode() {
    let mut st = EarlyStoppingState::new(make_cfg(MonitorMode::Max, 1));
    let mut best = None;
    feed(&mut st, &mut best, 0, Some(0.5));
    feed(&mut st, &mut best, 1, Some(0.6));
    feed(&mut st, &mut best, 2, Some(0.7));
    assert!(!st.stopped());
}

#[test]
fn early_stopping_records_stopped_epoch() {
    let mut st = EarlyStoppingState::new(make_cfg(MonitorMode::Min, 2));
    let mut best = None;
    feed(&mut st, &mut best, 0, Some(1.0));
    feed(&mut st, &mut best, 1, Some(1.0));
    assert_eq!(st.stopped_epoch(), None);
    feed(&mut st, &mut best, 2, Some(1.0));
    assert_eq!(st.stopped_epoch(), Some(2));
}

#[test]
fn early_stopping_restores_best_weights() {
    let mut st = EarlyStoppingState::new(make_cfg(MonitorMode::Min, 1));
    let mut best = None;
    let mut weights = vec![0.25, -0.5];
    let mut kept: Option<Vec<f64>> = None;

    feed(&mut st, &mut best, 0, Some(1.0));
    if st.take_snapshot(0, true, kept.is_some()) {
        kept = Some(weights.clone());
    }
    let best_weights = weights.clone();
    weights = weights.iter().map(|w| w + 1.0).collect();

    feed(&mut st, &mut best, 1, Some(2.0));
    if st.take_snapshot(1, true, kept.is_some()) {
        kept = Some(weights.clone());
    }
    assert!(st.stopped());
    assert_eq!(st.stopped_epoch(), Some(1));

    weights = weights.iter().map(|w| w + 100.0).collect();
    if st.config_ref().restore_best_weights {
        if let Some(k) = &kept {
            weights = k.clone();
        }
    }
    assert_eq!(weights, best_weights);
}

#[test]
fn early_stopping_does_not_restore_when_restore_best_weights_false() {
    let mut cfg = make_cfg(MonitorMode::Min, 5);
    cfg.restore_best_weights = false;
    let mut st = EarlyStoppingState::new(cfg);
    let mut best = None;
    let initial = vec![0.25, -0.5];
    let mut kept: Option<Vec<f64>> = None;

    feed(&mut st, &mut best, 0, Some(1.0));
    if st.take_snapshot(0, true, kept.is_some()) {
        kept = Some(initial.clone());
    }
    assert!(kept.is_none());
    assert!(!st.config_ref().restore_best_weights);
}

#[test]
fn early_stopping_ignores_epoch_end_with_no_logs() {
    let mut st = EarlyStoppingState::new(make_cfg(MonitorMode::Min, 1));
    let mut best = None;
    feed(&mut st, &mut best, 0, None);
    assert!(!st.stopped());
    assert_eq!(st.stopped_epoch(), None);
}

#[test]
fn early_stopping_returns_early_when_monitored_metric_absent_from_logs() {
    let mut cfg = make_cfg(MonitorMode::Min, 1);
    cfg.metric = MonitoredMetric::Accuracy;
    let mut st = EarlyStoppingState::new(cfg);
    let mut best = None;
    // Only the loss was logged: there is no accuracy value to monitor.
    feed(&mut st, &mut best, 0, None);
    assert!(!st.stopped());
    assert_eq!(st.stopped_epoch(), None);
}
