use vstd::prelude::*;

use crate::training::monitor::{MonitorMode, MonitoredMetric};

verus! {

/// The command the program runs.
#[derive(Clone, Copy, Debug, PartialEq, Eq, Structural)]
pub enum Subcommand {
    Split,
    Train,
    Predict,
}

/// Resolved command line. `split_ratio_bits` is the IEEE-754 bit pattern of
/// the split ratio.
pub struct CliArgs {
    pub subcommand: Subcommand,
    pub dataset_path: String,
    pub config_path: String,
    pub monitor_options: MonitorOptions,
    pub net_overrides: NetOverrides,
    pub model_out: Option<String>,
    pub model_in: Option<String>,
    pub split_ratio_bits: u64,
    pub train_out: Option<String>,
    pub val_out: Option<String>,
}

/// Monitoring and early-stopping settings. `early_stop_min_delta_bits` is the
/// IEEE-754 bit pattern of the minimum improvement.
pub struct MonitorOptions {
    pub early_stopping: bool,
    pub early_stop_metric: MonitoredMetric,
    pub early_stop_mode: MonitorMode,
    pub early_stop_patience: usize,
    pub early_stop_min_delta_bits: u64,
    pub early_stop_start_epoch: usize,
    pub history_out: Option<String>,
    pub metrics: Vec<MonitoredMetric>,
}

/// The metrics monitored when none are named.
pub open spec fn default_metrics() -> Seq<MonitoredMetric> {
    seq![MonitoredMetric::Loss, MonitoredMetric::Accuracy, MonitoredMetric::Precision]
}

impl MonitorOptions {
    /// The settings used when the command line names none: early stopping
    /// off, on the loss, minimised, patience 60, no minimum delta (0.0), from
    /// epoch 0, no history file, monitoring loss, accuracy and precision.
    pub open spec fn is_default(&self) -> bool {
        &&& !self.early_stopping
        &&& self.early_stop_metric == MonitoredMetric::Loss
        &&& self.early_stop_mode == MonitorMode::Min
        &&& self.early_stop_patience == 60
        &&& self.early_stop_min_delta_bits == 0
        &&& self.early_stop_start_epoch == 0
        &&& self.history_out is None
        &&& self.metrics@ == default_metrics()
    }
}

impl Default for MonitorOptions {
    fn default() -> (r: Self)
        ensures
            r.is_default(),
    {
        let mut metrics: Vec<MonitoredMetric> = Vec::new();
        metrics.push(MonitoredMetric::Loss);
        metrics.push(MonitoredMetric::Accuracy);
        metrics.push(MonitoredMetric::Precision);
        assert(metrics@ =~= default_metrics());
        MonitorOptions {
            early_stopping: false,
            early_stop_metric: MonitoredMetric::Loss,
            early_stop_mode: MonitorMode::Min,
            early_stop_patience: 60,
            early_stop_min_delta_bits: 0,
            early_stop_start_epoch: 0,
            history_out: None,
            metrics,
        }
    }
}

/// Values from the command line that replace those of the configuration
/// file. `learning_rate_bits` is the IEEE-754 bit pattern of the rate.
#[derive(Clone, Copy, Debug, PartialEq, Eq, Structural)]
pub struct NetOverrides {
    pub learning_rate_bits: Option<u64>,
    pub epochs: Option<usize>,
    pub batch_size: Option<usize>,
}

impl Default for NetOverrides {
    fn default() -> (r: Self)
        ensures
            r.learning_rate_bits is None,
            r.epochs is None,
            r.batch_size is None,
    {
        NetOverrides { learning_rate_bits: None, epochs: None, batch_size: None }
    }
}

} // verus!
