use vstd::prelude::*;
use vstd::string::*;

use super::types::{CliArgs, MonitorOptions, NetOverrides, Subcommand, default_metrics};
use crate::float_bits::{is_positive_finite, positive_finite};
use crate::network::config::NetworkConfig;
use crate::text::split_on;
use crate::training::monitor::{
    MonitorMode,
    MonitoredMetric,
    metric_list_outcome,
    parse_monitored_metrics,
    spec_parse_metric,
    spec_parse_mode,
};

verus! {

/// The command line as parsed, before defaults and checks. The `_bits` fields
/// hold IEEE-754 bit patterns.
pub struct RawArgs {
    pub dataset_path: Option<String>,
    pub config_path: Option<String>,
    pub model_out: Option<String>,
    pub model_in: Option<String>,
    pub split_ratio_bits: u64,
    pub train_out: Option<String>,
    pub val_out: Option<String>,
    pub monitor_metrics: Option<String>,
    pub early_stop_metric: Option<MonitoredMetric>,
    pub early_stop_mode: Option<MonitorMode>,
    pub early_stop_patience: Option<usize>,
    pub early_stop_min_delta_bits: Option<u64>,
    pub early_stop_start_epoch: Option<usize>,
    pub early_stopping: bool,
    pub no_early_stopping: bool,
    pub monitor_history_out: Option<String>,
    pub net_learning_rate_bits: Option<u64>,
    pub net_epochs: Option<usize>,
    pub net_batch_size: Option<usize>,
    pub command: Subcommand,
}

/// A path that `train` needs and that has no default there.
#[derive(Clone, Copy, Debug, PartialEq, Eq, Structural)]
pub enum TrainPath {
    Dataset,
    Config,
}

/// Why the command line is refused.
pub enum CliError {
    MissingTrainPath(TrainPath),
    InvalidMonitorMetrics(String),
}

/// Why an override is refused.
#[derive(Clone, Copy, Debug, PartialEq, Eq, Structural)]
pub enum OverrideError {
    LearningRate,
    Epochs,
    BatchSize,
}

pub open spec fn opt_view(o: Option<String>) -> Option<Seq<char>> {
    match o {
        Some(s) => Some(s@),
        None => None,
    }
}

pub open spec fn spec_train_path_flag(p: TrainPath) -> Seq<char> {
    match p {
        TrainPath::Dataset => "--dataset"@,
        TrainPath::Config => "--config"@,
    }
}

pub open spec fn spec_train_path_label(p: TrainPath) -> Seq<char> {
    match p {
        TrainPath::Dataset => "dataset"@,
        TrainPath::Config => "config"@,
    }
}

pub open spec fn spec_default_dataset_path(manifest_dir: Seq<char>) -> Seq<char> {
    manifest_dir + "/data/data.csv"@
}

pub open spec fn spec_default_config_path(manifest_dir: Seq<char>) -> Seq<char> {
    manifest_dir + "/models/mandatory_sgd.yaml"@
}

/// A path for `subcommand`: `train` needs it given, the other commands fall
/// back to `default`.
pub open spec fn spec_resolve_path(
    subcommand: Subcommand,
    value: Option<Seq<char>>,
    default: Seq<char>,
    which: TrainPath,
) -> Result<Seq<char>, TrainPath> {
    match subcommand {
        Subcommand::Train => match value {
            Some(v) => Ok(v),
            None => Err(which),
        },
        _ => match value {
            Some(v) => Ok(v),
            None => Ok(default),
        },
    }
}

pub open spec fn spec_override_message(e: OverrideError) -> Seq<char> {
    match e {
        OverrideError::LearningRate => "--net-learning-rate must be a positive finite float"@,
        OverrideError::Epochs => "--net-epochs must be greater than 0"@,
        OverrideError::BatchSize => "--net-batch-size must be greater than 0"@,
    }
}

impl TrainPath {
    pub fn flag(self) -> (s: &'static str)
        ensures
            s@ == spec_train_path_flag(self),
    {
        match self {
            TrainPath::Dataset => "--dataset",
            TrainPath::Config => "--config",
        }
    }

    pub fn label(self) -> (s: &'static str)
        ensures
            s@ == spec_train_path_label(self),
    {
        match self {
            TrainPath::Dataset => "dataset",
            TrainPath::Config => "config",
        }
    }
}

impl CliError {
    /// The message for the error; `usage` is the help text, appended to a
    /// missing-path message.
    pub fn message(&self, usage: &str) -> (s: String)
        ensures
            s@ == match self {
                CliError::MissingTrainPath(p) => "train requires "@ + spec_train_path_flag(*p)
                    + " <PATH>: no default "@ + spec_train_path_label(*p)
                    + " is used for training\n"@ + usage@,
                CliError::InvalidMonitorMetrics(m) => m@,
            },
    {
        match self {
            CliError::MissingTrainPath(p) => {
                let mut s = String::from_str("train requires ");
                s.append(p.flag());
                s.append(" <PATH>: no default ");
                s.append(p.label());
                s.append(" is used for training\n");
                s.append(usage);
                s
            },
            CliError::InvalidMonitorMetrics(m) => m.clone(),
        }
    }
}

impl OverrideError {
    pub fn message(&self) -> (s: String)
        ensures
            s@ == spec_override_message(*self),
    {
        match self {
            OverrideError::LearningRate => String::from_str(
                "--net-learning-rate must be a positive finite float",
            ),
            OverrideError::Epochs => String::from_str("--net-epochs must be greater than 0"),
            OverrideError::BatchSize => String::from_str("--net-batch-size must be greater than 0"),
        }
    }
}

/// Reads the value of `--early-stop-metric`.
pub fn parse_metric(value: &str) -> (r: Result<MonitoredMetric, String>)
    ensures
        match r {
            Ok(m) => spec_parse_metric(value@) == Some(m),
            Err(e) => spec_parse_metric(value@) is None && e@ == "Invalid value: "@ + value@,
        },
{
    match MonitoredMetric::parse(value) {
        Some(m) => Ok(m),
        None => {
            let mut e = String::from_str("Invalid value: ");
            e.append(value);
            Err(e)
        },
    }
}

/// Reads the value of `--early-stop-mode`.
pub fn parse_monitor_mode(value: &str) -> (r: Result<MonitorMode, String>)
    ensures
        match r {
            Ok(m) => spec_parse_mode(value@) == Some(m),
            Err(e) => spec_parse_mode(value@) is None && e@ == "Invalid value: "@ + value@,
        },
{
    match MonitorMode::parse(value) {
        Some(m) => Ok(m),
        None => {
            let mut e = String::from_str("Invalid value: ");
            e.append(value);
            Err(e)
        },
    }
}

/// Dataset used when none is named: `data/data.csv` under `manifest_dir`.
pub fn default_dataset_path(manifest_dir: &str) -> (s: String)
    ensures
        s@ == spec_default_dataset_path(manifest_dir@),
{
    let mut s = String::from_str(manifest_dir);
    s.append("/data/data.csv");
    s
}

/// Configuration used when none is named: `models/mandatory_sgd.yaml` under
/// `manifest_dir`.
pub fn default_config_path(manifest_dir: &str) -> (s: String)
    ensures
        s@ == spec_default_config_path(manifest_dir@),
{
    let mut s = String::from_str(manifest_dir);
    s.append("/models/mandatory_sgd.yaml");
    s
}

fn require_train_path(value: Option<String>, which: TrainPath) -> (r: Result<String, CliError>)
    ensures
        match r {
            Ok(s) => value == Some(s),
            Err(e) => value is None && e == CliError::MissingTrainPath(which),
        },
{
    match value {
        Some(v) => Ok(v),
        None => Err(CliError::MissingTrainPath(which)),
    }
}

fn resolve_path(
    subcommand: Subcommand,
    value: Option<String>,
    default: String,
    which: TrainPath,
) -> (r: Result<String, CliError>)
    ensures
        match (r, spec_resolve_path(subcommand, opt_view(value), default@, which)) {
            (Ok(s), Ok(v)) => s@ == v,
            (Err(e), Err(p)) => e == CliError::MissingTrainPath(p),
            _ => false,
        },
{
    match subcommand {
        Subcommand::Train => require_train_path(value, which),
        _ => match value {
            Some(v) => Ok(v),
            None => Ok(default),
        },
    }
}

/// The dataset path for `subcommand`.
pub fn resolve_dataset_path(subcommand: Subcommand, value: Option<String>, manifest_dir: &str) -> (r:
    Result<String, CliError>)
    ensures
        match (
            r,
            spec_resolve_path(
                subcommand,
                opt_view(value),
                spec_default_dataset_path(manifest_dir@),
                TrainPath::Dataset,
            ),
        ) {
            (Ok(s), Ok(v)) => s@ == v,
            (Err(e), Err(p)) => e == CliError::MissingTrainPath(p),
            _ => false,
        },
{
    resolve_path(subcommand, value, default_dataset_path(manifest_dir), TrainPath::Dataset)
}

/// The configuration path for `subcommand`.
pub fn resolve_config_path(subcommand: Subcommand, value: Option<String>, manifest_dir: &str) -> (r:
    Result<String, CliError>)
    ensures
        match (
            r,
            spec_resolve_path(
                subcommand,
                opt_view(value),
                spec_default_config_path(manifest_dir@),
                TrainPath::Config,
            ),
        ) {
            (Ok(s), Ok(v)) => s@ == v,
            (Err(e), Err(p)) => e == CliError::MissingTrainPath(p),
            _ => false,
        },
{
    resolve_path(subcommand, value, default_config_path(manifest_dir), TrainPath::Config)
}

/// The monitored metrics: the list named on the command line, or the default
/// list.
pub open spec fn metrics_outcome(raw_metrics: Option<Seq<char>>, r: Result<Seq<MonitoredMetric>, Seq<char>>) -> bool {
    match raw_metrics {
        Some(v) => metric_list_outcome(split_on(v, ','), r),
        None => r == Ok::<Seq<MonitoredMetric>, Seq<char>>(default_metrics()),
    }
}

/// Every piece of the named metric list (if any) names a metric.
pub open spec fn metrics_all_known(raw_metrics: Option<Seq<char>>) -> bool {
    match raw_metrics {
        Some(v) => forall|j: int|
            0 <= j < split_on(v, ',').len() ==> (#[trigger] spec_parse_metric(split_on(v, ',')[j])) is Some,
        None => true,
    }
}

fn monitor_metrics_from_raw(raw: &RawArgs) -> (r: Result<Vec<MonitoredMetric>, CliError>)
    ensures
        metrics_outcome(
            opt_view(raw.monitor_metrics),
            match r {
                Ok(v) => Ok(v@),
                Err(CliError::InvalidMonitorMetrics(m)) => Err(m@),
                Err(CliError::MissingTrainPath(_)) => Err(Seq::empty()),
            },
        ),
        r matches Err(e) ==> e is InvalidMonitorMetrics,
{
    match &raw.monitor_metrics {
        Some(value) => match parse_monitored_metrics(value.as_str()) {
            Ok(v) => Ok(v),
            Err(m) => Err(CliError::InvalidMonitorMetrics(m)),
        },
        None => {
            let defaults = MonitorOptions::default();
            Ok(defaults.metrics)
        },
    }
}

/// The monitoring settings named in `raw`, each falling back to its default.
pub open spec fn monitor_options_match(raw: &RawArgs, o: &MonitorOptions) -> bool {
    &&& o.early_stopping == (raw.early_stopping && !raw.no_early_stopping)
    &&& o.early_stop_metric == (match raw.early_stop_metric {
        Some(m) => m,
        None => MonitoredMetric::Loss,
    })
    &&& o.early_stop_mode == (match raw.early_stop_mode {
        Some(m) => m,
        None => MonitorMode::Min,
    })
    &&& o.early_stop_patience == (match raw.early_stop_patience {
        Some(p) => p,
        None => 60,
    })
    &&& o.early_stop_min_delta_bits == (match raw.early_stop_min_delta_bits {
        Some(d) => d,
        None => 0,
    })
    &&& o.early_stop_start_epoch == (match raw.early_stop_start_epoch {
        Some(s) => s,
        None => 0,
    })
    &&& opt_view(o.history_out) == opt_view(raw.monitor_history_out)
    &&& metrics_outcome(opt_view(raw.monitor_metrics), Ok(o.metrics@))
}

fn monitor_options_from_raw(raw: &RawArgs) -> (r: Result<MonitorOptions, CliError>)
    ensures
        match r {
            Ok(o) => monitor_options_match(raw, &o),
            Err(CliError::InvalidMonitorMetrics(m)) => metrics_outcome(
                opt_view(raw.monitor_metrics),
                Err(m@),
            ),
            Err(CliError::MissingTrainPath(_)) => false,
        },
{
    let defaults = MonitorOptions::default();
    let metrics = match monitor_metrics_from_raw(raw) {
        Ok(m) => m,
        Err(e) => {
            return Err(e);
        },
    };
    let history_out = match &raw.monitor_history_out {
        Some(h) => Some(h.clone()),
        None => None,
    };
    Ok(
        MonitorOptions {
            early_stopping: raw.early_stopping && !raw.no_early_stopping,
            early_stop_metric: match raw.early_stop_metric {
                Some(m) => m,
                None => defaults.early_stop_metric,
            },
            early_stop_mode: match raw.early_stop_mode {
                Some(m) => m,
                None => defaults.early_stop_mode,
            },
            early_stop_patience: match raw.early_stop_patience {
                Some(p) => p,
                None => defaults.early_stop_patience,
            },
            early_stop_min_delta_bits: match raw.early_stop_min_delta_bits {
                Some(d) => d,
                None => defaults.early_stop_min_delta_bits,
            },
            early_stop_start_epoch: match raw.early_stop_start_epoch {
                Some(s) => s,
                None => defaults.early_stop_start_epoch,
            },
            history_out,
            metrics,
        },
    )
}

fn net_overrides_from_raw(raw: &RawArgs) -> (r: NetOverrides)
    ensures
        r.learning_rate_bits == raw.net_learning_rate_bits,
        r.epochs == raw.net_epochs,
        r.batch_size == raw.net_batch_size,
{
    NetOverrides {
        learning_rate_bits: raw.net_learning_rate_bits,
        epochs: raw.net_epochs,
        batch_size: raw.net_batch_size,
    }
}

/// What `resolve_args` answers for `raw`: the first error in the order
/// monitored metrics, dataset path, configuration path; otherwise every
/// setting taken from `raw` or its default.
pub open spec fn resolve_outcome(raw: &RawArgs, manifest_dir: Seq<char>, r: &Result<CliArgs, CliError>) -> bool {
    let dataset = spec_resolve_path(
        raw.command,
        opt_view(raw.dataset_path),
        spec_default_dataset_path(manifest_dir),
        TrainPath::Dataset,
    );
    let config = spec_resolve_path(
        raw.command,
        opt_view(raw.config_path),
        spec_default_config_path(manifest_dir),
        TrainPath::Config,
    );
    match r {
        Ok(a) => {
            &&& a.subcommand == raw.command
            &&& monitor_options_match(raw, &a.monitor_options)
            &&& a.net_overrides.learning_rate_bits == raw.net_learning_rate_bits
            &&& a.net_overrides.epochs == raw.net_epochs
            &&& a.net_overrides.batch_size == raw.net_batch_size
            &&& dataset == Ok::<Seq<char>, TrainPath>(a.dataset_path@)
            &&& config == Ok::<Seq<char>, TrainPath>(a.config_path@)
            &&& opt_view(a.model_out) == opt_view(raw.model_out)
            &&& opt_view(a.model_in) == opt_view(raw.model_in)
            &&& a.split_ratio_bits == raw.split_ratio_bits
            &&& opt_view(a.train_out) == opt_view(raw.train_out)
            &&& opt_view(a.val_out) == opt_view(raw.val_out)
        },
        Err(CliError::InvalidMonitorMetrics(m)) => metrics_outcome(
            opt_view(raw.monitor_metrics),
            Err(m@),
        ),
        Err(CliError::MissingTrainPath(p)) => {
            &&& metrics_all_known(opt_view(raw.monitor_metrics))
            &&& (dataset == Err::<Seq<char>, TrainPath>(*p) || (dataset is Ok && config
                == Err::<Seq<char>, TrainPath>(*p)))
        },
    }
}

/// A monitoring option given on the command line is used as given, and one
/// left out takes the value of the default options: whatever `resolve_args`
/// accepts, each early-stopping setting is the one named in `raw` or, where
/// none is named, the one in `MonitorOptions::default()` (the loss, minimised,
/// patience 60, from epoch 0); early stopping is on only when asked for and
/// not also turned off.
pub proof fn lemma_given_options_win(raw: &RawArgs, manifest_dir: Seq<char>, a: CliArgs, defaults: MonitorOptions)
    requires
        resolve_outcome(raw, manifest_dir, &Ok(a)),
        defaults.is_default(),
    ensures
        a.monitor_options.early_stopping <==> (raw.early_stopping && !raw.no_early_stopping),
        raw.early_stop_metric matches Some(m) ==> a.monitor_options.early_stop_metric == m,
        raw.early_stop_metric is None ==> a.monitor_options.early_stop_metric == defaults.early_stop_metric,
        raw.early_stop_mode matches Some(m) ==> a.monitor_options.early_stop_mode == m,
        raw.early_stop_mode is None ==> a.monitor_options.early_stop_mode == defaults.early_stop_mode,
        raw.early_stop_patience matches Some(p) ==> a.monitor_options.early_stop_patience == p,
        raw.early_stop_patience is None ==> a.monitor_options.early_stop_patience
            == defaults.early_stop_patience,
        raw.early_stop_min_delta_bits matches Some(d) ==> a.monitor_options.early_stop_min_delta_bits
            == d,
        raw.early_stop_min_delta_bits is None ==> a.monitor_options.early_stop_min_delta_bits
            == defaults.early_stop_min_delta_bits,
        raw.early_stop_start_epoch matches Some(e) ==> a.monitor_options.early_stop_start_epoch == e,
        raw.early_stop_start_epoch is None ==> a.monitor_options.early_stop_start_epoch
            == defaults.early_stop_start_epoch,
        raw.monitor_history_out matches Some(h) ==> a.monitor_options.history_out matches Some(o)
            && o@ == h@,
        raw.monitor_history_out is None ==> a.monitor_options.history_out is None,
        raw.monitor_metrics is None ==> a.monitor_options.metrics@ == defaults.metrics@,
        raw.early_stop_metric is None ==> a.monitor_options.early_stop_metric == MonitoredMetric::Loss,
        raw.early_stop_mode is None ==> a.monitor_options.early_stop_mode == MonitorMode::Min,
        raw.early_stop_patience is None ==> a.monitor_options.early_stop_patience == 60,
        raw.early_stop_start_epoch is None ==> a.monitor_options.early_stop_start_epoch == 0,
{
}

/// Applies defaults and checks to a parsed command line.
pub fn resolve_args(raw: RawArgs, manifest_dir: &str) -> (r: Result<CliArgs, CliError>)
    ensures
        resolve_outcome(&raw, manifest_dir@, &r),
{
    let subcommand = raw.command;
    let monitor_options = match monitor_options_from_raw(&raw) {
        Ok(o) => o,
        Err(e) => {
            return Err(e);
        },
    };
    let net_overrides = net_overrides_from_raw(&raw);
    let ghost metrics = monitor_options.metrics@;
    let dataset_path = match resolve_dataset_path(subcommand, raw.dataset_path, manifest_dir) {
        Ok(p) => p,
        Err(e) => {
            assert(metrics_outcome(opt_view(raw.monitor_metrics), Ok(metrics)));
            assert(metrics_all_known(opt_view(raw.monitor_metrics)));
            return Err(e);
        },
    };
    let config_path = match resolve_config_path(subcommand, raw.config_path, manifest_dir) {
        Ok(p) => p,
        Err(e) => {
            assert(metrics_outcome(opt_view(raw.monitor_metrics), Ok(metrics)));
            assert(metrics_all_known(opt_view(raw.monitor_metrics)));
            return Err(e);
        },
    };
    Ok(
        CliArgs {
            subcommand,
            dataset_path,
            config_path,
            monitor_options,
            net_overrides,
            model_out: raw.model_out,
            model_in: raw.model_in,
            split_ratio_bits: raw.split_ratio_bits,
            train_out: raw.train_out,
            val_out: raw.val_out,
        },
    )
}

/// Replaces the learning rate, epochs and batch size of `config` by the
/// overrides given, checking each in that order; the first refused value
/// ends the call, with the earlier ones already applied.
pub fn apply_net_overrides(config: &mut NetworkConfig, overrides: &NetOverrides) -> (r: Result<
    (),
    OverrideError,
>)
    ensures
        final(config).input_layers@ == old(config).input_layers@,
        final(config).hidden_layers@ == old(config).hidden_layers@,
        final(config).output_layers@ == old(config).output_layers@,
        final(config).optimizer == old(config).optimizer,
        final(config).loss == old(config).loss,
        ({
            let lr_bad = overrides.learning_rate_bits matches Some(b) && !is_positive_finite(b);
            let ep_bad = overrides.epochs == Some(0usize);
            let bs_bad = overrides.batch_size == Some(0usize);
            let lr = match overrides.learning_rate_bits {
                Some(b) => b,
                None => old(config).learning_rate_bits,
            };
            let ep = match overrides.epochs {
                Some(e) => e,
                None => old(config).epochs,
            };
            let bs = match overrides.batch_size {
                Some(b) => b,
                None => old(config).batch_size,
            };
            if lr_bad {
                &&& r == Err::<(), OverrideError>(OverrideError::LearningRate)
                &&& final(config).learning_rate_bits == old(config).learning_rate_bits
                &&& final(config).epochs == old(config).epochs
                &&& final(config).batch_size == old(config).batch_size
            } else if ep_bad {
                &&& r == Err::<(), OverrideError>(OverrideError::Epochs)
                &&& final(config).learning_rate_bits == lr
                &&& final(config).epochs == old(config).epochs
                &&& final(config).batch_size == old(config).batch_size
            } else if bs_bad {
                &&& r == Err::<(), OverrideError>(OverrideError::BatchSize)
                &&& final(config).learning_rate_bits == lr
                &&& final(config).epochs == ep
                &&& final(config).batch_size == old(config).batch_size
            } else {
                &&& r == Ok::<(), OverrideError>(())
                &&& final(config).learning_rate_bits == lr
                &&& final(config).epochs == ep
                &&& final(config).batch_size == bs
            }
        }),
{
    if let Some(learning_rate_bits) = overrides.learning_rate_bits {
        if !positive_finite(learning_rate_bits) {
            return Err(OverrideError::LearningRate);
        }
        config.learning_rate_bits = learning_rate_bits;
    }
    if let Some(epochs) = overrides.epochs {
        if epochs == 0 {
            return Err(OverrideError::Epochs);
        }
        config.epochs = epochs;
    }
    if let Some(batch_size) = overrides.batch_size {
        if batch_size == 0 {
            return Err(OverrideError::BatchSize);
        }
        config.batch_size = batch_size;
    }
    Ok(())
}

} // verus!
