use vstd::prelude::*;
use vstd::string::*;

use crate::text::{normalize, normalized_eq, split_on, split_text, string_views, trim, trimmed};

verus! {

/// A metric that can be monitored during training.
#[derive(Clone, Copy, Debug, PartialEq, Eq, Structural)]
pub enum MonitoredMetric {
    Loss,
    Accuracy,
    Precision,
}

/// Direction in which a monitored metric improves.
#[derive(Clone, Copy, Debug, PartialEq, Eq, Structural)]
pub enum MonitorMode {
    Min,
    Max,
}

pub open spec fn spec_parse_metric(value: Seq<char>) -> Option<MonitoredMetric> {
    let n = normalize(value);
    if n == "loss"@ {
        Some(MonitoredMetric::Loss)
    } else if n == "accuracy"@ || n == "acc"@ {
        Some(MonitoredMetric::Accuracy)
    } else if n == "precision"@ {
        Some(MonitoredMetric::Precision)
    } else {
        None
    }
}

pub open spec fn spec_parse_mode(value: Seq<char>) -> Option<MonitorMode> {
    let n = normalize(value);
    if n == "min"@ {
        Some(MonitorMode::Min)
    } else if n == "max"@ {
        Some(MonitorMode::Max)
    } else {
        None
    }
}

/// The error reported for a piece of a metric list that names no metric.
pub open spec fn unknown_metric_message(part: Seq<char>) -> Seq<char> {
    "unknown metric '"@ + trim(part) + "' in --monitor-metrics"@
}

/// What `parse_monitored_metrics` returns for the comma-separated pieces
/// `parts`: every piece parsed in order, or the message for the first piece
/// that names no metric.
pub open spec fn metric_list_outcome(
    parts: Seq<Seq<char>>,
    r: Result<Seq<MonitoredMetric>, Seq<char>>,
) -> bool {
    match r {
        Ok(v) => v.len() == parts.len() && forall|j: int|
            0 <= j < parts.len() ==> spec_parse_metric(#[trigger] parts[j]) == Some(v[j]),
        Err(e) => exists|j: int|
            0 <= j < parts.len() && spec_parse_metric(#[trigger] parts[j]) is None && (forall|
                k: int,
            |
                0 <= k < j ==> spec_parse_metric(#[trigger] parts[k]) is Some)
                && e == unknown_metric_message(parts[j]),
    }
}

impl MonitoredMetric {
    pub open spec fn spec_as_str(self) -> Seq<char> {
        match self {
            MonitoredMetric::Loss => "loss"@,
            MonitoredMetric::Accuracy => "accuracy"@,
            MonitoredMetric::Precision => "precision"@,
        }
    }

    /// Reads a metric name, ignoring surrounding white space and ASCII case.
    pub fn parse(value: &str) -> (r: Option<Self>)
        ensures
            r == spec_parse_metric(value@),
    {
        if normalized_eq(value, "loss") {
            Some(MonitoredMetric::Loss)
        } else if normalized_eq(value, "accuracy") || normalized_eq(value, "acc") {
            Some(MonitoredMetric::Accuracy)
        } else if normalized_eq(value, "precision") {
            Some(MonitoredMetric::Precision)
        } else {
            None
        }
    }

    /// Canonical name of the metric.
    pub fn as_str(self) -> (s: &'static str)
        ensures
            s@ == self.spec_as_str(),
    {
        match self {
            MonitoredMetric::Loss => "loss",
            MonitoredMetric::Accuracy => "accuracy",
            MonitoredMetric::Precision => "precision",
        }
    }
}

impl MonitorMode {
    /// Reads `min` or `max`, ignoring surrounding white space and ASCII case.
    pub fn parse(value: &str) -> (r: Option<Self>)
        ensures
            r == spec_parse_mode(value@),
    {
        if normalized_eq(value, "min") {
            Some(MonitorMode::Min)
        } else if normalized_eq(value, "max") {
            Some(MonitorMode::Max)
        } else {
            None
        }
    }
}

/// Parses a comma-separated list of metric names.
pub fn parse_monitored_metrics(value: &str) -> (r: Result<Vec<MonitoredMetric>, String>)
    ensures
        metric_list_outcome(
            split_on(value@, ','),
            match r {
                Ok(v) => Ok(v@),
                Err(e) => Err(e@),
            },
        ),
{
    let parts = split_text(value, ',');
    let ghost views = string_views(parts@);
    let mut out: Vec<MonitoredMetric> = Vec::new();
    let mut i: usize = 0;
    while i < parts.len()
        invariant
            i <= parts@.len(),
            views == string_views(parts@),
            views == split_on(value@, ','),
            out@.len() == i,
            forall|j: int| 0 <= j < i ==> spec_parse_metric(#[trigger] views[j]) == Some(out@[j]),
        decreases parts@.len() - i,
    {
        assert(views[i as int] == parts@[i as int]@);
        match MonitoredMetric::parse(parts[i].as_str()) {
            Some(m) => {
                out.push(m);
            },
            None => {
                let mut msg = String::from_str("unknown metric '");
                let t = trimmed(parts[i].as_str());
                msg.append(t.as_str());
                msg.append("' in --monitor-metrics");
                proof {
                    assert(forall|k: int| 0 <= k < i ==> spec_parse_metric(#[trigger] views[k]) is Some);
                    assert(msg@ == unknown_metric_message(views[i as int]));
                }
                return Err(msg);
            },
        }
        i = i + 1;
    }
    Ok(out)
}

/// Every metric's canonical name reads back as that metric.
pub proof fn lemma_metric_name_round_trip(m: MonitoredMetric)
    ensures
        spec_parse_metric(m.spec_as_str()) == Some(m),
{
    reveal_strlit("loss");
    reveal_strlit("accuracy");
    reveal_strlit("acc");
    reveal_strlit("precision");
    crate::text::lemma_normalize_plain("loss"@);
    crate::text::lemma_normalize_plain("accuracy"@);
    crate::text::lemma_normalize_plain("precision"@);
    assert("accuracy"@ != "loss"@);
    assert("precision"@ != "loss"@);
    assert("precision"@ != "accuracy"@);
    assert("precision"@ != "acc"@);
}

/// Reading a metric or mode name gives the same answer for a text as for
/// its trimmed, lower-cased form.
pub proof fn lemma_parse_ignores_normalizing(value: Seq<char>)
    ensures
        spec_parse_metric(normalize(value)) == spec_parse_metric(value),
        spec_parse_mode(normalize(value)) == spec_parse_mode(value),
{
    crate::text::lemma_normalize_idempotent(value);
}

/// `min` and `max` read back as the two modes.
pub proof fn lemma_mode_names(mode: MonitorMode)
    ensures
        spec_parse_mode(if mode == MonitorMode::Min {
            "min"@
        } else {
            "max"@
        }) == Some(mode),
{
    reveal_strlit("min");
    reveal_strlit("max");
    crate::text::lemma_normalize_plain("min"@);
    crate::text::lemma_normalize_plain("max"@);
    assert("max"@ != "min"@);
}

/// Early-stopping settings. `min_delta_bits` is the IEEE-754 bit pattern of
/// the least change that counts as an improvement.
#[derive(Clone, Copy, Debug, PartialEq, Eq, Structural)]
pub struct EarlyStoppingConfig {
    pub metric: MonitoredMetric,
    pub mode: MonitorMode,
    pub patience: usize,
    pub min_delta_bits: u64,
    pub start_epoch: usize,
    pub restore_best_weights: bool,
}

impl Default for EarlyStoppingConfig {
    fn default() -> (r: Self)
        ensures
            r == (EarlyStoppingConfig {
                metric: MonitoredMetric::Loss,
                mode: MonitorMode::Min,
                patience: 10,
                min_delta_bits: 0,
                start_epoch: 0,
                restore_best_weights: true,
            }),
    {
        EarlyStoppingConfig {
            metric: MonitoredMetric::Loss,
            mode: MonitorMode::Min,
            patience: 10,
            min_delta_bits: 0,
            start_epoch: 0,
            restore_best_weights: true,
        }
    }
}

/// The counting side of early stopping: whether a best value was seen, how
/// many observed epochs passed since it last improved, and whether (and at
/// which epoch) training was told to stop. Comparing metric values is left
/// to the caller, who reports for each epoch whether the value beat the best.
#[derive(Clone, Copy, Debug, PartialEq, Eq, Structural)]
pub struct EarlyStoppingState {
    cfg: EarlyStoppingConfig,
    has_best: bool,
    improved_this_epoch: bool,
    wait: usize,
    stopped_epoch: Option<usize>,
    stop: bool,
}

impl EarlyStoppingState {
    pub closed spec fn config(&self) -> EarlyStoppingConfig {
        self.cfg
    }

    pub closed spec fn has_best(&self) -> bool {
        self.has_best
    }

    pub closed spec fn improved_this_epoch(&self) -> bool {
        self.improved_this_epoch
    }

    pub closed spec fn wait_count(&self) -> usize {
        self.wait
    }

    pub closed spec fn spec_stopped_epoch(&self) -> Option<usize> {
        self.stopped_epoch
    }

    pub closed spec fn spec_stopped(&self) -> bool {
        self.stop
    }

    /// Whether an epoch is counted: it is not before the start epoch and
    /// its metric value was available.
    pub open spec fn observed(&self, epoch: usize, beats_best: Option<bool>) -> bool {
        epoch >= self.config().start_epoch && beats_best is Some
    }

    /// Whether an observed epoch becomes the new best: the first value seen
    /// always does, a later one when it beat the best.
    pub open spec fn becomes_best(&self, beats_best: Option<bool>) -> bool {
        !self.has_best() || beats_best == Some(true)
    }

    /// The state after the end of `epoch`, where `beats_best` says whether the
    /// monitored value improved on the best one (`None`: no value).
    pub closed spec fn spec_step(self, epoch: usize, beats_best: Option<bool>) -> Self {
        if !self.observed(epoch, beats_best) {
            self
        } else {
            let improved = self.becomes_best(beats_best);
            let wait: usize = if improved {
                0
            } else {
                (self.wait + 1) as usize
            };
            let hit = wait >= self.cfg.patience;
            EarlyStoppingState {
                cfg: self.cfg,
                has_best: true,
                improved_this_epoch: improved,
                wait,
                stopped_epoch: if hit {
                    Some(epoch)
                } else {
                    self.stopped_epoch
                },
                stop: self.stop || hit,
            }
        }
    }

    /// The state after a run of epoch ends.
    pub open spec fn spec_run(self, events: Seq<(usize, Option<bool>)>) -> Self
        decreases events.len(),
    {
        if events.len() == 0 {
            self
        } else {
            self.spec_step(events[0].0, events[0].1).spec_run(events.drop_first())
        }
    }

    /// A fresh state for `cfg`: nothing seen, nothing stopped.
    pub fn new(cfg: EarlyStoppingConfig) -> (r: Self)
        ensures
            r.config() == cfg,
            !r.has_best(),
            !r.improved_this_epoch(),
            r.wait_count() == 0,
            r.spec_stopped_epoch() is None,
            !r.spec_stopped(),
    {
        EarlyStoppingState {
            cfg,
            has_best: false,
            improved_this_epoch: false,
            wait: 0,
            stopped_epoch: None,
            stop: false,
        }
    }

    pub fn config_ref(&self) -> (r: &EarlyStoppingConfig)
        ensures
            *r == self.config(),
    {
        &self.cfg
    }

    /// Whether training was told to stop.
    pub fn stopped(&self) -> (r: bool)
        ensures
            r == self.spec_stopped(),
    {
        self.stop
    }

    /// The epoch at which the patience last ran out, if it did.
    pub fn stopped_epoch(&self) -> (r: Option<usize>)
        ensures
            r == self.spec_stopped_epoch(),
    {
        self.stopped_epoch
    }

    /// Observed epochs since the best value last improved.
    pub fn wait(&self) -> (r: usize)
        ensures
            r == self.wait_count(),
    {
        self.wait
    }

    /// Records the end of `epoch`. `beats_best` is `None` when the monitored
    /// value is missing, otherwise whether it improved on the best value by
    /// more than the minimum delta. Returns whether the value became the new
    /// best, which happens for the first observed value and every improving
    /// one. An improvement resets the wait to 0, any other observed epoch adds
    /// one; once the wait reaches the patience, training is told to stop and
    /// the epoch is recorded.
    pub fn on_epoch_end(&mut self, epoch: usize, beats_best: Option<bool>) -> (became_best: bool)
        requires
            old(self).wait_count() < usize::MAX,
        ensures
            *final(self) == old(self).spec_step(epoch, beats_best),
            final(self).config() == old(self).config(),
            !old(self).observed(epoch, beats_best) ==> !became_best && *final(self) == *old(self),
            old(self).observed(epoch, beats_best) ==> {
                let improved = old(self).becomes_best(beats_best);
                let wait = if improved {
                    0
                } else {
                    old(self).wait_count() + 1
                };
                &&& became_best == improved
                &&& final(self).has_best()
                &&& final(self).improved_this_epoch() == improved
                &&& final(self).wait_count() == wait
                &&& final(self).spec_stopped() == (old(self).spec_stopped() || wait
                    >= old(self).config().patience)
                &&& final(self).spec_stopped_epoch() == if wait >= old(self).config().patience {
                    Some(epoch)
                } else {
                    old(self).spec_stopped_epoch()
                }
            },
    {
        if epoch < self.cfg.start_epoch {
            return false;
        }
        let beats = match beats_best {
            Some(b) => b,
            None => {
                return false;
            },
        };
        self.wait = self.wait + 1;
        let improved = !self.has_best || beats;
        if improved {
            self.has_best = true;
            self.improved_this_epoch = true;
            self.wait = 0;
        } else {
            self.improved_this_epoch = false;
        }
        if self.wait >= self.cfg.patience {
            self.stopped_epoch = Some(epoch);
            self.stop = true;
        }
        improved
    }

    /// Decides, at the end of `epoch`, whether the network's weights are to
    /// be kept as the best ones: when the epoch's value was a new best, or
    /// when a best value exists but no weights were kept yet. Nothing is kept
    /// before the start epoch, without logs, or when best weights are not
    /// restored.
    pub fn take_snapshot(&mut self, epoch: usize, has_logs: bool, has_snapshot: bool) -> (r: bool)
        ensures
            final(self).config() == old(self).config(),
            final(self).has_best() == old(self).has_best(),
            final(self).wait_count() == old(self).wait_count(),
            final(self).spec_stopped() == old(self).spec_stopped(),
            final(self).spec_stopped_epoch() == old(self).spec_stopped_epoch(),
            if epoch < old(self).config().start_epoch || !has_logs
                || !old(self).config().restore_best_weights {
                !r && final(self).improved_this_epoch() == old(self).improved_this_epoch()
            } else if old(self).improved_this_epoch() {
                r && !final(self).improved_this_epoch()
            } else {
                r == (!has_snapshot && old(self).has_best()) && !final(self).improved_this_epoch()
            },
    {
        if epoch < self.cfg.start_epoch || !has_logs {
            return false;
        }
        if !self.cfg.restore_best_weights {
            return false;
        }
        if self.improved_this_epoch {
            self.improved_this_epoch = false;
            true
        } else {
            !has_snapshot && self.has_best
        }
    }
}

/// Every epoch that is observed and does not improve adds one to the wait,
/// and training is told to stop exactly when the wait reaches the patience:
/// from a state that has a best value, `n` such epochs bring the wait from
/// `w` to `w + n`, and the stop flag is then set if it was set before or if
/// `w + n` reached the patience.
pub proof fn lemma_patience_counts_misses(
    s: EarlyStoppingState,
    events: Seq<(usize, Option<bool>)>,
)
    requires
        s.has_best(),
        s.wait_count() + events.len() <= usize::MAX,
        forall|i: int|
            0 <= i < events.len() ==> (#[trigger] events[i]).0 >= s.config().start_epoch
                && events[i].1 == Some(false),
    ensures
        s.spec_run(events).wait_count() == s.wait_count() + events.len(),
        s.spec_run(events).config() == s.config(),
        s.spec_run(events).has_best(),
        s.spec_run(events).spec_stopped() == (s.spec_stopped() || (events.len() > 0
            && s.wait_count() + events.len() >= s.config().patience)),
    decreases events.len(),
{
    if events.len() > 0 {
        let t = s.spec_step(events[0].0, events[0].1);
        assert(t.wait_count() == s.wait_count() + 1);
        let rest = events.drop_first();
        assert forall|i: int| 0 <= i < rest.len() implies (#[trigger] rest[i]).0
            >= t.config().start_epoch && rest[i].1 == Some(false) by {
            assert(rest[i] == events[i + 1]);
        }
        lemma_patience_counts_misses(t, rest);
    }
}

/// An observed improving epoch resets the wait to 0 and keeps the stop flag as
/// it was unless the patience is 0.
pub proof fn lemma_improvement_resets_wait(s: EarlyStoppingState, epoch: usize)
    requires
        epoch >= s.config().start_epoch,
    ensures
        s.spec_step(epoch, Some(true)).wait_count() == 0,
        s.spec_step(epoch, Some(true)).has_best(),
        s.spec_step(epoch, Some(true)).spec_stopped() == (s.spec_stopped() || s.config().patience
            == 0),
{
}

/// Once training is told to stop it stays told, whatever epochs follow.
pub proof fn lemma_stop_is_permanent(s: EarlyStoppingState, events: Seq<(usize, Option<bool>)>)
    requires
        s.spec_stopped(),
    ensures
        s.spec_run(events).spec_stopped(),
    decreases events.len(),
{
    if events.len() > 0 {
        lemma_stop_is_permanent(s.spec_step(events[0].0, events[0].1), events.drop_first());
    }
}

} // verus!
