use vstd::prelude::*;
use vstd::string::*;

use crate::app::types::default_metrics;
use crate::training::monitor::MonitoredMetric;

verus! {

/// The metrics drawn: the ones asked for, or loss, accuracy and precision when
/// none are.
pub fn selected_metrics(metrics: &[MonitoredMetric]) -> (r: Vec<MonitoredMetric>)
    ensures
        r@ == if metrics@.len() == 0 {
            default_metrics()
        } else {
            metrics@
        },
{
    let mut out: Vec<MonitoredMetric> = Vec::new();
    if metrics.len() == 0 {
        out.push(MonitoredMetric::Loss);
        out.push(MonitoredMetric::Accuracy);
        out.push(MonitoredMetric::Precision);
        assert(out@ =~= default_metrics());
        return out;
    }
    let mut i: usize = 0;
    while i < metrics.len()
        invariant
            i <= metrics@.len(),
            out@ == metrics@.subrange(0, i as int),
        decreases metrics@.len() - i,
    {
        out.push(metrics[i]);
        assert(out@ =~= metrics@.subrange(0, i + 1));
        i = i + 1;
    }
    assert(out@ =~= metrics@);
    out
}

/// Panel caption, axis name and the two series labels of a metric.
pub open spec fn spec_metric_meta(metric: MonitoredMetric) -> (Seq<char>, Seq<char>, Seq<char>, Seq<char>) {
    match metric {
        MonitoredMetric::Loss => ("Loss"@, "Loss"@, "training loss"@, "validation loss"@),
        MonitoredMetric::Accuracy => ("Accuracy"@, "Accuracy"@, "training accuracy"@, "validation accuracy"@),
        MonitoredMetric::Precision => ("Precision"@, "Precision"@, "training precision"@, "validation precision"@),
    }
}

/// The two series of a metric's panel are labelled `training <metric>` and
/// `validation <metric>` after the metric's name, the panel is captioned with
/// that name capitalised, and the axis is named as the panel.
pub proof fn lemma_series_labels(metric: MonitoredMetric)
    ensures
        spec_metric_meta(metric).2 == "training "@ + metric.spec_as_str(),
        spec_metric_meta(metric).3 == "validation "@ + metric.spec_as_str(),
        spec_metric_meta(metric).1 == spec_metric_meta(metric).0,
        crate::text::lower(spec_metric_meta(metric).0) == metric.spec_as_str(),
        spec_metric_meta(metric).0.len() > 0 && 'A' <= spec_metric_meta(metric).0[0] <= 'Z',
{
    reveal_strlit("training ");
    reveal_strlit("validation ");
    reveal_strlit("loss");
    reveal_strlit("accuracy");
    reveal_strlit("precision");
    reveal_strlit("training loss");
    reveal_strlit("validation loss");
    reveal_strlit("training accuracy");
    reveal_strlit("validation accuracy");
    reveal_strlit("training precision");
    reveal_strlit("validation precision");
    reveal_strlit("Loss");
    reveal_strlit("Accuracy");
    reveal_strlit("Precision");
    let caption = spec_metric_meta(metric).0;
    assert(crate::text::lower(caption) =~= metric.spec_as_str());
    match metric {
        MonitoredMetric::Loss => {
            assert("training loss"@ =~= "training "@ + "loss"@);
            assert("validation loss"@ =~= "validation "@ + "loss"@);
        },
        MonitoredMetric::Accuracy => {
            assert("training accuracy"@ =~= "training "@ + "accuracy"@);
            assert("validation accuracy"@ =~= "validation "@ + "accuracy"@);
        },
        MonitoredMetric::Precision => {
            assert("training precision"@ =~= "training "@ + "precision"@);
            assert("validation precision"@ =~= "validation "@ + "precision"@);
        },
    }
}

/// Panel caption, axis name and the two series labels of a metric.
pub fn metric_labels(metric: MonitoredMetric) -> (r: (&'static str, &'static str, &'static str, &'static str))
    ensures
        (r.0@, r.1@, r.2@, r.3@) == spec_metric_meta(metric),
{
    match metric {
        MonitoredMetric::Loss => ("Loss", "Loss", "training loss", "validation loss"),
        MonitoredMetric::Accuracy => ("Accuracy", "Accuracy", "training accuracy", "validation accuracy"),
        MonitoredMetric::Precision => ("Precision", "Precision", "training precision", "validation precision"),
    }
}

/// Whether a metric's values are proportions, whose axis is kept within
/// `[0, 1]`.
pub fn is_bounded_metric(metric: MonitoredMetric) -> (r: bool)
    ensures
        r == (metric != MonitoredMetric::Loss),
{
    match metric {
        MonitoredMetric::Loss => false,
        _ => true,
    }
}

/// Corner of a panel where its legend is drawn.
#[derive(Clone, Copy, Debug, PartialEq, Eq, Structural)]
pub enum LegendCorner {
    UpperRight,
    LowerRight,
}

/// Legend corner of a metric's panel: the loss curve falls, so its legend
/// sits at the upper right; the proportions rise, so theirs sit at the lower
/// right.
pub fn legend_corner(metric: MonitoredMetric) -> (r: LegendCorner)
    ensures
        r == if metric == MonitoredMetric::Loss {
            LegendCorner::UpperRight
        } else {
            LegendCorner::LowerRight
        },
{
    match metric {
        MonitoredMetric::Loss => LegendCorner::UpperRight,
        _ => LegendCorner::LowerRight,
    }
}

} // verus!
