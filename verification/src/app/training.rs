use vstd::prelude::*;
use vstd::string::*;

use super::types::MonitorOptions;
use crate::calendar::{civil_from_days, day_number, valid_date};
use crate::text::{zero_padded, zero_padded_string};

verus! {

/// The measured quantities of the dataset, in column order.
pub open spec fn spec_base_feature(k: int) -> Seq<char> {
    if k == 0 {
        "Radius"@
    } else if k == 1 {
        "Texture"@
    } else if k == 2 {
        "Perimeter"@
    } else if k == 3 {
        "Area"@
    } else if k == 4 {
        "Smoothness"@
    } else if k == 5 {
        "Compactness"@
    } else if k == 6 {
        "Concavity"@
    } else if k == 7 {
        "Concave Points"@
    } else if k == 8 {
        "Symmetry"@
    } else {
        "Fractal Dimension"@
    }
}

/// The statistics recorded for each quantity, in column order.
pub open spec fn spec_stat(k: int) -> Seq<char> {
    if k == 0 {
        "mean"@
    } else if k == 1 {
        "se"@
    } else {
        "extreme"@
    }
}

/// Column names of the dataset: `ID`, `Diagnosis`, then `<quantity>_<stat>`
/// for each of the 10 quantities and each of its 3 statistics.
pub open spec fn spec_dataset_columns() -> Seq<Seq<char>> {
    seq!["ID"@, "Diagnosis"@] + Seq::new(30, |i: int| spec_base_feature(i / 3) + "_"@ + spec_stat(i % 3))
}

fn base_feature(k: usize) -> (s: &'static str)
    requires
        k < 10,
    ensures
        s@ == spec_base_feature(k as int),
{
    match k {
        0 => "Radius",
        1 => "Texture",
        2 => "Perimeter",
        3 => "Area",
        4 => "Smoothness",
        5 => "Compactness",
        6 => "Concavity",
        7 => "Concave Points",
        8 => "Symmetry",
        _ => "Fractal Dimension",
    }
}

fn stat_name(k: usize) -> (s: &'static str)
    requires
        k < 3,
    ensures
        s@ == spec_stat(k as int),
{
    match k {
        0 => "mean",
        1 => "se",
        _ => "extreme",
    }
}

/// The measured quantities in the order of the dataset's columns.
pub open spec fn quantity_order() -> Seq<Seq<char>> {
    seq![
        "Radius"@,
        "Texture"@,
        "Perimeter"@,
        "Area"@,
        "Smoothness"@,
        "Compactness"@,
        "Concavity"@,
        "Concave Points"@,
        "Symmetry"@,
        "Fractal Dimension"@,
    ]
}

/// The column layout of the dataset: `ID`, `Diagnosis`, then for each
/// quantity in the order Radius, Texture, Perimeter, Area, Smoothness,
/// Compactness, Concavity, Concave Points, Symmetry, Fractal Dimension its
/// mean, standard error and extreme value: column `2 + 3 f + s` is quantity
/// `f`, an underscore and statistic `s`.
pub proof fn lemma_dataset_column_layout()
    ensures
        spec_dataset_columns().len() == 32,
        spec_dataset_columns()[0] == "ID"@,
        spec_dataset_columns()[1] == "Diagnosis"@,
        forall|f: int, st: int|
            0 <= f < 10 && 0 <= st < 3 ==> #[trigger] spec_dataset_columns()[2 + 3 * f + st]
                == quantity_order()[f] + "_"@ + seq!["mean"@, "se"@, "extreme"@][st],
{
    assert forall|f: int, st: int| 0 <= f < 10 && 0 <= st < 3 implies #[trigger] spec_dataset_columns()[2
        + 3 * f + st] == quantity_order()[f] + "_"@ + seq!["mean"@, "se"@, "extreme"@][st] by {
        let i = 3 * f + st;
        assert(i / 3 == f && i % 3 == st) by (nonlinear_arith)
            requires
                i == 3 * f + st,
                0 <= st < 3,
        ;
        assert(spec_base_feature(f) == quantity_order()[f]);
        assert(spec_stat(st) == seq!["mean"@, "se"@, "extreme"@][st]);
    }
}

/// The column names that the dataset file is read with.
pub fn dataset_column_names() -> (r: Vec<String>)
    ensures
        crate::text::string_views(r@) == spec_dataset_columns(),
{
    let mut names: Vec<String> = Vec::new();
    names.push(String::from_str("ID"));
    names.push(String::from_str("Diagnosis"));
    let mut f: usize = 0;
    while f < 10
        invariant
            f <= 10,
            names@.len() == 2 + 3 * f,
            forall|j: int| 0 <= j < 2 + 3 * f ==> (#[trigger] names@[j])@ == spec_dataset_columns()[j],
        decreases 10 - f,
    {
        let mut st: usize = 0;
        while st < 3
            invariant
                f < 10,
                st <= 3,
                names@.len() == 2 + 3 * f + st,
                forall|j: int| 0 <= j < 2 + 3 * f + st ==> (#[trigger] names@[j])@ == spec_dataset_columns()[j],
            decreases 3 - st,
        {
            let mut name = String::from_str(base_feature(f));
            name.append("_");
            name.append(stat_name(st));
            proof {
                let i = 3 * f + st;
                assert(i / 3 == f as int) by (nonlinear_arith)
                    requires
                        i == 3 * f + st,
                        st < 3,
                ;
                assert(i % 3 == st as int) by (nonlinear_arith)
                    requires
                        i == 3 * f + st,
                        st < 3,
                ;
                assert(spec_dataset_columns()[2 + i] == spec_base_feature(i / 3) + "_"@ + spec_stat(i % 3));
            }
            names.push(name);
            st = st + 1;
        }
        f = f + 1;
    }
    assert(crate::text::string_views(names@) =~= spec_dataset_columns());
    names
}

/// Why training data is refused before any training.
#[derive(Clone, Copy, Debug, PartialEq, Eq, Structural)]
pub enum PrepareError {
    /// Fewer than 3 rows.
    TooFewRows,
    /// The split left the training or the validation set empty.
    EmptySplit,
}

pub open spec fn spec_prepare_message(e: PrepareError) -> Seq<char> {
    match e {
        PrepareError::TooFewRows => "dataset must contain at least 3 rows to split train/val/test"@,
        PrepareError::EmptySplit => "dataset split produced empty training or validation set"@,
    }
}

impl PrepareError {
    pub fn message(&self) -> (s: String)
        ensures
            s@ == spec_prepare_message(*self),
    {
        match self {
            PrepareError::TooFewRows => String::from_str(
                "dataset must contain at least 3 rows to split train/val/test",
            ),
            PrepareError::EmptySplit => String::from_str(
                "dataset split produced empty training or validation set",
            ),
        }
    }
}

/// Refuses a dataset of fewer than 3 rows.
pub fn check_training_rows(rows: usize) -> (r: Result<(), PrepareError>)
    ensures
        r == if rows < 3 {
            Err::<(), PrepareError>(PrepareError::TooFewRows)
        } else {
            Ok::<(), PrepareError>(())
        },
{
    if rows < 3 {
        Err(PrepareError::TooFewRows)
    } else {
        Ok(())
    }
}

/// Refuses a split that left either side empty.
pub fn check_split_sizes(train_rows: usize, val_rows: usize) -> (r: Result<(), PrepareError>)
    ensures
        r == if train_rows == 0 || val_rows == 0 {
            Err::<(), PrepareError>(PrepareError::EmptySplit)
        } else {
            Ok::<(), PrepareError>(())
        },
{
    if train_rows == 0 || val_rows == 0 {
        Err(PrepareError::EmptySplit)
    } else {
        Ok(())
    }
}

/// The metric history is recorded when it is to be saved or when any metric
/// is monitored.
pub fn history_enabled(options: &MonitorOptions) -> (r: bool)
    ensures
        r == (options.history_out is Some || options.metrics@.len() > 0),
{
    options.history_out.is_some() || options.metrics.len() > 0
}

pub open spec fn spec_curve_file_path(config_name: Option<Seq<char>>, timestamp: Seq<char>) -> Seq<char> {
    "reports/learning_curves_"@ + match config_name {
        Some(name) => name + "_"@,
        None => Seq::empty(),
    } + timestamp + ".png"@
}

/// Where the learning-curve image of a run is written:
/// `reports/learning_curves_<config>_<timestamp>.png`, without the config part
/// when no config name is known.
pub fn curve_file_path(config_name: Option<&str>, timestamp: &str) -> (s: String)
    ensures
        s@ == spec_curve_file_path(
            match config_name {
                Some(n) => Some(n@),
                None => None,
            },
            timestamp@,
        ),
{
    let mut s = String::from_str("reports/learning_curves_");
    match config_name {
        Some(name) => {
            s.append(name);
            s.append("_");
        },
        None => {},
    }
    s.append(timestamp);
    s.append(".png");
    proof {
        match config_name {
            Some(n) => {},
            None => {
                assert("reports/learning_curves_"@ + Seq::<char>::empty() =~= "reports/learning_curves_"@);
            },
        }
    }
    s
}

/// `yyyymmdd-hhmmss` for the date `y-m-d` and the second `sod` of that day.
pub open spec fn spec_timestamp(y: int, m: int, d: int, sod: int) -> Seq<char> {
    zero_padded(y as nat, 4) + zero_padded(m as nat, 2) + zero_padded(d as nat, 2) + "-"@
        + zero_padded((sod / 3600) as nat, 2) + zero_padded((sod % 3600 / 60) as nat, 2)
        + zero_padded((sod % 60) as nat, 2)
}

/// The UTC time `secs` seconds after 1970-01-01 00:00:00 as
/// `yyyymmdd-hhmmss`.
pub fn timestamp_utc(secs: u64) -> (s: String)
    ensures
        exists|y: int, m: int, d: int|
            valid_date(y, m, d) && day_number(y, m, d) == secs / 86400 && s@ == spec_timestamp(
                y,
                m,
                d,
                (secs % 86400) as int,
            ),
{
    let days = secs / 86400;
    let sod = secs % 86400;
    let (y, m, d) = civil_from_days(days);
    let mut s = zero_padded_string(y, 4);
    let month = zero_padded_string(m, 2);
    s.append(month.as_str());
    let day = zero_padded_string(d, 2);
    s.append(day.as_str());
    s.append("-");
    let hours = zero_padded_string(sod / 3600, 2);
    s.append(hours.as_str());
    let minutes = zero_padded_string(sod % 3600 / 60, 2);
    s.append(minutes.as_str());
    let seconds = zero_padded_string(sod % 60, 2);
    s.append(seconds.as_str());
    assert(s@ == spec_timestamp(y as int, m as int, d as int, sod as int));
    s
}

} // verus!
