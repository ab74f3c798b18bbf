use vstd::prelude::*;
use vstd::string::*;

use crate::float_bits::{is_at_least_one, is_at_most_zero, outside_open_unit_interval};

verus! {

/// What the `split` command needs. `ratio_bits` is the IEEE-754 bit pattern
/// of the share of rows that goes to the training file.
pub struct SplitArgs {
    pub dataset_path: String,
    pub train_out: String,
    pub val_out: String,
    pub ratio_bits: u64,
}

/// Why a split is refused.
#[derive(Clone, Copy, Debug, PartialEq, Eq, Structural)]
pub enum SplitError {
    /// The ratio is not strictly between 0 and 1.
    RatioOutOfRange,
    /// The dataset has fewer than 2 rows.
    TooFewRows,
}

/// Refuses a ratio that compares `<= 0` or `>= 1` (a NaN ratio compares
/// neither way and passes).
pub fn check_split_ratio(ratio_bits: u64) -> (r: Result<(), SplitError>)
    ensures
        r == if is_at_most_zero(ratio_bits) || is_at_least_one(ratio_bits) {
            Err::<(), SplitError>(SplitError::RatioOutOfRange)
        } else {
            Ok::<(), SplitError>(())
        },
{
    if outside_open_unit_interval(ratio_bits) {
        Err(SplitError::RatioOutOfRange)
    } else {
        Ok(())
    }
}

/// Refuses a dataset of fewer than 2 rows.
pub fn check_split_rows(rows: usize) -> (r: Result<(), SplitError>)
    ensures
        r == if rows < 2 {
            Err::<(), SplitError>(SplitError::TooFewRows)
        } else {
            Ok::<(), SplitError>(())
        },
{
    if rows < 2 {
        Err(SplitError::TooFewRows)
    } else {
        Ok(())
    }
}

impl SplitError {
    /// The message of a too-small dataset; the ratio message names the ratio
    /// and is written by the caller.
    pub fn rows_message() -> (s: String)
        ensures
            s@ == "dataset must have at least 2 rows to split"@,
    {
        String::from_str("dataset must have at least 2 rows to split")
    }
}

} // verus!
