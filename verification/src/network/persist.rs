use vstd::prelude::*;
use vstd::string::*;

use crate::text::{decimal, decimal_string};

verus! {

/// Why a saved model is refused.
#[derive(Clone, Copy, Debug, PartialEq, Eq, Structural)]
pub enum PersistError {
    /// The model has this many layers, fewer than 3.
    TooFewLayers(usize),
    /// A layer has no weight rows.
    NoWeightRows,
    /// A layer's bias length differs from the length of its first weight row.
    BiasMismatch { bias_len: usize, cols: usize },
}

pub open spec fn spec_persist_message(e: PersistError) -> Seq<char> {
    match e {
        PersistError::TooFewLayers(n) => "saved model has only "@ + decimal(n as nat)
            + " layer(s); at least 3 are required (input→hidden×≥2→output)"@,
        PersistError::NoWeightRows => "saved layer has no weight rows"@,
        PersistError::BiasMismatch { bias_len, cols } => "saved layer bias length "@ + decimal(
            bias_len as nat,
        ) + " does not match weight columns "@ + decimal(cols as nat),
    }
}

impl PersistError {
    pub fn message(&self) -> (s: String)
        ensures
            s@ == spec_persist_message(*self),
    {
        match self {
            PersistError::TooFewLayers(n) => {
                let mut s = String::from_str("saved model has only ");
                let d = decimal_string(*n as u64);
                s.append(d.as_str());
                s.append(" layer(s); at least 3 are required (input→hidden×≥2→output)");
                s
            },
            PersistError::NoWeightRows => String::from_str("saved layer has no weight rows"),
            PersistError::BiasMismatch { bias_len, cols } => {
                let mut s = String::from_str("saved layer bias length ");
                let b = decimal_string(*bias_len as u64);
                s.append(b.as_str());
                s.append(" does not match weight columns ");
                let c = decimal_string(*cols as u64);
                s.append(c.as_str());
                s
            },
        }
    }
}

/// A saved model needs at least 3 layers (input to two hidden layers to
/// output).
pub fn check_layer_count(layers: usize) -> (r: Result<(), PersistError>)
    ensures
        r == if layers < 3 {
            Err::<(), PersistError>(PersistError::TooFewLayers(layers))
        } else {
            Ok::<(), PersistError>(())
        },
{
    if layers < 3 {
        Err(PersistError::TooFewLayers(layers))
    } else {
        Ok(())
    }
}

/// The shape `(rows, cols)` of a saved layer whose weight rows have the
/// lengths `row_lens`: as many rows as there are, as many columns as the first
/// row has. Refused when there is no row or when the bias length differs from
/// the column count.
pub fn saved_layer_shape(row_lens: &[usize], bias_len: usize) -> (r: Result<(usize, usize), PersistError>)
    ensures
        row_lens@.len() == 0 ==> r == Err::<(usize, usize), PersistError>(PersistError::NoWeightRows),
        row_lens@.len() > 0 && bias_len != row_lens@[0] ==> r == Err::<(usize, usize), PersistError>(
            PersistError::BiasMismatch { bias_len, cols: row_lens@[0] },
        ),
        row_lens@.len() > 0 && bias_len == row_lens@[0] ==> r == Ok::<(usize, usize), PersistError>(
            (row_lens@.len() as usize, row_lens@[0]),
        ),
{
    let rows = row_lens.len();
    if rows == 0 {
        return Err(PersistError::NoWeightRows);
    }
    let cols = row_lens[0];
    if bias_len != cols {
        return Err(PersistError::BiasMismatch { bias_len, cols });
    }
    Ok((rows, cols))
}

} // verus!
