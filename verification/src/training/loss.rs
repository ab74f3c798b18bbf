use vstd::prelude::*;

use crate::text::{normalize, normalized_eq};

verus! {

/// Loss used for training and evaluation.
#[derive(Clone, Copy, Debug, PartialEq, Eq, Structural)]
pub enum LossFunction {
    BinaryCrossEntropy,
}

impl Default for LossFunction {
    fn default() -> (r: Self)
        ensures
            r == LossFunction::BinaryCrossEntropy,
    {
        LossFunction::BinaryCrossEntropy
    }
}

/// The spellings that `LossFunction::parse` accepts, after trimming and
/// lower-casing.
pub open spec fn spec_parse_loss(value: Seq<char>) -> Option<LossFunction> {
    let n = normalize(value);
    if n == "binary_cross_entropy"@ || n == "binary_crossentropy"@ || n
        == "binarycrossentropy"@ || n == "bce"@ {
        Some(LossFunction::BinaryCrossEntropy)
    } else {
        None
    }
}

/// Output widths that binary cross entropy supports: one or two outputs.
pub open spec fn spec_binary_output_ok(output_width: usize) -> bool {
    1 <= output_width <= 2
}

impl LossFunction {
    pub open spec fn spec_as_str(self) -> Seq<char> {
        match self {
            LossFunction::BinaryCrossEntropy => "binary_cross_entropy"@,
        }
    }

    /// Canonical name of the loss.
    pub fn as_str(self) -> (s: &'static str)
        ensures
            s@ == self.spec_as_str(),
    {
        match self {
            LossFunction::BinaryCrossEntropy => "binary_cross_entropy",
        }
    }

    /// Reads a loss name, ignoring surrounding white space and ASCII case.
    pub fn parse(value: &str) -> (r: Option<Self>)
        ensures
            r == spec_parse_loss(value@),
    {
        if normalized_eq(value, "binary_cross_entropy") || normalized_eq(
            value,
            "binary_crossentropy",
        ) || normalized_eq(value, "binarycrossentropy") || normalized_eq(value, "bce") {
            Some(LossFunction::BinaryCrossEntropy)
        } else {
            None
        }
    }
}

/// The canonical name of the loss reads back as that loss.
pub proof fn lemma_loss_name_round_trip(l: LossFunction)
    ensures
        spec_parse_loss(l.spec_as_str()) == Some(l),
{
    reveal_strlit("binary_cross_entropy");
    crate::text::lemma_normalize_plain("binary_cross_entropy"@);
}

/// Reading a loss name gives the same answer for a text as for its trimmed,
/// lower-cased form.
pub proof fn lemma_loss_parse_ignores_normalizing(value: Seq<char>)
    ensures
        spec_parse_loss(normalize(value)) == spec_parse_loss(value),
{
    crate::text::lemma_normalize_idempotent(value);
}

/// The output width check made before training or prediction: binary cross
/// entropy works on a network with one or two outputs (no output, or more than
/// two, is refused).
pub fn assert_binary_output(output_width: usize)
    requires
        spec_binary_output_ok(output_width),
{
}

} // verus!
