use vstd::prelude::*;

verus! {

/// How the weights of a new layer are drawn.
#[derive(Clone, Copy, Debug, PartialEq, Eq, Structural)]
pub enum WeightInitializer {
    Random,
    Xavier,
    He,
}

} // verus!
