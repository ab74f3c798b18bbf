use vstd::prelude::*;

verus! {

/// Optimizer named in a network configuration.
#[derive(Clone, Copy, Debug, PartialEq, Eq, Structural)]
pub enum OptimizerKind {
    Sgd,
    Adam,
}

impl Default for OptimizerKind {
    fn default() -> (r: Self)
        ensures
            r == OptimizerKind::Sgd,
    {
        OptimizerKind::Sgd
    }
}

} // verus!
