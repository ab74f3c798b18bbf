use vstd::prelude::*;

verus! {

/// Activation applied by a layer to its pre-activations.
#[derive(Clone, Copy, Debug, PartialEq, Eq, Structural)]
pub enum ActivationFunction {
    Sigmoid,
    Tanh,
    ReLU,
    Softmax,
}

} // verus!
