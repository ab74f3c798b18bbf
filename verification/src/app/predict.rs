use vstd::prelude::*;

verus! {

/// What the `predict` command needs: the dataset to score and the model file.
pub struct PredictArgs {
    pub dataset_path: String,
    pub model_path: String,
}

} // verus!
