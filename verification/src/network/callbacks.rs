use vstd::prelude::*;

verus! {

/// Prints one line per epoch; knows how many epochs the run has.
pub struct ProgressLogger {
    pub total_epochs: usize,
}

impl ProgressLogger {
    pub fn new(total_epochs: usize) -> (r: Self)
        ensures
            r.total_epochs == total_epochs,
    {
        ProgressLogger { total_epochs }
    }
}

} // verus!
