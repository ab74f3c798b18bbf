pub mod cli;
pub mod predict;
pub mod split;
pub mod training;
pub mod types;
