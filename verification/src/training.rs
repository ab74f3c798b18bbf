pub mod loss;
pub mod monitor;
pub mod optimizer;
pub mod metrics;
pub mod batch;
