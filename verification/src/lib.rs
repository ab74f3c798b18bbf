//! Verified core of a multilayer-perceptron trainer: configuration checking,
//! command-line resolution, metric bookkeeping, batching, stratified splitting
//! and the other integer and text logic around the numeric kernels.

pub mod app;
pub mod calendar;
pub mod console;
pub mod data;
pub mod float_bits;
pub mod network;
pub mod text;
pub mod training;
pub mod visualization;
