pub mod activation;
pub mod config;
pub mod initializer;
pub mod callbacks;
pub mod persist;
