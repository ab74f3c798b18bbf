pub mod loader;
pub mod split;
