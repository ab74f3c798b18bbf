pub mod plotter;
pub mod live_monitor;
