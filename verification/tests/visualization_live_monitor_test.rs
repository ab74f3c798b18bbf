use mlp::training::monitor::MonitoredMetric;
use mlp::visualization::live_monitor::{panel_grid, sync_rgb_to_u32, GuiMonitorConfig};
use mlp::visualization::plotter::{legend_corner, LegendCorner};

#[test]
fn rgb_triples_become_packed_pixels() {
    let rgb = vec![0x12u8, 0x34, 0x56, 0xff, 0x00, 0x80];
    let mut buffer = vec![0x00FF_FFFFu32; 2];
    sync_rgb_to_u32(&rgb, &mut buffer);
    assert_eq!(buffer, vec![0x0012_3456, 0x00FF_0080]);
}

#[test]
fn pixels_beyond_the_rgb_data_are_kept() {
    let rgb = vec![1u8, 2, 3];
    let mut buffer = vec![7u32, 8, 9];
    sync_rgb_to_u32(&rgb, &mut buffer);
    assert_eq!(buffer, vec![0x0001_0203, 8, 9]);
}

#[test]
fn panel_grid_is_as_square_as_possible() {
    assert_eq!(panel_grid(1), (1, 1));
    assert_eq!(panel_grid(2), (1, 2));
    assert_eq!(panel_grid(3), (2, 2));
    assert_eq!(panel_grid(4), (2, 2));
    assert_eq!(panel_grid(5), (2, 3));
    assert_eq!(panel_grid(10), (3, 4));
}

#[test]
fn live_window_settings_fall_back_to_defaults() {
    let config = GuiMonitorConfig::from_settings(true, None, Some(600), None, vec![MonitoredMetric::Loss]);
    assert!(config.enabled);
    assert_eq!(config.width, 1800);
    assert_eq!(config.height, 600);
    assert_eq!(config.delay_ms, 10);
    assert_eq!(config.metrics, vec![MonitoredMetric::Loss]);
}

#[test]
fn loss_legend_sits_upper_right() {
    assert_eq!(legend_corner(MonitoredMetric::Loss), LegendCorner::UpperRight);
    assert_eq!(legend_corner(MonitoredMetric::Accuracy), LegendCorner::LowerRight);
    assert_eq!(legend_corner(MonitoredMetric::Precision), LegendCorner::LowerRight);
}
