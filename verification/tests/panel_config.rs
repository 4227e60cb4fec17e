//! Tests for the panel state machine, the debounce policy, and the
//! configuration defaults.

use wifi_manager::config::{generate_random_password, signal_icon_index, Config, Position};
use wifi_manager::panel::{
    debounce_interval_ms, PanelState, SignalKind, DISCOVERY_SETTLE_MS, FLAG_POLL_INTERVAL_MS,
    RADIO_ENABLE_SETTLE_MS, SCAN_SETTLE_MS,
};

#[test]
fn panel_starts_hidden() {
    let s = PanelState::new();
    assert!(!s.visible);
    assert!(!s.scan_requested);
    assert!(!s.reload_requested);
}

#[test]
fn show_requests_a_scan() {
    let mut s = PanelState::new();
    s.show();
    assert!(s.visible);
    assert!(s.scan_requested);
}

#[test]
fn hide_keeps_pending_requests() {
    let mut s = PanelState::new();
    s.show();
    s.hide_panel();
    assert!(!s.visible);
    assert!(s.scan_requested);
}

#[test]
fn toggle_flips_visibility() {
    let mut s = PanelState::new();
    s.toggle();
    assert!(s.visible);
    assert!(s.scan_requested);
    s.toggle();
    assert!(!s.visible);
    s.toggle();
    assert!(s.visible);
}

#[test]
fn requests_are_taken_once() {
    let mut s = PanelState::new();
    s.show();
    assert!(s.take_scan_request());
    assert!(!s.take_scan_request());
    assert!(!s.take_reload_request());
    s.request_reload();
    assert!(s.take_reload_request());
    assert!(!s.take_reload_request());
}

#[test]
fn debounce_policy() {
    assert_eq!(debounce_interval_ms(SignalKind::DeviceStateChanged), 500);
    assert_eq!(debounce_interval_ms(SignalKind::AccessPointAdded), 300);
    assert_eq!(debounce_interval_ms(SignalKind::BluetoothInterfacesAdded), 300);
    assert_eq!(SCAN_SETTLE_MS, 1500);
    assert_eq!(DISCOVERY_SETTLE_MS, 2000);
    assert_eq!(RADIO_ENABLE_SETTLE_MS, 2000);
    assert_eq!(FLAG_POLL_INTERVAL_MS, 200);
}

#[test]
fn config_defaults() {
    let c = Config::default();
    assert_eq!(c.position, Position::Center);
    assert_eq!(c.margin_top, 10);
    assert_eq!(c.margin_right, 10);
    assert_eq!(c.margin_bottom, 10);
    assert_eq!(c.margin_left, 10);
    assert_eq!(c.signal_icons.len(), 4);
    assert!(!c.show_on_start);
    assert_eq!(c.hotspot_ssid, "Linux-Hotspot");
    assert_eq!(c.hotspot_password, "");
    assert_eq!(Position::default(), Position::Center);
}

#[test]
fn signal_icon_thresholds() {
    assert_eq!(signal_icon_index(0), 0);
    assert_eq!(signal_icon_index(24), 0);
    assert_eq!(signal_icon_index(25), 1);
    assert_eq!(signal_icon_index(49), 1);
    assert_eq!(signal_icon_index(50), 2);
    assert_eq!(signal_icon_index(74), 2);
    assert_eq!(signal_icon_index(75), 3);
    assert_eq!(signal_icon_index(100), 3);
}

#[test]
fn random_password_shape() {
    let p = generate_random_password(8);
    assert_eq!(p.len(), 8);
    assert!(p.chars().all(|c| c.is_ascii_alphanumeric()));
    let long = generate_random_password(63);
    assert_eq!(long.len(), 63);
    assert!(long.chars().all(|c| c.is_ascii_alphanumeric()));
    assert_eq!(generate_random_password(0), "");
}
