//! Table tests for the pure classifiers: security flags, frequency
//! bands, and Bluetooth device categories.

use wifi_manager::access_point::{security_from_flags, Band, SecurityType};
use wifi_manager::bluetooth_device::DeviceCategory;

const FLAG_PRIVACY: u32 = 0x1;
const SEC_PSK: u32 = 0x100;
const SEC_802_1X: u32 = 0x200;
const SEC_SAE: u32 = 0x400;

#[test]
fn security_table_enterprise() {
    assert_eq!(security_from_flags(0, 0, SEC_802_1X), SecurityType::Enterprise);
    assert_eq!(security_from_flags(0, SEC_802_1X, 0), SecurityType::Enterprise);
}

#[test]
fn security_table_wpa3() {
    assert_eq!(security_from_flags(0, 0, SEC_SAE), SecurityType::WPA3);
    assert_eq!(security_from_flags(FLAG_PRIVACY, 0, SEC_SAE), SecurityType::WPA3);
}

#[test]
fn security_table_wpa2() {
    assert_eq!(security_from_flags(0, SEC_PSK, 0), SecurityType::WPA2);
    assert_eq!(security_from_flags(0, 0, SEC_PSK), SecurityType::WPA2);
}

#[test]
fn security_table_privacy_only_is_wpa2() {
    assert_eq!(security_from_flags(FLAG_PRIVACY, 0, 0), SecurityType::WPA2);
}

#[test]
fn security_table_nothing_is_open() {
    assert_eq!(security_from_flags(0, 0, 0), SecurityType::Open);
}

#[test]
fn security_priority_enterprise_beats_sae_and_psk() {
    assert_eq!(
        security_from_flags(FLAG_PRIVACY, SEC_PSK | SEC_SAE, SEC_802_1X),
        SecurityType::Enterprise
    );
}

#[test]
fn security_priority_sae_beats_psk() {
    assert_eq!(security_from_flags(0, SEC_PSK, SEC_SAE), SecurityType::WPA3);
}

#[test]
fn band_threshold() {
    assert_eq!(Band::from_frequency(2412), Band::TwoGhz);
    assert_eq!(Band::from_frequency(2437), Band::TwoGhz);
    assert_eq!(Band::from_frequency(4899), Band::TwoGhz);
    assert_eq!(Band::from_frequency(4900), Band::FiveGhz);
    assert_eq!(Band::from_frequency(5180), Band::FiveGhz);
}

#[test]
fn band_ap_mode_codes() {
    assert_eq!(Band::TwoGhz.ap_mode_code(), "bg");
    assert_eq!(Band::FiveGhz.ap_mode_code(), "a");
}

#[test]
fn category_known_prefixes() {
    assert_eq!(DeviceCategory::from_icon_hint("audio-headset"), DeviceCategory::Audio);
    assert_eq!(DeviceCategory::from_icon_hint("input-keyboard"), DeviceCategory::Input);
    assert_eq!(DeviceCategory::from_icon_hint("computer"), DeviceCategory::Computer);
    assert_eq!(DeviceCategory::from_icon_hint("phone-cellular"), DeviceCategory::Phone);
    assert_eq!(DeviceCategory::from_icon_hint("modem"), DeviceCategory::Peripheral);
    assert_eq!(DeviceCategory::from_icon_hint("network-wireless"), DeviceCategory::Peripheral);
    assert_eq!(DeviceCategory::from_icon_hint("printer"), DeviceCategory::Peripheral);
    assert_eq!(DeviceCategory::from_icon_hint("camera-photo"), DeviceCategory::Peripheral);
    assert_eq!(DeviceCategory::from_icon_hint("video-display"), DeviceCategory::Peripheral);
}

#[test]
fn category_unknown_is_other() {
    assert_eq!(DeviceCategory::from_icon_hint(""), DeviceCategory::Other);
    assert_eq!(DeviceCategory::from_icon_hint("scanner"), DeviceCategory::Other);
    // The prefix must start the string, not merely occur in it.
    assert_eq!(DeviceCategory::from_icon_hint("x-audio"), DeviceCategory::Other);
}

#[test]
fn category_default_icons_nonempty() {
    let cats = [
        DeviceCategory::Audio,
        DeviceCategory::Input,
        DeviceCategory::Computer,
        DeviceCategory::Phone,
        DeviceCategory::Peripheral,
        DeviceCategory::Other,
    ];
    for c in cats.iter() {
        assert!(!c.default_icon().is_empty());
    }
}
