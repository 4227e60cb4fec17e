//! Scenario tests for the WiFi reconciler: de-duplication, saved and
//! connected marking, and the list order.

use wifi_manager::access_point::{Band, SecurityType};
use wifi_manager::network::{
    accept_saved_profile, build_networks, find_wifi_device, first_connected_network, ApScan,
    SavedProfile,
};

fn ap(ssid: &str, strength: u8, path: &str) -> ApScan {
    ApScan {
        ssid: ssid.to_string(),
        strength,
        frequency: 2437,
        flags: 0x1,
        wpa_flags: 0,
        rsn_flags: 0x100,
        ap_path: path.to_string(),
    }
}

#[test]
fn dedup_keeps_one_record_at_max_strength() {
    let aps = vec![ap("home", 40, "/ap/1"), ap("home", 80, "/ap/2"), ap("home", 60, "/ap/3")];
    let nets = build_networks(aps, None, Vec::new());
    assert_eq!(nets.len(), 1);
    assert_eq!(nets[0].ssid, "home");
    assert_eq!(nets[0].strength, 80);
    assert_eq!(nets[0].ap_path, "/ap/2");
}

#[test]
fn dedup_first_of_equal_strength_survives() {
    let aps = vec![ap("home", 70, "/ap/1"), ap("home", 70, "/ap/2")];
    let nets = build_networks(aps, None, Vec::new());
    assert_eq!(nets.len(), 1);
    assert_eq!(nets[0].ap_path, "/ap/1");
}

#[test]
fn hidden_networks_are_dropped() {
    let aps = vec![ap("", 90, "/ap/1"), ap("cafe", 50, "/ap/2")];
    let nets = build_networks(aps, None, Vec::new());
    assert_eq!(nets.len(), 1);
    assert_eq!(nets[0].ssid, "cafe");
}

#[test]
fn saved_profiles_cross_referenced_by_ssid() {
    let aps = vec![ap("home", 50, "/ap/1"), ap("cafe", 60, "/ap/2")];
    let saved = vec![SavedProfile { ssid: "home".to_string(), path: "/conn/7".to_string() }];
    let nets = build_networks(aps, None, saved);
    let home = nets.iter().find(|n| n.ssid == "home").unwrap();
    let cafe = nets.iter().find(|n| n.ssid == "cafe").unwrap();
    assert!(home.is_saved);
    assert_eq!(home.connection_path.as_deref(), Some("/conn/7"));
    assert!(!cafe.is_saved);
    assert_eq!(cafe.connection_path, None);
}

#[test]
fn saved_marking_ignores_live_security_type() {
    // A saved profile counts whatever security the live access point
    // reports: no cross-check of the stored security against the live
    // one is made, even when they plainly differ.
    let mut a = ap("legacy", 50, "/ap/1");
    a.flags = 0;
    a.wpa_flags = 0;
    a.rsn_flags = 0x400; // the live network now runs WPA3
    let saved = vec![SavedProfile { ssid: "legacy".to_string(), path: "/conn/2".to_string() }];
    let nets = build_networks(vec![a], None, saved);
    assert_eq!(nets[0].security, SecurityType::WPA3);
    assert!(nets[0].is_saved);
}

#[test]
fn connected_is_decided_by_access_point_identity() {
    let aps = vec![ap("home", 50, "/ap/1"), ap("cafe", 60, "/ap/2")];
    let nets = build_networks(aps, Some("/ap/2".to_string()), Vec::new());
    let home = nets.iter().find(|n| n.ssid == "home").unwrap();
    let cafe = nets.iter().find(|n| n.ssid == "cafe").unwrap();
    assert!(cafe.is_connected);
    assert!(!home.is_connected);
}

#[test]
fn sort_connected_then_saved_then_strength() {
    let mut weak_connected = ap("a-connected", 10, "/ap/1");
    weak_connected.frequency = 5180;
    let saved_strong = ap("b-saved", 80, "/ap/2");
    let unsaved_strongest = ap("c-plain", 100, "/ap/3");
    let saved = vec![SavedProfile { ssid: "b-saved".to_string(), path: "/conn/1".to_string() }];
    let nets = build_networks(
        vec![unsaved_strongest, saved_strong, weak_connected],
        Some("/ap/1".to_string()),
        saved,
    );
    assert_eq!(nets.len(), 3);
    assert_eq!(nets[0].ssid, "a-connected");
    assert_eq!(nets[1].ssid, "b-saved");
    assert_eq!(nets[2].ssid, "c-plain");
}

#[test]
fn sort_by_strength_within_equal_rank() {
    let nets = build_networks(
        vec![ap("low", 20, "/ap/1"), ap("high", 90, "/ap/2"), ap("mid", 55, "/ap/3")],
        None,
        Vec::new(),
    );
    assert_eq!(nets[0].ssid, "high");
    assert_eq!(nets[1].ssid, "mid");
    assert_eq!(nets[2].ssid, "low");
}

#[test]
fn record_fields_classified() {
    let mut a = ap("home", 50, "/ap/1");
    a.frequency = 5180;
    a.flags = 0;
    a.rsn_flags = 0x400;
    let nets = build_networks(vec![a], None, Vec::new());
    assert_eq!(nets[0].band, Band::FiveGhz);
    assert_eq!(nets[0].security, SecurityType::WPA3);
}

#[test]
fn first_connected_network_finds_it() {
    let nets = build_networks(
        vec![ap("home", 50, "/ap/1"), ap("cafe", 60, "/ap/2")],
        Some("/ap/1".to_string()),
        Vec::new(),
    );
    let idx = first_connected_network(&nets).unwrap();
    assert_eq!(nets[idx].ssid, "home");
    let none = build_networks(vec![ap("x", 10, "/ap/9")], None, Vec::new());
    assert_eq!(first_connected_network(&none), None);
}

#[test]
fn wifi_device_lookup() {
    assert_eq!(find_wifi_device(&vec![1, 2, 3]), Some(1));
    assert_eq!(find_wifi_device(&vec![2]), Some(0));
    assert_eq!(find_wifi_device(&vec![1, 3, 14]), None);
    assert_eq!(find_wifi_device(&Vec::new()), None);
}

#[test]
fn saved_profile_acceptance() {
    assert!(accept_saved_profile(Some("802-11-wireless"), "home"));
    assert!(accept_saved_profile(None, "home"));
    assert!(!accept_saved_profile(Some("802-3-ethernet"), "home"));
    assert!(!accept_saved_profile(Some("802-11-wireless"), ""));
    assert!(!accept_saved_profile(None, ""));
}
