//! Scenario tests for the hotspot: channel policy, password bounds,
//! the single-instance profile, and the no-op-safe stop.

use wifi_manager::access_point::Band;
use wifi_manager::connection::NetError;
use wifi_manager::hotspot::{
    channel_for_frequency, deactivate_hotspot, find_hotspot_profile, hotspot_profile_id,
    is_hotspot_active, plan_hotspot, upsert_hotspot_profile, validate_hotspot_name,
    validate_hotspot_password, StoredProfile,
};

#[test]
fn channel_grid_two_ghz() {
    assert_eq!(channel_for_frequency(2412), Some(1));
    assert_eq!(channel_for_frequency(2437), Some(6));
    assert_eq!(channel_for_frequency(2462), Some(11));
    assert_eq!(channel_for_frequency(2472), Some(13));
    assert_eq!(channel_for_frequency(2484), Some(14));
}

#[test]
fn channel_grid_five_ghz() {
    assert_eq!(channel_for_frequency(5180), Some(36));
    assert_eq!(channel_for_frequency(5500), Some(100));
    assert_eq!(channel_for_frequency(5745), Some(149));
}

#[test]
fn channel_off_grid_is_none() {
    assert_eq!(channel_for_frequency(2413), None);
    assert_eq!(channel_for_frequency(100), None);
    assert_eq!(channel_for_frequency(5001), None);
}

#[test]
fn associated_station_forces_channel_and_band() {
    // Station associated at 2437 MHz: channel 6, 2.4 GHz band ("bg").
    let s = plan_hotspot("spot", None, Some(Band::FiveGhz), Some(2437)).unwrap();
    assert_eq!(s.channel, Some(6));
    assert_eq!(s.band, Some(Band::TwoGhz));
    assert_eq!(s.band.unwrap().ap_mode_code(), "bg");
}

#[test]
fn unassociated_station_leaves_channel_free() {
    let s = plan_hotspot("spot", None, Some(Band::FiveGhz), None).unwrap();
    assert_eq!(s.channel, None);
    assert_eq!(s.band, Some(Band::FiveGhz));

    let no_pref = plan_hotspot("spot", None, None, None).unwrap();
    assert_eq!(no_pref.band, None);
    assert_eq!(no_pref.channel, None);
}

#[test]
fn password_bounds() {
    // Empty: open access point.
    let open = plan_hotspot("spot", Some(""), None, None).unwrap();
    assert_eq!(open.psk, None);
    let missing = plan_hotspot("spot", None, None, None).unwrap();
    assert_eq!(missing.psk, None);
    // Too short or too long: rejected.
    assert_eq!(
        plan_hotspot("spot", Some("short"), None, None).unwrap_err(),
        NetError::InvalidCredential
    );
    let too_long = "x".repeat(64);
    assert_eq!(
        plan_hotspot("spot", Some(&too_long), None, None).unwrap_err(),
        NetError::InvalidCredential
    );
    // In bounds: kept.
    let ok = plan_hotspot("spot", Some("12345678"), None, None).unwrap();
    assert_eq!(ok.psk.as_deref(), Some("12345678"));
    let longest = "y".repeat(63);
    let ok63 = plan_hotspot("spot", Some(&longest), None, None).unwrap();
    assert_eq!(ok63.psk.as_deref(), Some(longest.as_str()));
}

#[test]
fn password_and_name_validation() {
    assert!(validate_hotspot_password(""));
    assert!(validate_hotspot_password("12345678"));
    assert!(!validate_hotspot_password("1234567"));
    assert!(!validate_hotspot_password(&"z".repeat(64)));
    assert!(validate_hotspot_name("spot"));
    assert!(!validate_hotspot_name(""));
}

fn other_profile(path: &str, ssid: &str) -> StoredProfile {
    StoredProfile {
        path: path.to_string(),
        uuid: "11111111-2222-3333-4444-555555555555".to_string(),
        ssid: ssid.to_string(),
    }
}

#[test]
fn hotspot_single_instance_across_two_starts() {
    let mut store = vec![other_profile("/conn/1", "home")];
    upsert_hotspot_profile(&mut store, "/conn/10", "FirstSpot");
    upsert_hotspot_profile(&mut store, "/conn/11", "SecondSpot");

    let ours: Vec<&StoredProfile> =
        store.iter().filter(|p| p.uuid == hotspot_profile_id()).collect();
    assert_eq!(ours.len(), 1);
    assert_eq!(ours[0].ssid, "SecondSpot");
    // The unrelated profile survived.
    assert!(store.iter().any(|p| p.ssid == "home"));
    assert_eq!(store.len(), 2);
}

#[test]
fn hotspot_profile_lookup() {
    let mut store = vec![other_profile("/conn/1", "home")];
    assert_eq!(find_hotspot_profile(&store), None);
    upsert_hotspot_profile(&mut store, "/conn/10", "Spot");
    let idx = find_hotspot_profile(&store).unwrap();
    assert_eq!(store[idx].ssid, "Spot");
    assert_eq!(store[idx].path, "/conn/10");
}

#[test]
fn stop_hotspot_is_idempotent() {
    // No hotspot active: stopping errors nothing and changes nothing.
    let mut actives = vec!["11111111-2222-3333-4444-555555555555".to_string()];
    assert!(!is_hotspot_active(&actives));
    deactivate_hotspot(&mut actives);
    assert!(!is_hotspot_active(&actives));
    assert_eq!(actives.len(), 1);

    // With the hotspot active, stopping removes exactly it.
    actives.push(hotspot_profile_id().to_string());
    assert!(is_hotspot_active(&actives));
    deactivate_hotspot(&mut actives);
    assert!(!is_hotspot_active(&actives));
    assert_eq!(actives.len(), 1);
    assert_eq!(actives[0], "11111111-2222-3333-4444-555555555555");
}
