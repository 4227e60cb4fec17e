//! Scenario tests for the Bluetooth reconciler and pairing
//! orchestrator: defensive parsing, the sort order, action planning,
//! and the pair, trust, connect sequence.

use wifi_manager::bluetooth::{
    build_device_list, first_connected_index, pair_flow_step, plan_device_action,
    start_discovery_error_is_benign, stop_discovery_error_is_benign, DeviceAction, DeviceEntry,
    PairFlowPhase,
};
use wifi_manager::bluetooth_device::{
    device_from_props, BluetoothDevice, DeviceCategory, DeviceProps,
};

fn empty_props() -> DeviceProps {
    DeviceProps {
        address: None,
        name: None,
        alias: None,
        icon: None,
        paired: None,
        connected: None,
        trusted: None,
        rssi: None,
    }
}

fn props(address: &str, name: &str, alias: &str, connected: bool, paired: bool) -> DeviceProps {
    DeviceProps {
        address: Some(address.to_string()),
        name: if name.is_empty() { None } else { Some(name.to_string()) },
        alias: if alias.is_empty() { None } else { Some(alias.to_string()) },
        icon: Some("audio-headset".to_string()),
        paired: Some(paired),
        connected: Some(connected),
        trusted: Some(false),
        rssi: Some(-40),
    }
}

fn device(name: &str, connected: bool, paired: bool) -> BluetoothDevice {
    device_from_props("/adapter/dev_1", props("AA:BB:CC:DD:EE:FF", name, "", connected, paired))
}

#[test]
fn parsing_defaults_every_missing_field() {
    let d = device_from_props("/adapter/dev_2", empty_props());
    assert_eq!(d.address, "");
    assert_eq!(d.display_name, "");
    assert_eq!(d.category, DeviceCategory::Other);
    assert!(!d.paired);
    assert!(!d.connected);
    assert!(!d.trusted);
    assert_eq!(d.rssi, 0);
    assert_eq!(d.device_path, "/adapter/dev_2");
}

#[test]
fn display_name_prefers_alias_then_name_then_address() {
    let with_alias =
        device_from_props("/a/d", props("AA:BB", "RealName", "MyAlias", false, false));
    assert_eq!(with_alias.display_name, "MyAlias");
    let with_name = device_from_props("/a/d", props("AA:BB", "RealName", "", false, false));
    assert_eq!(with_name.display_name, "RealName");
    let with_address = device_from_props("/a/d", props("AA:BB", "", "", false, false));
    assert_eq!(with_address.display_name, "AA:BB");
}

#[test]
fn parsing_reads_all_fields() {
    let d = device_from_props("/a/d", props("AA:BB", "Buds", "", true, true));
    assert!(d.connected);
    assert!(d.paired);
    assert!(!d.trusted);
    assert_eq!(d.rssi, -40);
    assert_eq!(d.category, DeviceCategory::Audio);
}

#[test]
fn sort_key_orders_connected_then_paired_then_lower_name() {
    let d = device("AbC", true, false);
    let key = d.sort_key();
    assert_eq!(key.0, 0);
    assert_eq!(key.1, 1);
    // Case folded: a wrapper handing the name back unchanged would
    // yield "AbC" here.
    assert_eq!(key.2, "abc");
}

#[test]
fn connected_unpaired_sorts_before_paired_disconnected() {
    let mut devices =
        vec![device("zeta", false, true), device("omega", true, false)];
    wifi_manager::bluetooth_device::sort_devices(&mut devices);
    assert_eq!(devices[0].display_name, "omega");
    assert!(devices[0].connected && !devices[0].paired);
    assert_eq!(devices[1].display_name, "zeta");
    assert!(!devices[1].connected && devices[1].paired);
}

#[test]
fn sort_is_case_insensitive_on_names() {
    // Ordered by bytes, "Beta" (B = 0x42) would come before "alpha"
    // (a = 0x61); case-folded it comes after.
    let mut devices = vec![
        device("gamma", false, false),
        device("Beta", false, false),
        device("alpha", false, false),
    ];
    wifi_manager::bluetooth_device::sort_devices(&mut devices);
    assert_eq!(devices[0].display_name, "alpha");
    assert_eq!(devices[1].display_name, "Beta");
    assert_eq!(devices[2].display_name, "gamma");
}

#[test]
fn build_device_list_filters_by_adapter_and_sorts() {
    let entries = vec![
        DeviceEntry {
            path: "/org/bluez/hci0/dev_2".to_string(),
            props: props("AA:02", "keyboard", "", false, true),
        },
        DeviceEntry {
            path: "/org/bluez/hci1/dev_9".to_string(),
            props: props("AA:09", "foreign", "", true, true),
        },
        DeviceEntry {
            path: "/org/bluez/hci0/dev_1".to_string(),
            props: props("AA:01", "earbuds", "", true, false),
        },
    ];
    let list = build_device_list(entries, "/org/bluez/hci0");
    assert_eq!(list.len(), 2);
    assert_eq!(list[0].display_name, "earbuds");
    assert_eq!(list[1].display_name, "keyboard");
}

#[test]
fn tap_action_selection_for_devices() {
    assert_eq!(plan_device_action(&device("a", true, true)), DeviceAction::Disconnect);
    assert_eq!(plan_device_action(&device("a", true, false)), DeviceAction::Disconnect);
    assert_eq!(plan_device_action(&device("a", false, true)), DeviceAction::ConnectOnly);
    assert_eq!(plan_device_action(&device("a", false, false)), DeviceAction::PairTrustConnect);
}

#[test]
fn pair_flow_trusts_before_connecting() {
    type P = PairFlowPhase;
    // The successful path: pair, then trust, then connect.
    let after_pair = pair_flow_step(P::Pairing, true);
    assert_eq!(after_pair, P::Trusting);
    let after_trust = pair_flow_step(after_pair, true);
    assert_eq!(after_trust, P::Connecting);
    assert_eq!(pair_flow_step(after_trust, true), P::Done);
    // A failed trust call does not block the connect step.
    assert_eq!(pair_flow_step(P::Trusting, false), P::Connecting);
    // A failed connect call does not fail the flow either.
    assert_eq!(pair_flow_step(P::Connecting, false), P::Done);
}

#[test]
fn pair_failure_ends_the_flow() {
    type P = PairFlowPhase;
    assert_eq!(pair_flow_step(P::Pairing, false), P::Failed);
    // Final states absorb.
    assert_eq!(pair_flow_step(P::Failed, true), P::Failed);
    assert_eq!(pair_flow_step(P::Done, false), P::Done);
}

#[test]
fn discovery_errors_classified() {
    assert!(start_discovery_error_is_benign("org.bluez.Error.InProgress"));
    assert!(start_discovery_error_is_benign("Already discovering"));
    assert!(!start_discovery_error_is_benign("org.bluez.Error.NotReady"));
    assert!(stop_discovery_error_is_benign("org.bluez.Error.NotReady"));
    assert!(stop_discovery_error_is_benign("NotAuthorized"));
    assert!(!stop_discovery_error_is_benign("some other failure"));
}

#[test]
fn first_connected_device_found() {
    let devices = vec![device("a", false, true), device("b", true, false)];
    let idx = first_connected_index(&devices).unwrap();
    assert_eq!(devices[idx].display_name, "b");
    let none = vec![device("a", false, false)];
    assert_eq!(first_connected_index(&none), None);
}
