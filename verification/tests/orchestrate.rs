//! Scenario tests for the connection orchestrator: strategy selection,
//! disconnect and forget resolution, and the attempt state machine.

use wifi_manager::access_point::{Band, Network, SecurityType};
use wifi_manager::connection::{
    connection_step, plan_connect, plan_disconnect, plan_forget, plan_network_tap, ConnectPlan,
    ConnectionEvent, ConnectionPhase, KeyMgmt, NetError, NetworkTapAction, ProfileSettings,
};
use wifi_manager::network::SavedProfile;

fn network(security: SecurityType, saved: Option<&str>) -> Network {
    Network {
        ssid: "home".to_string(),
        strength: 70,
        security,
        is_connected: false,
        is_saved: saved.is_some(),
        band: Band::TwoGhz,
        ap_path: "/ap/1".to_string(),
        connection_path: saved.map(|s| s.to_string()),
    }
}

#[test]
fn saved_profile_always_reactivates() {
    let n = network(SecurityType::WPA2, Some("/conn/5"));
    // Even with a credential supplied, the saved profile wins.
    match plan_connect(&n, Some("hunter2oo")).unwrap() {
        ConnectPlan::Reactivate { profile_path } => assert_eq!(profile_path, "/conn/5"),
        ConnectPlan::AddAndActivate { .. } => panic!("saved profile must be reactivated"),
    }
    match plan_connect(&n, None).unwrap() {
        ConnectPlan::Reactivate { profile_path } => assert_eq!(profile_path, "/conn/5"),
        ConnectPlan::AddAndActivate { .. } => panic!("saved profile must be reactivated"),
    }
}

#[test]
fn enterprise_is_rejected_outright() {
    let n = network(SecurityType::Enterprise, None);
    assert_eq!(plan_connect(&n, None).unwrap_err(), NetError::UnsupportedSecurity);
    assert_eq!(plan_connect(&n, Some("irrelevant")).unwrap_err(), NetError::UnsupportedSecurity);
}

#[test]
fn open_network_connects_with_empty_settings() {
    let n = network(SecurityType::Open, None);
    match plan_connect(&n, None).unwrap() {
        ConnectPlan::AddAndActivate { settings } => match settings {
            ProfileSettings::Open => {}
            ProfileSettings::Secured { .. } => panic!("open network must use empty settings"),
        },
        ConnectPlan::Reactivate { .. } => panic!("nothing saved to reactivate"),
    }
}

#[test]
fn wpa2_requires_credential() {
    let n = network(SecurityType::WPA2, None);
    assert_eq!(plan_connect(&n, None).unwrap_err(), NetError::CredentialRequired);
    assert_eq!(plan_connect(&n, Some("")).unwrap_err(), NetError::CredentialRequired);
}

#[test]
fn wpa2_builds_psk_settings() {
    let n = network(SecurityType::WPA2, None);
    match plan_connect(&n, Some("secret-pw")).unwrap() {
        ConnectPlan::AddAndActivate { settings } => match settings {
            ProfileSettings::Secured { ssid, key_mgmt, psk } => {
                assert_eq!(ssid, "home");
                assert_eq!(key_mgmt, KeyMgmt::WpaPsk);
                assert_eq!(psk, "secret-pw");
            }
            ProfileSettings::Open => panic!("secured network must carry settings"),
        },
        ConnectPlan::Reactivate { .. } => panic!("nothing saved to reactivate"),
    }
}

#[test]
fn wpa3_builds_sae_settings() {
    let n = network(SecurityType::WPA3, None);
    match plan_connect(&n, Some("secret-pw")).unwrap() {
        ConnectPlan::AddAndActivate { settings } => match settings {
            ProfileSettings::Secured { key_mgmt, .. } => assert_eq!(key_mgmt, KeyMgmt::Sae),
            ProfileSettings::Open => panic!("secured network must carry settings"),
        },
        ConnectPlan::Reactivate { .. } => panic!("nothing saved to reactivate"),
    }
}

#[test]
fn disconnect_requires_active_connection() {
    assert_eq!(plan_disconnect(&None).unwrap_err(), NetError::NotConnected);
    assert_eq!(plan_disconnect(&Some("/active/3".to_string())).unwrap(), "/active/3");
}

#[test]
fn forget_requires_saved_profile() {
    let saved = vec![
        SavedProfile { ssid: "home".to_string(), path: "/conn/1".to_string() },
        SavedProfile { ssid: "cafe".to_string(), path: "/conn/2".to_string() },
    ];
    assert_eq!(plan_forget(&saved, "cafe").unwrap(), "/conn/2");
    assert_eq!(plan_forget(&saved, "work").unwrap_err(), NetError::NoSavedProfile);
    assert_eq!(plan_forget(&Vec::new(), "home").unwrap_err(), NetError::NoSavedProfile);
}

#[test]
fn tap_action_selection() {
    let mut connected = network(SecurityType::WPA2, None);
    connected.is_connected = true;
    assert_eq!(plan_network_tap(&connected), NetworkTapAction::Disconnect);

    let saved = network(SecurityType::WPA2, Some("/conn/1"));
    assert_eq!(plan_network_tap(&saved), NetworkTapAction::ConnectDirect);

    let open = network(SecurityType::Open, None);
    assert_eq!(plan_network_tap(&open), NetworkTapAction::ConnectDirect);

    let secured = network(SecurityType::WPA2, None);
    assert_eq!(plan_network_tap(&secured), NetworkTapAction::AskPassword);
}

#[test]
fn connection_attempt_transitions() {
    type E = ConnectionEvent;
    type P = ConnectionPhase;
    assert_eq!(connection_step(P::Idle, E::Begin), P::Connecting);
    assert_eq!(connection_step(P::Connecting, E::Succeeded), P::Connected);
    assert_eq!(connection_step(P::Connecting, E::Failed), P::Failed);
    assert_eq!(connection_step(P::Connected, E::BeginDisconnect), P::Disconnecting);
    assert_eq!(connection_step(P::Disconnecting, E::DisconnectDone), P::Idle);
    // Events that make no sense in a phase leave it alone.
    assert_eq!(connection_step(P::Idle, E::Succeeded), P::Idle);
    assert_eq!(connection_step(P::Connected, E::Begin), P::Connected);
    assert_eq!(connection_step(P::Failed, E::DisconnectDone), P::Failed);
}

#[test]
fn error_messages() {
    assert_eq!(NetError::CredentialRequired.message(), "password required");
    assert_eq!(NetError::UnsupportedSecurity.message(), "enterprise networks are not supported");
    assert_eq!(NetError::NotConnected.message(), "not connected");
    assert_eq!(NetError::NoSavedProfile.message(), "no saved profile");
    // A daemon message passes through verbatim.
    assert_eq!(
        NetError::OperationFailed("org.freedesktop.NetworkManager: busy".to_string()).message(),
        "org.freedesktop.NetworkManager: busy"
    );
}
