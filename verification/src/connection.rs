//! Connection orchestration: the error taxonomy, the per-attempt state
//! machine, and the strategy a connect, disconnect or forget request
//! resolves to before any daemon call is made.

use vstd::prelude::*;
use vstd::string::StringExecFns;

use crate::access_point::{Network, SecurityType};
use crate::network::{saved_lookup, saved_views, spec_saved_path, SavedProfile};

verus! {

/// Typed failures of the connectivity engine.
#[derive(Debug, Clone, PartialEq, Eq)]
pub enum NetError {
    /// The system bus or the daemon is unreachable.
    DaemonUnavailable,
    /// No radio of the required kind is present.
    DeviceNotFound,
    /// A secured network needs a credential and none was given.
    CredentialRequired,
    /// The credential breaks a length or charset constraint.
    InvalidCredential,
    /// Enterprise-secured networks are rejected, never attempted.
    UnsupportedSecurity,
    /// A disconnect was requested with no active connection.
    NotConnected,
    /// A forget was requested for an SSID with no saved profile.
    NoSavedProfile,
    /// The daemon returned an error; its message passes through verbatim.
    OperationFailed(String),
    /// A heuristic wait elapsed without the expected signal.
    Timeout,
}

/// The user-readable text of each failure.
pub open spec fn spec_error_message(e: NetError) -> Seq<char> {
    match e {
        NetError::DaemonUnavailable => "daemon unavailable"@,
        NetError::DeviceNotFound => "no device found"@,
        NetError::CredentialRequired => "password required"@,
        NetError::InvalidCredential => "invalid password"@,
        NetError::UnsupportedSecurity => "enterprise networks are not supported"@,
        NetError::NotConnected => "not connected"@,
        NetError::NoSavedProfile => "no saved profile"@,
        NetError::OperationFailed(m) => m@,
        NetError::Timeout => "timed out"@,
    }
}

impl NetError {
    /// The user-readable text of this failure.
    pub fn message(&self) -> (r: String)
        ensures
            r@ == spec_error_message(*self),
    {
        match self {
            NetError::DaemonUnavailable => String::from_str("daemon unavailable"),
            NetError::DeviceNotFound => String::from_str("no device found"),
            NetError::CredentialRequired => String::from_str("password required"),
            NetError::InvalidCredential => String::from_str("invalid password"),
            NetError::UnsupportedSecurity => String::from_str(
                "enterprise networks are not supported",
            ),
            NetError::NotConnected => String::from_str("not connected"),
            NetError::NoSavedProfile => String::from_str("no saved profile"),
            NetError::OperationFailed(m) => m.clone(),
            NetError::Timeout => String::from_str("timed out"),
        }
    }
}

/// Key management a new secured profile is written with.
#[derive(Debug, Clone, Copy, PartialEq, Eq, Structural)]
pub enum KeyMgmt {
    /// Pre-shared key (WPA2).
    WpaPsk,
    /// Simultaneous authentication of equals (WPA3).
    Sae,
}

/// The daemon's key-management code for each scheme.
pub open spec fn spec_key_mgmt_code(k: KeyMgmt) -> Seq<char> {
    match k {
        KeyMgmt::WpaPsk => "wpa-psk"@,
        KeyMgmt::Sae => "sae"@,
    }
}

impl KeyMgmt {
    /// The daemon's code for this key-management scheme.
    pub fn daemon_code(&self) -> (r: &'static str)
        ensures
            r@ == spec_key_mgmt_code(*self),
    {
        match self {
            KeyMgmt::WpaPsk => "wpa-psk",
            KeyMgmt::Sae => "sae",
        }
    }
}

/// Minimal settings of a station profile handed to the daemon.
#[derive(Debug, Clone)]
pub enum ProfileSettings {
    /// Empty settings: the daemon fills everything in for an open network.
    Open,
    /// SSID plus key management and credential for a secured network.
    Secured { ssid: String, key_mgmt: KeyMgmt, psk: String },
}

/// Mathematical view of station profile settings.
pub enum ProfileSettingsView {
    Open,
    Secured { ssid: Seq<char>, key_mgmt: KeyMgmt, psk: Seq<char> },
}

impl View for ProfileSettings {
    type V = ProfileSettingsView;

    open spec fn view(&self) -> ProfileSettingsView {
        match self {
            ProfileSettings::Open => ProfileSettingsView::Open,
            ProfileSettings::Secured { ssid, key_mgmt, psk } => ProfileSettingsView::Secured {
                ssid: ssid@,
                key_mgmt: *key_mgmt,
                psk: psk@,
            },
        }
    }
}

/// Empty settings for an open network.
pub fn build_open_settings() -> (s: ProfileSettings)
    ensures
        s@ == ProfileSettingsView::Open,
{
    ProfileSettings::Open
}

/// Settings for a WPA2 (pre-shared key) network.
pub fn build_wpa_psk_settings(ssid: &str, password: &str) -> (s: ProfileSettings)
    ensures
        s@ == (ProfileSettingsView::Secured {
            ssid: ssid@,
            key_mgmt: KeyMgmt::WpaPsk,
            psk: password@,
        }),
{
    ProfileSettings::Secured {
        ssid: ssid.to_owned(),
        key_mgmt: KeyMgmt::WpaPsk,
        psk: password.to_owned(),
    }
}

/// Settings for a WPA3 (SAE) network.
pub fn build_wpa3_settings(ssid: &str, password: &str) -> (s: ProfileSettings)
    ensures
        s@ == (ProfileSettingsView::Secured {
            ssid: ssid@,
            key_mgmt: KeyMgmt::Sae,
            psk: password@,
        }),
{
    ProfileSettings::Secured {
        ssid: ssid.to_owned(),
        key_mgmt: KeyMgmt::Sae,
        psk: password.to_owned(),
    }
}

/// How a connect request is carried out against the daemon.
#[derive(Debug, Clone)]
pub enum ConnectPlan {
    /// Reactivate an existing saved profile.
    Reactivate { profile_path: String },
    /// Create a new profile from the given settings and activate it.
    AddAndActivate { settings: ProfileSettings },
}

/// Mathematical view of a connect plan.
pub enum ConnectPlanView {
    Reactivate { profile_path: Seq<char> },
    AddAndActivate { settings: ProfileSettingsView },
}

impl View for ConnectPlan {
    type V = ConnectPlanView;

    open spec fn view(&self) -> ConnectPlanView {
        match self {
            ConnectPlan::Reactivate { profile_path } => ConnectPlanView::Reactivate {
                profile_path: profile_path@,
            },
            ConnectPlan::AddAndActivate { settings } => ConnectPlanView::AddAndActivate {
                settings: settings@,
            },
        }
    }
}

/// View of an optional password argument.
pub open spec fn opt_pw_view(p: Option<&str>) -> Option<Seq<char>> {
    match p {
        Some(s) => Some(s@),
        None => None,
    }
}

/// A credential counts as absent when it is missing or empty.
pub open spec fn spec_credential_absent(p: Option<Seq<char>>) -> bool {
    match p {
        Some(s) => s.len() == 0,
        None => true,
    }
}

/// Choose the strategy for connecting to a network.
///
/// A saved profile is always reactivated, whatever credential came
/// along. Otherwise open networks connect with empty settings,
/// enterprise networks are rejected outright, and the secured kinds
/// demand a non-empty credential and pick their key management.
pub fn plan_connect(network: &Network, password: Option<&str>) -> (r: Result<
    ConnectPlan,
    NetError,
>)
    ensures
        network@.connection_path matches Some(p) ==> (r matches Ok(plan) && plan@
            == ConnectPlanView::Reactivate { profile_path: p }),
        network@.connection_path is None && network.security == SecurityType::Open ==> (r matches Ok(
            plan,
        ) && plan@ == ConnectPlanView::AddAndActivate { settings: ProfileSettingsView::Open }),
        network@.connection_path is None && network.security == SecurityType::Enterprise
            ==> (r matches Err(e) && e == NetError::UnsupportedSecurity),
        network@.connection_path is None && (network.security == SecurityType::WPA2
            || network.security == SecurityType::WPA3) && spec_credential_absent(
            opt_pw_view(password),
        ) ==> (r matches Err(e) && e == NetError::CredentialRequired),
        network@.connection_path is None && network.security == SecurityType::WPA2
            && !spec_credential_absent(opt_pw_view(password)) ==> (r matches Ok(plan) && plan@
            == ConnectPlanView::AddAndActivate {
            settings: ProfileSettingsView::Secured {
                ssid: network@.ssid,
                key_mgmt: KeyMgmt::WpaPsk,
                psk: opt_pw_view(password)->Some_0,
            },
        }),
        network@.connection_path is None && network.security == SecurityType::WPA3
            && !spec_credential_absent(opt_pw_view(password)) ==> (r matches Ok(plan) && plan@
            == ConnectPlanView::AddAndActivate {
            settings: ProfileSettingsView::Secured {
                ssid: network@.ssid,
                key_mgmt: KeyMgmt::Sae,
                psk: opt_pw_view(password)->Some_0,
            },
        }),
{
    if let Some(profile_path) = &network.connection_path {
        return Ok(ConnectPlan::Reactivate { profile_path: profile_path.clone() });
    }
    match network.security {
        SecurityType::Open => Ok(ConnectPlan::AddAndActivate { settings: build_open_settings() }),
        SecurityType::Enterprise => Err(NetError::UnsupportedSecurity),
        SecurityType::WPA2 => match password {
            Some(pw) => if pw.is_empty() {
                Err(NetError::CredentialRequired)
            } else {
                Ok(ConnectPlan::AddAndActivate {
                    settings: build_wpa_psk_settings(network.ssid.as_str(), pw),
                })
            },
            None => Err(NetError::CredentialRequired),
        },
        SecurityType::WPA3 => match password {
            Some(pw) => if pw.is_empty() {
                Err(NetError::CredentialRequired)
            } else {
                Ok(ConnectPlan::AddAndActivate {
                    settings: build_wpa3_settings(network.ssid.as_str(), pw),
                })
            },
            None => Err(NetError::CredentialRequired),
        },
    }
}

/// Resolve a disconnect request: without an active connection it fails
/// with `NotConnected`, otherwise that connection is the one to drop.
pub fn plan_disconnect(active_connection: &Option<String>) -> (r: Result<String, NetError>)
    ensures
        active_connection matches Some(c) ==> (r matches Ok(p) && p@ == c@),
        active_connection is None ==> (r matches Err(e) && e == NetError::NotConnected),
{
    match active_connection {
        Some(c) => Ok(c.clone()),
        None => Err(NetError::NotConnected),
    }
}

/// Resolve a forget request: the saved profile for the SSID is the one
/// to delete; without one it fails with `NoSavedProfile`.
pub fn plan_forget(saved: &Vec<SavedProfile>, ssid: &str) -> (r: Result<String, NetError>)
    ensures
        spec_saved_path(saved_views(saved@), ssid@) matches Some(p) ==> (r matches Ok(rp) && rp@
            == p),
        spec_saved_path(saved_views(saved@), ssid@) is None ==> (r matches Err(e) && e
            == NetError::NoSavedProfile),
{
    match saved_lookup(saved, ssid) {
        Some(path) => Ok(path),
        None => Err(NetError::NoSavedProfile),
    }
}

/// What tapping a network row does: the connected network disconnects,
/// a saved or open one connects directly, anything else asks for a
/// password first.
#[derive(Debug, Clone, Copy, PartialEq, Eq, Structural)]
pub enum NetworkTapAction {
    Disconnect,
    ConnectDirect,
    AskPassword,
}

/// Choose the action a tap on a network row triggers.
pub fn plan_network_tap(network: &Network) -> (a: NetworkTapAction)
    ensures
        network.is_connected ==> a == NetworkTapAction::Disconnect,
        !network.is_connected && (network.is_saved || network.security == SecurityType::Open)
            ==> a == NetworkTapAction::ConnectDirect,
        !network.is_connected && !network.is_saved && network.security != SecurityType::Open
            ==> a == NetworkTapAction::AskPassword,
{
    if network.is_connected {
        NetworkTapAction::Disconnect
    } else if network.is_saved || matches!(network.security, SecurityType::Open) {
        NetworkTapAction::ConnectDirect
    } else {
        NetworkTapAction::AskPassword
    }
}

/// Phase of one connection attempt.
#[derive(Debug, Clone, Copy, PartialEq, Eq, Structural)]
pub enum ConnectionPhase {
    Idle,
    Connecting,
    Connected,
    Disconnecting,
    Failed,
}

/// What happened to the attempt since the last look.
#[derive(Debug, Clone, Copy, PartialEq, Eq, Structural)]
pub enum ConnectionEvent {
    Begin,
    Succeeded,
    Failed,
    BeginDisconnect,
    DisconnectDone,
}

/// Where one connection attempt goes on each event; events that make no
/// sense in a phase leave it alone.
pub open spec fn spec_connection_step(phase: ConnectionPhase, ev: ConnectionEvent)
    -> ConnectionPhase {
    match (phase, ev) {
        (ConnectionPhase::Idle, ConnectionEvent::Begin) => ConnectionPhase::Connecting,
        (ConnectionPhase::Connecting, ConnectionEvent::Succeeded) => ConnectionPhase::Connected,
        (ConnectionPhase::Connecting, ConnectionEvent::Failed) => ConnectionPhase::Failed,
        (ConnectionPhase::Connected, ConnectionEvent::BeginDisconnect)
            => ConnectionPhase::Disconnecting,
        (ConnectionPhase::Disconnecting, ConnectionEvent::DisconnectDone) => ConnectionPhase::Idle,
        _ => phase,
    }
}

/// Advance one connection attempt by one observed event.
pub fn connection_step(phase: ConnectionPhase, ev: ConnectionEvent) -> (next: ConnectionPhase)
    ensures
        next == spec_connection_step(phase, ev),
{
    match (phase, ev) {
        (ConnectionPhase::Idle, ConnectionEvent::Begin) => ConnectionPhase::Connecting,
        (ConnectionPhase::Connecting, ConnectionEvent::Succeeded) => ConnectionPhase::Connected,
        (ConnectionPhase::Connecting, ConnectionEvent::Failed) => ConnectionPhase::Failed,
        (ConnectionPhase::Connected, ConnectionEvent::BeginDisconnect)
            => ConnectionPhase::Disconnecting,
        (ConnectionPhase::Disconnecting, ConnectionEvent::DisconnectDone) => ConnectionPhase::Idle,
        (p, _) => p,
    }
}

} // verus!
