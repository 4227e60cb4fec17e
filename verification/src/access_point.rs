//! WiFi access-point classification: security type and frequency band.

use vstd::prelude::*;

verus! {

/// Security type of a WiFi network, in increasing order of specificity
/// used by the classifier.
#[derive(Debug, Clone, Copy, PartialEq, Eq, Structural)]
pub enum SecurityType {
    Open,
    WPA2,
    WPA3,
    Enterprise,
}

/// Frequency band of a WiFi network.
#[derive(Debug, Clone, Copy, PartialEq, Eq, Structural)]
pub enum Band {
    TwoGhz,
    FiveGhz,
}

/// Threshold (MHz) above which a frequency counts as 5 GHz.
pub const FIVE_GHZ_THRESHOLD_MHZ: u32 = 4900;

impl Band {
    /// Classify a frequency in MHz into a band.
    pub fn from_frequency(freq: u32) -> (b: Band)
        ensures
            b == spec_band_of(freq),
    {
        if freq >= FIVE_GHZ_THRESHOLD_MHZ {
            Band::FiveGhz
        } else {
            Band::TwoGhz
        }
    }
}

/// Band a frequency in MHz belongs to: at or above the 5 GHz threshold
/// it is 5 GHz, below it 2.4 GHz.
pub open spec fn spec_band_of(freq: u32) -> Band {
    if freq >= FIVE_GHZ_THRESHOLD_MHZ {
        Band::FiveGhz
    } else {
        Band::TwoGhz
    }
}

/// The code the network daemon uses for each band in access-point mode.
pub open spec fn spec_band_code(b: Band) -> Seq<char> {
    match b {
        Band::TwoGhz => "bg"@,
        Band::FiveGhz => "a"@,
    }
}

impl Band {
    /// The daemon's code for this band in access-point mode.
    pub fn ap_mode_code(&self) -> (r: &'static str)
        ensures
            r@ == spec_band_code(*self),
    {
        match self {
            Band::TwoGhz => "bg",
            Band::FiveGhz => "a",
        }
    }
}

/// Access-point flag bit: privacy (the network requires encryption).
pub const AP_FLAG_PRIVACY: u32 = 0x1;

/// Security flag bit: pre-shared-key (WPA/WPA2) key management.
pub const AP_SEC_KEY_MGMT_PSK: u32 = 0x100;

/// Security flag bit: 802.1X (enterprise) key management.
pub const AP_SEC_KEY_MGMT_802_1X: u32 = 0x200;

/// Security flag bit: SAE (WPA3) key management.
pub const AP_SEC_KEY_MGMT_SAE: u32 = 0x400;

/// The security type the flag triple of an access point classifies to.
/// Priority: Enterprise (802.1X), then WPA3 (SAE), then WPA2 (PSK),
/// then the bare privacy bit (treated as WPA2), else Open.
pub open spec fn spec_security_of(flags: u32, wpa_flags: u32, rsn_flags: u32) -> SecurityType {
    let all = wpa_flags | rsn_flags;
    if all & AP_SEC_KEY_MGMT_802_1X != 0 {
        SecurityType::Enterprise
    } else if all & AP_SEC_KEY_MGMT_SAE != 0 {
        SecurityType::WPA3
    } else if all & AP_SEC_KEY_MGMT_PSK != 0 {
        SecurityType::WPA2
    } else if flags & AP_FLAG_PRIVACY != 0 {
        SecurityType::WPA2
    } else {
        SecurityType::Open
    }
}

/// Classify an access point's flag triple into a security type.
///
/// Total over all flag values; the first matching key-management bit wins,
/// stronger/more specific schemes taking priority.
pub fn security_from_flags(flags: u32, wpa_flags: u32, rsn_flags: u32) -> (s: SecurityType)
    ensures
        s == spec_security_of(flags, wpa_flags, rsn_flags),
{
    let all_sec_flags = wpa_flags | rsn_flags;

    if all_sec_flags & AP_SEC_KEY_MGMT_802_1X != 0 {
        return SecurityType::Enterprise;
    }

    if all_sec_flags & AP_SEC_KEY_MGMT_SAE != 0 {
        return SecurityType::WPA3;
    }

    if all_sec_flags & AP_SEC_KEY_MGMT_PSK != 0 {
        return SecurityType::WPA2;
    }

    // Bare privacy bit (legacy encryption): treat as secured.
    if flags & AP_FLAG_PRIVACY != 0 {
        return SecurityType::WPA2;
    }

    SecurityType::Open
}

/// A WiFi network as presented to the user: the de-duplicated, SSID-keyed
/// entity, possibly backed by several physical access points.
#[derive(Debug, Clone)]
pub struct Network {
    pub ssid: String,
    /// Signal strength, 0 to 100, of the strongest backing access point.
    pub strength: u8,
    pub security: SecurityType,
    pub is_connected: bool,
    pub is_saved: bool,
    pub band: Band,
    /// Handle of the strongest access point for this SSID (used when connecting).
    pub ap_path: String,
    /// Handle of the saved connection profile, if any.
    pub connection_path: Option<String>,
}

/// Mathematical view of a network record.
pub struct NetworkView {
    pub ssid: Seq<char>,
    pub strength: u8,
    pub security: SecurityType,
    pub is_connected: bool,
    pub is_saved: bool,
    pub band: Band,
    pub ap_path: Seq<char>,
    pub connection_path: Option<Seq<char>>,
}

impl View for Network {
    type V = NetworkView;

    open spec fn view(&self) -> NetworkView {
        NetworkView {
            ssid: self.ssid@,
            strength: self.strength,
            security: self.security,
            is_connected: self.is_connected,
            is_saved: self.is_saved,
            band: self.band,
            ap_path: self.ap_path@,
            connection_path: match self.connection_path {
                Some(ref p) => Some(p@),
                None => None,
            },
        }
    }
}

} // verus!
