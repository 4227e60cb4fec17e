//! Panel visibility state and the live-update debounce policy.

use vstd::prelude::*;

verus! {

/// State shared between the command interface and the window: whether
/// the panel shows, and the one-shot flags the window's polling loops
/// pick up.
pub struct PanelState {
    /// Whether the panel is currently visible.
    pub visible: bool,
    /// Set by `show`; taken by the scan-on-show poll to trigger a scan.
    pub scan_requested: bool,
    /// Set by a reload command; taken by the reload poll.
    pub reload_requested: bool,
}

impl PanelState {
    /// A fresh panel starts hidden with no pending requests.
    pub fn new() -> (s: PanelState)
        ensures
            !s.visible,
            !s.scan_requested,
            !s.reload_requested,
    {
        PanelState { visible: false, scan_requested: false, reload_requested: false }
    }

    /// Show the panel and request the scan-on-show pass.
    pub fn show(&mut self)
        ensures
            final(self).visible,
            final(self).scan_requested,
            final(self).reload_requested == old(self).reload_requested,
    {
        self.visible = true;
        self.scan_requested = true;
    }

    /// Hide the panel.
    pub fn hide_panel(&mut self)
        ensures
            !final(self).visible,
            final(self).scan_requested == old(self).scan_requested,
            final(self).reload_requested == old(self).reload_requested,
    {
        self.visible = false;
    }

    /// Toggle visibility: hide when visible, show (with a scan request)
    /// when hidden.
    pub fn toggle(&mut self)
        ensures
            final(self).visible == !old(self).visible,
            old(self).visible ==> final(self).scan_requested == old(self).scan_requested,
            !old(self).visible ==> final(self).scan_requested,
            final(self).reload_requested == old(self).reload_requested,
    {
        if self.visible {
            self.hide_panel();
        } else {
            self.show();
        }
    }

    /// Take the pending scan request, clearing it: at most one scan
    /// pass runs per request.
    pub fn take_scan_request(&mut self) -> (r: bool)
        ensures
            r == old(self).scan_requested,
            !final(self).scan_requested,
            final(self).visible == old(self).visible,
            final(self).reload_requested == old(self).reload_requested,
    {
        let r = self.scan_requested;
        self.scan_requested = false;
        r
    }

    /// Ask for a configuration reload.
    pub fn request_reload(&mut self)
        ensures
            final(self).reload_requested,
            final(self).visible == old(self).visible,
            final(self).scan_requested == old(self).scan_requested,
    {
        self.reload_requested = true;
    }

    /// Take the pending reload request, clearing it.
    pub fn take_reload_request(&mut self) -> (r: bool)
        ensures
            r == old(self).reload_requested,
            !final(self).reload_requested,
            final(self).visible == old(self).visible,
            final(self).scan_requested == old(self).scan_requested,
    {
        let r = self.reload_requested;
        self.reload_requested = false;
        r
    }
}

/// The daemon signals the live-update loops subscribe to.
#[derive(Debug, Clone, Copy, PartialEq, Eq, Structural)]
pub enum SignalKind {
    /// The WiFi device's state changed: the heaviest signal, given the
    /// longest debounce so the daemon settles.
    DeviceStateChanged,
    /// An access point appeared.
    AccessPointAdded,
    /// A Bluetooth object appeared or changed.
    BluetoothInterfacesAdded,
}

/// Milliseconds each signal is debounced before one reconciliation
/// pass runs; the signal is only a trigger, the pass re-reads the
/// daemon's state fresh.
pub open spec fn spec_debounce_ms(k: SignalKind) -> u32 {
    match k {
        SignalKind::DeviceStateChanged => 500,
        SignalKind::AccessPointAdded => 300,
        SignalKind::BluetoothInterfacesAdded => 300,
    }
}

/// Debounce interval for one signal source.
pub fn debounce_interval_ms(k: SignalKind) -> (r: u32)
    ensures
        r == spec_debounce_ms(k),
        300 <= r <= 2000,
{
    match k {
        SignalKind::DeviceStateChanged => 500,
        SignalKind::AccessPointAdded => 300,
        SignalKind::BluetoothInterfacesAdded => 300,
    }
}

/// Wait after requesting a WiFi scan before reading the results; the
/// daemon gives no completion signal, so this is a heuristic.
pub const SCAN_SETTLE_MS: u32 = 1500;

/// Wait after starting Bluetooth discovery before reading devices.
pub const DISCOVERY_SETTLE_MS: u32 = 2000;

/// Wait after enabling a radio before the first scan.
pub const RADIO_ENABLE_SETTLE_MS: u32 = 2000;

/// Period of the polls for the cross-process scan and reload flags.
pub const FLAG_POLL_INTERVAL_MS: u32 = 200;

} // verus!
