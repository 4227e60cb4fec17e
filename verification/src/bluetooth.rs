//! Bluetooth reconciliation and pairing orchestration: building the
//! sorted device list from raw daemon objects, choosing the action a
//! device tap triggers, and the pair, trust, connect sequence.

use vstd::prelude::*;
use vstd::string::StringExecFns;

use crate::bluetooth_device::{
    device_from_props, device_views, sort_devices, spec_device_of, spec_devices_sorted,
    BluetoothDevice, DeviceProps, DevicePropsView,
};
use crate::text::{contains_str, spec_contains_sub, spec_starts_with, starts_with_str};

verus! {

/// One object the daemon reports: its path and, when it is a device,
/// its properties.
pub struct DeviceEntry {
    pub path: String,
    pub props: DeviceProps,
}

/// Mathematical view of a reported object.
pub struct DeviceEntryView {
    pub path: Seq<char>,
    pub props: DevicePropsView,
}

impl View for DeviceEntry {
    type V = DeviceEntryView;

    open spec fn view(&self) -> DeviceEntryView {
        DeviceEntryView { path: self.path@, props: self.props@ }
    }
}

/// Views of a sequence of reported objects.
pub open spec fn entry_views(s: Seq<DeviceEntry>) -> Seq<DeviceEntryView> {
    s.map_values(|e: DeviceEntry| e@)
}

/// An object belongs to the adapter when its path sits under the
/// adapter's path.
pub open spec fn spec_under_adapter(path: Seq<char>, adapter: Seq<char>) -> bool {
    spec_starts_with(path, adapter + "/"@)
}

/// The device records a reconciliation pass derives from the daemon's
/// objects: every device object under the adapter, parsed defensively.
pub open spec fn spec_reconciled_devices(entries: Seq<DeviceEntryView>, adapter: Seq<char>)
    -> Seq<crate::bluetooth_device::DeviceView> {
    entries.filter(|e: DeviceEntryView| spec_under_adapter(e.path, adapter)).map_values(
        |e: DeviceEntryView| spec_device_of(e.path, e.props),
    )
}

/// Build the device list shown to the user: keep the objects under the
/// adapter, parse each into a record, and sort connected first, then
/// paired, then by case-insensitive name.
pub fn build_device_list(entries: Vec<DeviceEntry>, adapter_path: &str) -> (r: Vec<
    BluetoothDevice,
>)
    ensures
        device_views(r@).to_multiset() == spec_reconciled_devices(
            entry_views(entries@),
            adapter_path@,
        ).to_multiset(),
        spec_devices_sorted(device_views(r@)),
{
    broadcast use vstd::seq_lib::group_to_multiset_ensures;

    let ghost orig = entry_views(entries@);
    let ghost keep = |e: DeviceEntryView| spec_under_adapter(e.path, adapter_path@);

    let mut prefix = adapter_path.to_owned();
    prefix.append("/");

    let mut rest = entries;
    let mut out: Vec<BluetoothDevice> = Vec::new();
    let ghost mut done: int = 0;

    proof {
        assert(orig.take(0) =~= Seq::<DeviceEntryView>::empty());
        assert(orig.take(0).filter(keep) =~= Seq::<DeviceEntryView>::empty());
    }

    while rest.len() > 0
        invariant
            0 <= done <= orig.len(),
            entry_views(rest@) =~= orig.skip(done),
            prefix@ == adapter_path@ + "/"@,
            keep == (|e: DeviceEntryView| spec_under_adapter(e.path, adapter_path@)),
            device_views(out@) =~= orig.take(done).filter(keep).map_values(
                |e: DeviceEntryView| spec_device_of(e.path, e.props),
            ),
        decreases rest@.len(),
    {
        let ghost pre_rest = entry_views(rest@);
        let ghost pre_out = device_views(out@);
        let e = rest.remove(0);
        proof {
            assert(entry_views(rest@) =~= pre_rest.remove(0));
            assert(pre_rest.remove(0) =~= orig.skip(done + 1));
            assert(pre_rest[0] == orig.skip(done)[0]);
            assert(e@ == pre_rest[0]);
        }
        let under = starts_with_str(e.path.as_str(), prefix.as_str());
        if under {
            let d = device_from_props(e.path.as_str(), e.props);
            out.push(d);
        }
        proof {
            reveal_with_fuel(Seq::filter, 2);
            let f = |e2: DeviceEntryView| spec_device_of(e2.path, e2.props);
            assert(orig.take(done + 1) =~= orig.take(done) + seq![orig[done]]);
            Seq::filter_distributes_over_add(
                orig.take(done),
                seq![orig[done]],
                keep,
            );
            assert(seq![orig[done]].drop_last() =~= Seq::<DeviceEntryView>::empty());
            assert(Seq::<DeviceEntryView>::empty().filter(keep) =~= Seq::<
                DeviceEntryView,
            >::empty());
            if keep(orig[done]) {
                assert(seq![orig[done]].filter(keep) =~= seq![orig[done]]);
                assert(device_views(out@) =~= pre_out.push(f(orig[done])));
                assert(orig.take(done + 1).filter(keep).map_values(f) =~= orig.take(done).filter(
                    keep,
                ).map_values(f).push(f(orig[done])));
            } else {
                assert(seq![orig[done]].filter(keep) =~= Seq::<DeviceEntryView>::empty());
                assert(orig.take(done + 1).filter(keep) =~= orig.take(done).filter(keep));
            }
            done = done + 1;
        }
    }
    proof {
        assert(orig.take(done) =~= orig);
    }
    sort_devices(&mut out);
    out
}

/// What tapping a device row does: a connected device is disconnected
/// (toggle semantics), a paired one is connected, an unpaired one goes
/// through the pair, trust, connect sequence.
#[derive(Debug, Clone, Copy, PartialEq, Eq, Structural)]
pub enum DeviceAction {
    Disconnect,
    ConnectOnly,
    PairTrustConnect,
}

/// Choose the action a tap on a device triggers.
pub fn plan_device_action(device: &BluetoothDevice) -> (a: DeviceAction)
    ensures
        device.connected ==> a == DeviceAction::Disconnect,
        !device.connected && device.paired ==> a == DeviceAction::ConnectOnly,
        !device.connected && !device.paired ==> a == DeviceAction::PairTrustConnect,
{
    if device.connected {
        DeviceAction::Disconnect
    } else if device.paired {
        DeviceAction::ConnectOnly
    } else {
        DeviceAction::PairTrustConnect
    }
}

/// Phase of the pair, trust, connect sequence for an unpaired device.
#[derive(Debug, Clone, Copy, PartialEq, Eq, Structural)]
pub enum PairFlowPhase {
    Pairing,
    Trusting,
    Connecting,
    Done,
    Failed,
}

/// Where the pairing sequence goes after one completed daemon call.
/// Only the pairing step can fail it; the trust and connect outcomes do
/// not block the sequence, and the final states absorb.
pub open spec fn spec_pair_flow_step(phase: PairFlowPhase, succeeded: bool) -> PairFlowPhase {
    match phase {
        PairFlowPhase::Pairing => if succeeded {
            PairFlowPhase::Trusting
        } else {
            PairFlowPhase::Failed
        },
        PairFlowPhase::Trusting => PairFlowPhase::Connecting,
        PairFlowPhase::Connecting => PairFlowPhase::Done,
        PairFlowPhase::Done => PairFlowPhase::Done,
        PairFlowPhase::Failed => PairFlowPhase::Failed,
    }
}

/// Advance the pairing sequence by one completed daemon call.
///
/// Only the pairing step can fail the flow: a failed pairing surfaces a
/// failure (no out-of-band PIN entry is attempted), while the outcomes
/// of the trust and connect calls do not block the sequence. A freshly
/// paired device is always marked trusted before the connect step.
pub fn pair_flow_step(phase: PairFlowPhase, succeeded: bool) -> (next: PairFlowPhase)
    ensures
        next == spec_pair_flow_step(phase, succeeded),
{
    match phase {
        PairFlowPhase::Pairing => if succeeded {
            PairFlowPhase::Trusting
        } else {
            PairFlowPhase::Failed
        },
        PairFlowPhase::Trusting => PairFlowPhase::Connecting,
        PairFlowPhase::Connecting => PairFlowPhase::Done,
        PairFlowPhase::Done => PairFlowPhase::Done,
        PairFlowPhase::Failed => PairFlowPhase::Failed,
    }
}

/// The connect step is only ever reached through the trust step: a
/// paired device is marked trusted before any connect is attempted.
pub proof fn lemma_trust_precedes_connect(phase: PairFlowPhase, succeeded: bool)
    ensures
        spec_pair_flow_step(phase, succeeded) == PairFlowPhase::Connecting ==> phase
            == PairFlowPhase::Trusting,
{
}

/// Whether a failure to start discovery is benign: discovery already
/// running is not an error.
pub fn start_discovery_error_is_benign(msg: &str) -> (r: bool)
    ensures
        r == (spec_contains_sub(msg@, "InProgress"@) || spec_contains_sub(msg@, "Already"@)),
{
    contains_str(msg, "InProgress") || contains_str(msg, "Already")
}

/// Whether a failure to stop discovery is benign: discovery not being
/// active is not an error.
pub fn stop_discovery_error_is_benign(msg: &str) -> (r: bool)
    ensures
        r == (spec_contains_sub(msg@, "NotReady"@) || spec_contains_sub(msg@, "NotAuthorized"@)),
{
    contains_str(msg, "NotReady") || contains_str(msg, "NotAuthorized")
}

/// Index of the first connected device, the one named in the status
/// line; `None` when no device is connected.
pub fn first_connected_index(devices: &Vec<BluetoothDevice>) -> (r: Option<usize>)
    ensures
        match r {
            Some(i) => i < devices@.len() && devices@[i as int].connected && forall|j: int|
                0 <= j < i ==> !devices@[j].connected,
            None => forall|j: int| 0 <= j < devices@.len() ==> !devices@[j].connected,
        },
{
    let mut i: usize = 0;
    while i < devices.len()
        invariant
            0 <= i <= devices@.len(),
            forall|j: int| 0 <= j < i ==> !devices@[j].connected,
        decreases devices@.len() - i,
    {
        if devices[i].connected {
            return Some(i);
        }
        i += 1;
    }
    None
}

} // verus!
