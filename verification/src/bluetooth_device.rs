//! Bluetooth device records: category classification from icon hints,
//! defensive parsing of daemon-supplied properties, and the sort order
//! shown to the user (connected first, then paired, then name).

use vstd::prelude::*;

use crate::text::{lex_le, lower_of, lowercase, spec_lex_le, spec_starts_with, starts_with_str};

verus! {

/// Category of a Bluetooth device, derived from the daemon's icon hint.
#[derive(Debug, Clone, Copy, PartialEq, Eq, Structural)]
pub enum DeviceCategory {
    Audio,
    Input,
    Computer,
    Phone,
    Peripheral,
    Other,
}

/// The category an icon hint classifies to: the first matching known
/// prefix wins, anything unknown is `Other`.
pub open spec fn spec_category_of(icon: Seq<char>) -> DeviceCategory {
    if spec_starts_with(icon, "audio"@) {
        DeviceCategory::Audio
    } else if spec_starts_with(icon, "input"@) {
        DeviceCategory::Input
    } else if spec_starts_with(icon, "computer"@) {
        DeviceCategory::Computer
    } else if spec_starts_with(icon, "phone"@) {
        DeviceCategory::Phone
    } else if spec_starts_with(icon, "modem"@) || spec_starts_with(icon, "network"@)
        || spec_starts_with(icon, "printer"@) || spec_starts_with(icon, "camera"@)
        || spec_starts_with(icon, "video"@) {
        DeviceCategory::Peripheral
    } else {
        DeviceCategory::Other
    }
}

/// The fallback icon shown for each device category.
pub open spec fn spec_default_icon(c: DeviceCategory) -> Seq<char> {
    match c {
        DeviceCategory::Audio => "\u{f02cb}"@,
        DeviceCategory::Input => "\u{f030c}"@,
        DeviceCategory::Computer => "\u{f0379}"@,
        DeviceCategory::Phone => "\u{f03f2}"@,
        DeviceCategory::Peripheral => "\u{f043b}"@,
        DeviceCategory::Other => "\u{f00af}"@,
    }
}

impl DeviceCategory {
    /// Map a daemon icon string (e.g. "audio-headset") to a category.
    ///
    /// Total over all strings: unknown hints classify as `Other`.
    pub fn from_icon_hint(icon: &str) -> (c: DeviceCategory)
        ensures
            c == spec_category_of(icon@),
    {
        if starts_with_str(icon, "audio") {
            DeviceCategory::Audio
        } else if starts_with_str(icon, "input") {
            DeviceCategory::Input
        } else if starts_with_str(icon, "computer") {
            DeviceCategory::Computer
        } else if starts_with_str(icon, "phone") {
            DeviceCategory::Phone
        } else if starts_with_str(icon, "modem") || starts_with_str(icon, "network")
            || starts_with_str(icon, "printer") || starts_with_str(icon, "camera")
            || starts_with_str(icon, "video") {
            DeviceCategory::Peripheral
        } else {
            DeviceCategory::Other
        }
    }

    /// Default display icon for this device category.
    pub fn default_icon(&self) -> (r: &'static str)
        ensures
            r@ == spec_default_icon(*self),
    {
        match self {
            DeviceCategory::Audio => "\u{f02cb}",
            DeviceCategory::Input => "\u{f030c}",
            DeviceCategory::Computer => "\u{f0379}",
            DeviceCategory::Phone => "\u{f03f2}",
            DeviceCategory::Peripheral => "\u{f043b}",
            DeviceCategory::Other => "\u{f00af}",
        }
    }
}

/// A Bluetooth device as presented to the user.
#[derive(Debug, Clone)]
pub struct BluetoothDevice {
    /// Bluetooth hardware address (e.g. "AA:BB:CC:DD:EE:FF").
    pub address: String,
    /// Friendly display name (alias preferred, then name, then address).
    pub display_name: String,
    /// Category derived from the daemon's icon hint.
    pub category: DeviceCategory,
    /// Whether this device is paired.
    pub paired: bool,
    /// Whether this device is currently connected.
    pub connected: bool,
    /// Whether this device is trusted (auto-connect).
    pub trusted: bool,
    /// Signal strength (only meaningful during discovery, 0 otherwise).
    pub rssi: i16,
    /// Daemon object handle for this device.
    pub device_path: String,
}

/// Mathematical view of a Bluetooth device record.
pub struct DeviceView {
    pub address: Seq<char>,
    pub display_name: Seq<char>,
    pub category: DeviceCategory,
    pub paired: bool,
    pub connected: bool,
    pub trusted: bool,
    pub rssi: i16,
    pub device_path: Seq<char>,
}

impl View for BluetoothDevice {
    type V = DeviceView;

    open spec fn view(&self) -> DeviceView {
        DeviceView {
            address: self.address@,
            display_name: self.display_name@,
            category: self.category,
            paired: self.paired,
            connected: self.connected,
            trusted: self.trusted,
            rssi: self.rssi,
            device_path: self.device_path@,
        }
    }
}

impl BluetoothDevice {
    /// Sort key: connected first, then paired, then case-insensitive name.
    pub fn sort_key(&self) -> (r: (u8, u8, String))
        ensures
            r.0 == (if self.connected { 0u8 } else { 1u8 }),
            r.1 == (if self.paired { 0u8 } else { 1u8 }),
            r.2@ == lower_of(self.display_name@),
    {
        let connected_order: u8 = if self.connected { 0 } else { 1 };
        let paired_order: u8 = if self.paired { 0 } else { 1 };
        (connected_order, paired_order, lowercase(self.display_name.as_str()))
    }
}

/// Rank of a device in the relevance order: connected devices first,
/// then paired ones.
pub open spec fn spec_device_rank(d: DeviceView) -> int {
    (if d.connected { 0int } else { 2int }) + (if d.paired { 0int } else { 1int })
}

/// The list order shown to the user: by rank, ties broken by the
/// case-insensitive display name.
pub open spec fn spec_device_le(a: DeviceView, b: DeviceView) -> bool {
    spec_device_rank(a) < spec_device_rank(b) || (spec_device_rank(a) == spec_device_rank(b)
        && spec_lex_le(lower_of(a.display_name), lower_of(b.display_name)))
}

/// Any two devices are ordered one way or the other.
pub proof fn lemma_device_le_total(a: DeviceView, b: DeviceView)
    ensures
        spec_device_le(a, b) || spec_device_le(b, a),
{
    crate::text::lemma_lex_total(lower_of(a.display_name), lower_of(b.display_name));
}

/// The device order is transitive.
pub proof fn lemma_device_le_trans(a: DeviceView, b: DeviceView, c: DeviceView)
    requires
        spec_device_le(a, b),
        spec_device_le(b, c),
    ensures
        spec_device_le(a, c),
{
    if spec_device_rank(a) == spec_device_rank(b) && spec_device_rank(b) == spec_device_rank(c) {
        crate::text::lemma_lex_trans(
            lower_of(a.display_name),
            lower_of(b.display_name),
            lower_of(c.display_name),
        );
    }
}

/// A device sorted ahead of another is connected whenever the other is,
/// regardless of pairing: a connected-but-unpaired device precedes every
/// disconnected one, paired or not.
pub proof fn lemma_connected_sorts_first(a: DeviceView, b: DeviceView)
    requires
        a.connected,
        !b.connected,
    ensures
        spec_device_le(a, b),
        !spec_device_le(b, a),
{
}

/// Comparison used when sorting the device list.
fn device_le(a: &BluetoothDevice, b: &BluetoothDevice) -> (r: bool)
    ensures
        r == spec_device_le(a@, b@),
{
    let ra: u8 = (if a.connected { 0u8 } else { 2u8 }) + (if a.paired { 0u8 } else { 1u8 });
    let rb: u8 = (if b.connected { 0u8 } else { 2u8 }) + (if b.paired { 0u8 } else { 1u8 });
    if ra < rb {
        true
    } else if ra > rb {
        false
    } else {
        let la = lowercase(a.display_name.as_str());
        let lb = lowercase(b.display_name.as_str());
        lex_le(la.as_str(), lb.as_str())
    }
}

/// Raw properties of one device as the daemon reports them; every field
/// is optional and parsing defaults the missing ones.
pub struct DeviceProps {
    pub address: Option<String>,
    pub name: Option<String>,
    pub alias: Option<String>,
    pub icon: Option<String>,
    pub paired: Option<bool>,
    pub connected: Option<bool>,
    pub trusted: Option<bool>,
    pub rssi: Option<i16>,
}

/// Mathematical view of a raw property set.
pub struct DevicePropsView {
    pub address: Option<Seq<char>>,
    pub name: Option<Seq<char>>,
    pub alias: Option<Seq<char>>,
    pub icon: Option<Seq<char>>,
    pub paired: Option<bool>,
    pub connected: Option<bool>,
    pub trusted: Option<bool>,
    pub rssi: Option<i16>,
}

impl View for DeviceProps {
    type V = DevicePropsView;

    open spec fn view(&self) -> DevicePropsView {
        DevicePropsView {
            address: match self.address {
                Some(ref s) => Some(s@),
                None => None,
            },
            name: match self.name {
                Some(ref s) => Some(s@),
                None => None,
            },
            alias: match self.alias {
                Some(ref s) => Some(s@),
                None => None,
            },
            icon: match self.icon {
                Some(ref s) => Some(s@),
                None => None,
            },
            paired: self.paired,
            connected: self.connected,
            trusted: self.trusted,
            rssi: self.rssi,
        }
    }
}

/// A missing string property defaults to empty.
pub open spec fn opt_seq_or_empty(o: Option<Seq<char>>) -> Seq<char> {
    match o {
        Some(s) => s,
        None => Seq::empty(),
    }
}

/// A missing boolean property defaults to false.
pub open spec fn opt_bool_or_false(o: Option<bool>) -> bool {
    match o {
        Some(b) => b,
        None => false,
    }
}

/// A missing signal-strength property defaults to zero.
pub open spec fn opt_rssi_or_zero(o: Option<i16>) -> i16 {
    match o {
        Some(v) => v,
        None => 0,
    }
}

/// Display name resolution: alias, then name, then address — the first
/// non-empty wins.
pub open spec fn spec_display_name(p: DevicePropsView) -> Seq<char> {
    let alias = opt_seq_or_empty(p.alias);
    let name = opt_seq_or_empty(p.name);
    if alias.len() > 0 {
        alias
    } else if name.len() > 0 {
        name
    } else {
        opt_seq_or_empty(p.address)
    }
}

/// The device record a property set parses to.
pub open spec fn spec_device_of(path: Seq<char>, p: DevicePropsView) -> DeviceView {
    DeviceView {
        address: opt_seq_or_empty(p.address),
        display_name: spec_display_name(p),
        category: spec_category_of(opt_seq_or_empty(p.icon)),
        paired: opt_bool_or_false(p.paired),
        connected: opt_bool_or_false(p.connected),
        trusted: opt_bool_or_false(p.trusted),
        rssi: opt_rssi_or_zero(p.rssi),
        device_path: path,
    }
}

/// Parse one device's raw properties into a record, defaulting every
/// missing field; never fails.
pub fn device_from_props(path: &str, props: DeviceProps) -> (d: BluetoothDevice)
    ensures
        d@ == spec_device_of(path@, props@),
{
    let ghost gprops = props@;
    let address = match props.address {
        Some(a) => a,
        None => String::new(),
    };
    let name = match props.name {
        Some(n) => n,
        None => String::new(),
    };
    let alias = match props.alias {
        Some(a) => a,
        None => String::new(),
    };
    let icon = match props.icon {
        Some(i) => i,
        None => String::new(),
    };

    let display_name = if !alias.as_str().is_empty() {
        alias
    } else if !name.as_str().is_empty() {
        name
    } else {
        address.clone()
    };

    let category = DeviceCategory::from_icon_hint(icon.as_str());

    let d = BluetoothDevice {
        address,
        display_name,
        category,
        paired: match props.paired {
            Some(b) => b,
            None => false,
        },
        connected: match props.connected {
            Some(b) => b,
            None => false,
        },
        trusted: match props.trusted {
            Some(b) => b,
            None => false,
        },
        rssi: match props.rssi {
            Some(v) => v,
            None => 0,
        },
        device_path: path.to_owned(),
    };
    proof {
        assert(d@.address =~= spec_device_of(path@, gprops).address);
        assert(d@.display_name =~= spec_device_of(path@, gprops).display_name);
        assert(d@.device_path =~= spec_device_of(path@, gprops).device_path);
    }
    d
}

/// The device sequence is sorted by the relevance order.
pub open spec fn spec_devices_sorted(s: Seq<DeviceView>) -> bool {
    forall|i: int, j: int| 0 <= i < j < s.len() ==> spec_device_le(s[i], s[j])
}

/// Views of a device sequence.
pub open spec fn device_views(s: Seq<BluetoothDevice>) -> Seq<DeviceView> {
    s.map_values(|d: BluetoothDevice| d@)
}

/// Sort the device list: connected first, then paired, then by
/// case-insensitive display name. Keeps exactly the same records.
pub fn sort_devices(v: &mut Vec<BluetoothDevice>)
    ensures
        device_views(final(v)@).to_multiset() == device_views(old(v)@).to_multiset(),
        spec_devices_sorted(device_views(final(v)@)),
{
    broadcast use vstd::seq_lib::group_to_multiset_ensures;
    broadcast use vstd::multiset::group_multiset_axioms;

    let ghost orig = device_views(v@);
    if v.len() < 2 {
        return ;
    }
    let mut i: usize = 1;
    while i < v.len()
        invariant
            1 <= i <= v@.len(),
            device_views(v@).to_multiset() == orig.to_multiset(),
            v@.len() == old(v)@.len(),
            orig == device_views(old(v)@),
            spec_devices_sorted(device_views(v@).take(i as int)),
        decreases v@.len() - i,
    {
        let ghost pre = device_views(v@);
        let x = v.remove(i);
        proof {
            assert(device_views(v@) =~= pre.remove(i as int));
        }
        let mut p: usize = 0;
        while p < i && device_le(&v[p], &x)
            invariant
                0 <= p <= i,
                i < pre.len(),
                v@.len() == pre.len() - 1,
                device_views(v@) == pre.remove(i as int),
                spec_devices_sorted(pre.take(i as int)),
                x@ == pre[i as int],
                forall|q: int| 0 <= q < p ==> spec_device_le(device_views(v@)[q], x@),
            decreases i - p,
        {
            p += 1;
        }
        let ghost mid = device_views(v@);
        v.insert(p, x);
        proof {
            assert(device_views(v@) =~= mid.insert(p as int, x@));
            assert(pre.contains(pre[i as int]));
            vstd::seq_lib::to_multiset_remove::<DeviceView>(pre, i as int);
            vstd::seq_lib::to_multiset_insert::<DeviceView>(mid, p as int, x@);
            vstd::seq_lib::to_multiset_contains::<DeviceView>(pre, x@);
            assert(pre.to_multiset().count(x@) > 0);
            assert(device_views(v@).to_multiset() =~= pre.to_multiset());
            assert forall|a: int, b: int| 0 <= a < b < i + 1 implies spec_device_le(
                device_views(v@)[a],
                device_views(v@)[b],
            ) by {
                let w = device_views(v@);
                let pi = p as int;
                if b < pi {
                    assert(w[a] == pre[a] && w[b] == pre[b]);
                } else if a < pi && b == pi {
                    assert(w[a] == mid[a]);
                } else if a < pi && b > pi {
                    assert(w[a] == pre[a] && w[b] == pre[b - 1]);
                    if a < b - 1 {
                    } else {
                        assert(a == b - 1);
                        assert(b - 1 == pi);
                        assert(false);
                    }
                } else if a == pi {
                    assert(w[b] == mid[b - 1] && mid[b - 1] == pre[b - 1]);
                    if pi < i {
                        lemma_device_le_total(mid[pi], x@);
                        assert(spec_device_le(x@, mid[pi]));
                        if b - 1 > pi {
                            lemma_device_le_trans(x@, mid[pi], mid[b - 1]);
                        }
                    } else {
                        assert(false);
                    }
                } else {
                    assert(w[a] == pre[a - 1] && w[b] == pre[b - 1]);
                }
            }
            assert(spec_devices_sorted(device_views(v@).take(i + 1)));
        }
        i += 1;
    }
    proof {
        if v@.len() > 0 {
            assert(device_views(v@).take(v@.len() as int) =~= device_views(v@));
        }
    }
}

} // verus!
