//! WiFi reconciliation: turn the raw access points visible to the radio,
//! the active access-point handle, and the saved profiles into the
//! de-duplicated, ranked network list shown to the user.

use vstd::prelude::*;

use crate::access_point::{
    security_from_flags, spec_band_of, spec_security_of, Band, Network, NetworkView,
};
use crate::text::str_eq;

verus! {

/// One access point as the scan reports it.
pub struct ApScan {
    /// SSID decoded from the daemon's byte string; empty for hidden networks.
    pub ssid: String,
    /// Signal strength, 0 to 100.
    pub strength: u8,
    /// Radio frequency in MHz.
    pub frequency: u32,
    /// Access-point flags (privacy bit).
    pub flags: u32,
    /// WPA security flags.
    pub wpa_flags: u32,
    /// RSN security flags.
    pub rsn_flags: u32,
    /// Daemon handle of this access point.
    pub ap_path: String,
}

/// Mathematical view of a scanned access point.
pub struct ApScanView {
    pub ssid: Seq<char>,
    pub strength: u8,
    pub frequency: u32,
    pub flags: u32,
    pub wpa_flags: u32,
    pub rsn_flags: u32,
    pub ap_path: Seq<char>,
}

impl View for ApScan {
    type V = ApScanView;

    open spec fn view(&self) -> ApScanView {
        ApScanView {
            ssid: self.ssid@,
            strength: self.strength,
            frequency: self.frequency,
            flags: self.flags,
            wpa_flags: self.wpa_flags,
            rsn_flags: self.rsn_flags,
            ap_path: self.ap_path@,
        }
    }
}

/// A saved connection profile: its SSID and its daemon handle.
pub struct SavedProfile {
    pub ssid: String,
    pub path: String,
}

/// Mathematical view of a saved profile.
pub struct SavedProfileView {
    pub ssid: Seq<char>,
    pub path: Seq<char>,
}

impl View for SavedProfile {
    type V = SavedProfileView;

    open spec fn view(&self) -> SavedProfileView {
        SavedProfileView { ssid: self.ssid@, path: self.path@ }
    }
}

/// Views of a sequence of scanned access points.
pub open spec fn ap_views(s: Seq<ApScan>) -> Seq<ApScanView> {
    s.map_values(|a: ApScan| a@)
}

/// Views of a sequence of saved profiles.
pub open spec fn saved_views(s: Seq<SavedProfile>) -> Seq<SavedProfileView> {
    s.map_values(|p: SavedProfile| p@)
}

/// Views of a sequence of network records.
pub open spec fn net_views(s: Seq<Network>) -> Seq<NetworkView> {
    s.map_values(|n: Network| n@)
}

/// View of an optional string.
pub open spec fn opt_str_view(o: Option<String>) -> Option<Seq<char>> {
    match o {
        Some(s) => Some(s@),
        None => None,
    }
}

/// Handle of the first saved profile with the given SSID, if any.
pub open spec fn spec_saved_path(saved: Seq<SavedProfileView>, ssid: Seq<char>) -> Option<
    Seq<char>,
>
    decreases saved.len(),
{
    if saved.len() == 0 {
        None
    } else if saved[0].ssid == ssid {
        Some(saved[0].path)
    } else {
        spec_saved_path(saved.drop_first(), ssid)
    }
}

/// The network record one access point reconciles to, given the active
/// access-point handle and the saved profiles: connectivity is decided
/// by handle identity, saved state by SSID.
pub open spec fn spec_record_of(
    ap: ApScanView,
    active: Option<Seq<char>>,
    saved: Seq<SavedProfileView>,
) -> NetworkView {
    NetworkView {
        ssid: ap.ssid,
        strength: ap.strength,
        security: spec_security_of(ap.flags, ap.wpa_flags, ap.rsn_flags),
        is_connected: match active {
            Some(a) => a == ap.ap_path,
            None => false,
        },
        is_saved: spec_saved_path(saved, ap.ssid) is Some,
        band: spec_band_of(ap.frequency),
        ap_path: ap.ap_path,
        connection_path: spec_saved_path(saved, ap.ssid),
    }
}

/// No access point with this SSID is stronger than `s`.
pub open spec fn spec_is_max_for(apv: Seq<ApScanView>, ssid: Seq<char>, s: u8) -> bool {
    forall|k: int| 0 <= k < apv.len() && (#[trigger] apv[k]).ssid == ssid ==> apv[k].strength <= s
}

/// `n` is the reconciliation of one of the visible access points, at the
/// maximal strength observed for its SSID.
pub open spec fn spec_represents(
    apv: Seq<ApScanView>,
    active: Option<Seq<char>>,
    saved: Seq<SavedProfileView>,
    n: NetworkView,
) -> bool {
    exists|k: int|
        0 <= k < apv.len() && (#[trigger] apv[k]).ssid.len() > 0 && n == spec_record_of(
            apv[k],
            active,
            saved,
        ) && spec_is_max_for(apv, apv[k].ssid, n.strength)
}

/// Some record in the list carries this SSID.
pub open spec fn spec_covered(outv: Seq<NetworkView>, ssid: Seq<char>) -> bool {
    exists|i: int| 0 <= i < outv.len() && (#[trigger] outv[i]).ssid == ssid
}

/// Rank of a network in the relevance order: the connected network
/// first, then saved ones.
pub open spec fn spec_net_rank(n: NetworkView) -> int {
    (if n.is_connected {
        0int
    } else {
        2int
    }) + (if n.is_saved {
        0int
    } else {
        1int
    })
}

/// The list order shown to the user: connected first, then saved, then
/// signal strength descending.
pub open spec fn spec_net_le(a: NetworkView, b: NetworkView) -> bool {
    spec_net_rank(a) < spec_net_rank(b) || (spec_net_rank(a) == spec_net_rank(b) && a.strength
        >= b.strength)
}

/// The network sequence is sorted by the relevance order.
pub open spec fn spec_networks_sorted(s: Seq<NetworkView>) -> bool {
    forall|i: int, j: int| 0 <= i < j < s.len() ==> spec_net_le(s[i], s[j])
}

/// Index of the record already carrying this SSID, if any.
fn find_ssid_index(acc: &Vec<Network>, ssid: &str) -> (r: Option<usize>)
    ensures
        match r {
            Some(j) => j < acc@.len() && net_views(acc@)[j as int].ssid == ssid@,
            None => forall|q: int|
                0 <= q < acc@.len() ==> (#[trigger] net_views(acc@)[q]).ssid != ssid@,
        },
{
    let mut j: usize = 0;
    while j < acc.len()
        invariant
            0 <= j <= acc@.len(),
            forall|q: int| 0 <= q < j ==> (#[trigger] net_views(acc@)[q]).ssid != ssid@,
        decreases acc@.len() - j,
    {
        if str_eq(acc[j].ssid.as_str(), ssid) {
            return Some(j);
        }
        j += 1;
    }
    None
}

/// Look an SSID up among the saved profiles; the first match wins.
pub fn saved_lookup(saved: &Vec<SavedProfile>, ssid: &str) -> (r: Option<String>)
    ensures
        opt_str_view(r) == spec_saved_path(saved_views(saved@), ssid@),
{
    let ghost sv = saved_views(saved@);
    let mut i: usize = 0;
    proof {
        assert(sv.skip(0) =~= sv);
    }
    while i < saved.len()
        invariant
            0 <= i <= saved@.len(),
            sv == saved_views(saved@),
            sv.len() == saved@.len(),
            spec_saved_path(sv, ssid@) == spec_saved_path(sv.skip(i as int), ssid@),
        decreases saved@.len() - i,
    {
        proof {
            assert(sv.skip(i as int)[0] == sv[i as int]);
        }
        if str_eq(saved[i].ssid.as_str(), ssid) {
            return Some(saved[i].path.clone());
        }
        proof {
            assert(sv.skip(i as int).drop_first() =~= sv.skip(i + 1));
        }
        i += 1;
    }
    proof {
        assert(sv.skip(sv.len() as int).len() == 0);
    }
    None
}

/// Reconcile one access point into a network record.
fn record_of(ap: ApScan, active_ap: &Option<String>, saved: &Vec<SavedProfile>) -> (n: Network)
    ensures
        n@ == spec_record_of(ap@, opt_str_view(*active_ap), saved_views(saved@)),
{
    let security = security_from_flags(ap.flags, ap.wpa_flags, ap.rsn_flags);
    let band = Band::from_frequency(ap.frequency);
    let is_connected = match active_ap {
        Some(a) => str_eq(a.as_str(), ap.ap_path.as_str()),
        None => false,
    };
    let connection_path = saved_lookup(saved, ap.ssid.as_str());
    let is_saved = connection_path.is_some();
    Network {
        ssid: ap.ssid,
        strength: ap.strength,
        security,
        is_connected,
        is_saved,
        band,
        ap_path: ap.ap_path,
        connection_path,
    }
}

/// De-duplicate the visible access points by SSID: hidden networks
/// (empty SSID) are dropped, and of several access points sharing an
/// SSID the record of a strongest one survives.
fn dedup_networks(aps: Vec<ApScan>, active_ap: &Option<String>, saved: &Vec<SavedProfile>) -> (r:
    Vec<Network>)
    ensures
        forall|i: int, j: int|
            0 <= i < j < r@.len() ==> net_views(r@)[i].ssid != net_views(r@)[j].ssid,
        forall|i: int|
            0 <= i < r@.len() ==> spec_represents(
                ap_views(aps@),
                opt_str_view(*active_ap),
                saved_views(saved@),
                #[trigger] net_views(r@)[i],
            ),
        forall|k: int|
            0 <= k < aps@.len() && (#[trigger] ap_views(aps@)[k]).ssid.len() > 0 ==> spec_covered(
                net_views(r@),
                ap_views(aps@)[k].ssid,
            ),
{
    let ghost apv = ap_views(aps@);
    let ghost active = opt_str_view(*active_ap);
    let ghost sv = saved_views(saved@);

    let mut rest = aps;
    let mut acc: Vec<Network> = Vec::new();
    let ghost mut done: int = 0;

    while rest.len() > 0
        invariant
            0 <= done <= apv.len(),
            ap_views(rest@) == apv.skip(done),
            active == opt_str_view(*active_ap),
            sv == saved_views(saved@),
            forall|i: int, j: int|
                0 <= i < j < acc@.len() ==> net_views(acc@)[i].ssid != net_views(acc@)[j].ssid,
            forall|i: int|
                0 <= i < acc@.len() ==> spec_represents(
                    apv.take(done),
                    active,
                    sv,
                    #[trigger] net_views(acc@)[i],
                ),
            forall|k: int|
                0 <= k < done && (#[trigger] apv[k]).ssid.len() > 0 ==> spec_covered(
                    net_views(acc@),
                    apv[k].ssid,
                ),
        decreases rest@.len(),
    {
        let ghost pre_rest = ap_views(rest@);
        let ghost accv = net_views(acc@);
        let ap = rest.remove(0);
        proof {
            assert(ap_views(rest@) =~= pre_rest.remove(0));
            assert(pre_rest.remove(0) =~= apv.skip(done + 1));
            assert(pre_rest[0] == apv.skip(done)[0]);
            assert(ap@ == apv[done]);
        }
        if ap.ssid.as_str().is_empty() {
            proof {
                lemma_step_skip(apv, active, sv, net_views(acc@), done);
                done = done + 1;
            }
        } else {
            let n = record_of(ap, active_ap, saved);
            if let Some(j) = find_ssid_index(&acc, n.ssid.as_str()) {
                if acc[j].strength >= n.strength {
                    proof {
                        lemma_step_weaker(apv, active, sv, net_views(acc@), done, j as int, n@);
                        done = done + 1;
                    }
                } else {
                    let _ = acc.remove(j);
                    acc.push(n);
                    proof {
                        assert(net_views(acc@) =~= accv.remove(j as int).push(
                            spec_record_of(apv[done], active, sv),
                        ));
                        lemma_step_replace(apv, active, sv, accv, done, j as int);
                        done = done + 1;
                    }
                }
            } else {
                acc.push(n);
                proof {
                    assert(net_views(acc@) =~= accv.push(spec_record_of(apv[done], active, sv)));
                    lemma_step_new(apv, active, sv, accv, done);
                    done = done + 1;
                }
            }
        }
    }
    proof {
        assert(done == apv.len());
        assert(apv.take(done) =~= apv);
    }
    acc
}

/// Skipping a hidden (empty-SSID) access point keeps every invariant.
proof fn lemma_step_skip(
    apv: Seq<ApScanView>,
    active: Option<Seq<char>>,
    sv: Seq<SavedProfileView>,
    accv: Seq<NetworkView>,
    done: int,
)
    requires
        0 <= done < apv.len(),
        apv[done].ssid.len() == 0,
        forall|i: int|
            0 <= i < accv.len() ==> spec_represents(apv.take(done), active, sv, #[trigger] accv[i]),
        forall|k: int|
            0 <= k < done && (#[trigger] apv[k]).ssid.len() > 0 ==> spec_covered(
                accv,
                apv[k].ssid,
            ),
    ensures
        forall|i: int|
            0 <= i < accv.len() ==> spec_represents(
                apv.take(done + 1),
                active,
                sv,
                #[trigger] accv[i],
            ),
        forall|k: int|
            0 <= k < done + 1 && (#[trigger] apv[k]).ssid.len() > 0 ==> spec_covered(
                accv,
                apv[k].ssid,
            ),
{
    assert forall|i: int| 0 <= i < accv.len() implies spec_represents(
        apv.take(done + 1),
        active,
        sv,
        #[trigger] accv[i],
    ) by {
        let k = choose|k: int|
            0 <= k < apv.take(done).len() && (#[trigger] apv.take(done)[k]).ssid.len() > 0
                && accv[i] == spec_record_of(apv.take(done)[k], active, sv) && spec_is_max_for(
                apv.take(done),
                apv.take(done)[k].ssid,
                accv[i].strength,
            );
        assert(apv.take(done + 1)[k] == apv.take(done)[k]);
        assert(spec_is_max_for(apv.take(done + 1), apv.take(done + 1)[k].ssid, accv[i].strength))
            by {
            assert forall|k2: int|
                0 <= k2 < apv.take(done + 1).len() && (#[trigger] apv.take(done + 1)[k2]).ssid
                    == apv.take(done + 1)[k].ssid implies apv.take(done + 1)[k2].strength
                <= accv[i].strength by {
                if k2 < done {
                    assert(apv.take(done)[k2] == apv.take(done + 1)[k2]);
                } else {
                    assert(apv.take(done + 1)[k2].ssid.len() == 0);
                    assert(apv.take(done + 1)[k].ssid.len() > 0);
                    assert(false);
                }
            }
        }
    }
}

/// An access point no stronger than the record already kept for its
/// SSID changes nothing.
proof fn lemma_step_weaker(
    apv: Seq<ApScanView>,
    active: Option<Seq<char>>,
    sv: Seq<SavedProfileView>,
    accv: Seq<NetworkView>,
    done: int,
    j: int,
    n: NetworkView,
)
    requires
        0 <= done < apv.len(),
        apv[done].ssid.len() > 0,
        n == spec_record_of(apv[done], active, sv),
        0 <= j < accv.len(),
        accv[j].ssid == n.ssid,
        accv[j].strength >= n.strength,
        forall|i1: int, j1: int| 0 <= i1 < j1 < accv.len() ==> accv[i1].ssid != accv[j1].ssid,
        forall|i: int|
            0 <= i < accv.len() ==> spec_represents(apv.take(done), active, sv, #[trigger] accv[i]),
        forall|k: int|
            0 <= k < done && (#[trigger] apv[k]).ssid.len() > 0 ==> spec_covered(
                accv,
                apv[k].ssid,
            ),
    ensures
        forall|i: int|
            0 <= i < accv.len() ==> spec_represents(
                apv.take(done + 1),
                active,
                sv,
                #[trigger] accv[i],
            ),
        forall|k: int|
            0 <= k < done + 1 && (#[trigger] apv[k]).ssid.len() > 0 ==> spec_covered(
                accv,
                apv[k].ssid,
            ),
{
    assert forall|i: int| 0 <= i < accv.len() implies spec_represents(
        apv.take(done + 1),
        active,
        sv,
        #[trigger] accv[i],
    ) by {
        let k = choose|k: int|
            0 <= k < apv.take(done).len() && (#[trigger] apv.take(done)[k]).ssid.len() > 0
                && accv[i] == spec_record_of(apv.take(done)[k], active, sv) && spec_is_max_for(
                apv.take(done),
                apv.take(done)[k].ssid,
                accv[i].strength,
            );
        assert(apv.take(done + 1)[k] == apv.take(done)[k]);
        assert(spec_is_max_for(apv.take(done + 1), apv.take(done + 1)[k].ssid, accv[i].strength))
            by {
            assert forall|k2: int|
                0 <= k2 < apv.take(done + 1).len() && (#[trigger] apv.take(done + 1)[k2]).ssid
                    == apv.take(done + 1)[k].ssid implies apv.take(done + 1)[k2].strength
                <= accv[i].strength by {
                if k2 < done {
                    assert(apv.take(done)[k2] == apv.take(done + 1)[k2]);
                } else {
                    // The new access point shares the SSID of record j, which
                    // is at least as strong; records carry unique SSIDs, so
                    // the record in question is record j itself.
                    assert(apv.take(done + 1)[k2] == apv[done]);
                    assert(accv[i].ssid == apv[done].ssid);
                    assert(accv[j].ssid == apv[done].ssid);
                    if i < j {
                        assert(accv[i].ssid != accv[j].ssid);
                        assert(false);
                    } else if j < i {
                        assert(accv[j].ssid != accv[i].ssid);
                        assert(false);
                    }
                    assert(i == j);
                    assert(apv[done].strength <= accv[i].strength);
                }
            }
        }
    }
    assert forall|k: int|
        0 <= k < done + 1 && (#[trigger] apv[k]).ssid.len() > 0 implies spec_covered(
        accv,
        apv[k].ssid,
    ) by {
        if k == done {
            assert(accv[j].ssid == apv[done].ssid);
        }
    }
}

/// A strictly stronger access point replaces the record for its SSID.
proof fn lemma_step_replace(
    apv: Seq<ApScanView>,
    active: Option<Seq<char>>,
    sv: Seq<SavedProfileView>,
    accv: Seq<NetworkView>,
    done: int,
    j: int,
)
    requires
        0 <= done < apv.len(),
        apv[done].ssid.len() > 0,
        0 <= j < accv.len(),
        accv[j].ssid == apv[done].ssid,
        accv[j].strength < apv[done].strength,
        forall|i1: int, j1: int| 0 <= i1 < j1 < accv.len() ==> accv[i1].ssid != accv[j1].ssid,
        forall|i: int|
            0 <= i < accv.len() ==> spec_represents(apv.take(done), active, sv, #[trigger] accv[i]),
        forall|k: int|
            0 <= k < done && (#[trigger] apv[k]).ssid.len() > 0 ==> spec_covered(
                accv,
                apv[k].ssid,
            ),
    ensures
        ({
            let accv2 = accv.remove(j).push(spec_record_of(apv[done], active, sv));
            &&& forall|i1: int, j1: int|
                0 <= i1 < j1 < accv2.len() ==> accv2[i1].ssid != accv2[j1].ssid
            &&& forall|i: int|
                0 <= i < accv2.len() ==> spec_represents(
                    apv.take(done + 1),
                    active,
                    sv,
                    #[trigger] accv2[i],
                )
            &&& forall|k: int|
                0 <= k < done + 1 && (#[trigger] apv[k]).ssid.len() > 0 ==> spec_covered(
                    accv2,
                    apv[k].ssid,
                )
        }),
{
    let nrec = spec_record_of(apv[done], active, sv);
    let accv2 = accv.remove(j).push(nrec);
    let last = accv2.len() - 1;

    // Positions below j keep their record; positions from j on shift.
    assert(forall|q: int| 0 <= q < j ==> accv2[q] == accv[q]);
    assert(forall|q: int| j <= q < last ==> accv2[q] == accv[q + 1]);
    assert(accv2[last] == nrec);
    assert(nrec.ssid == apv[done].ssid);

    assert forall|i1: int, j1: int| 0 <= i1 < j1 < accv2.len() implies accv2[i1].ssid
        != accv2[j1].ssid by {
        if j1 == last {
            let oi = if i1 < j {
                i1
            } else {
                i1 + 1
            };
            assert(accv2[i1] == accv[oi]);
            assert(oi != j);
            if accv[oi].ssid == nrec.ssid {
                if oi < j {
                    assert(accv[oi].ssid != accv[j].ssid);
                } else {
                    assert(accv[j].ssid != accv[oi].ssid);
                }
                assert(false);
            }
        }
    }

    assert forall|i: int| 0 <= i < accv2.len() implies spec_represents(
        apv.take(done + 1),
        active,
        sv,
        #[trigger] accv2[i],
    ) by {
        if i == last {
            assert(apv.take(done + 1)[done] == apv[done]);
            assert(spec_is_max_for(apv.take(done + 1), apv[done].ssid, nrec.strength)) by {
                assert forall|k2: int|
                    0 <= k2 < apv.take(done + 1).len() && (#[trigger] apv.take(done + 1)[k2]).ssid
                        == apv[done].ssid implies apv.take(done + 1)[k2].strength
                    <= nrec.strength by {
                    if k2 < done {
                        assert(apv.take(done)[k2] == apv.take(done + 1)[k2]);
                        assert(spec_is_max_for(apv.take(done), accv[j].ssid, accv[j].strength));
                        assert(apv.take(done)[k2].strength <= accv[j].strength);
                    }
                }
            }
        } else {
            let oi = if i < j {
                i
            } else {
                i + 1
            };
            assert(accv2[i] == accv[oi]);
            let k = choose|k: int|
                0 <= k < apv.take(done).len() && (#[trigger] apv.take(done)[k]).ssid.len() > 0
                    && accv[oi] == spec_record_of(apv.take(done)[k], active, sv)
                    && spec_is_max_for(apv.take(done), apv.take(done)[k].ssid, accv[oi].strength);
            assert(apv.take(done + 1)[k] == apv.take(done)[k]);
            assert(spec_is_max_for(
                apv.take(done + 1),
                apv.take(done + 1)[k].ssid,
                accv[oi].strength,
            )) by {
                assert forall|k2: int|
                    0 <= k2 < apv.take(done + 1).len() && (#[trigger] apv.take(done + 1)[k2]).ssid
                        == apv.take(done + 1)[k].ssid implies apv.take(done + 1)[k2].strength
                    <= accv[oi].strength by {
                    if k2 < done {
                        assert(apv.take(done)[k2] == apv.take(done + 1)[k2]);
                    } else {
                        assert(apv.take(done + 1)[k2] == apv[done]);
                        assert(accv[oi].ssid == apv[done].ssid);
                        assert(accv[j].ssid == apv[done].ssid);
                        assert(oi != j);
                        if oi < j {
                            assert(accv[oi].ssid != accv[j].ssid);
                        } else {
                            assert(accv[j].ssid != accv[oi].ssid);
                        }
                        assert(false);
                    }
                }
            }
        }
    }

    assert forall|k: int|
        0 <= k < done + 1 && (#[trigger] apv[k]).ssid.len() > 0 implies spec_covered(
        accv2,
        apv[k].ssid,
    ) by {
        if k == done {
            assert(accv2[last].ssid == apv[done].ssid);
        } else {
            let i = choose|i: int| 0 <= i < accv.len() && (#[trigger] accv[i]).ssid == apv[k].ssid;
            if i == j {
                assert(accv2[last].ssid == accv[j].ssid);
            } else if i < j {
                assert(accv2[i].ssid == apv[k].ssid);
            } else {
                assert(accv2[i - 1].ssid == apv[k].ssid);
            }
        }
    }
}

/// An access point with a fresh SSID appends a new record.
proof fn lemma_step_new(
    apv: Seq<ApScanView>,
    active: Option<Seq<char>>,
    sv: Seq<SavedProfileView>,
    accv: Seq<NetworkView>,
    done: int,
)
    requires
        0 <= done < apv.len(),
        apv[done].ssid.len() > 0,
        forall|q: int| 0 <= q < accv.len() ==> (#[trigger] accv[q]).ssid != apv[done].ssid,
        forall|i1: int, j1: int| 0 <= i1 < j1 < accv.len() ==> accv[i1].ssid != accv[j1].ssid,
        forall|i: int|
            0 <= i < accv.len() ==> spec_represents(apv.take(done), active, sv, #[trigger] accv[i]),
        forall|k: int|
            0 <= k < done && (#[trigger] apv[k]).ssid.len() > 0 ==> spec_covered(
                accv,
                apv[k].ssid,
            ),
    ensures
        ({
            let accv2 = accv.push(spec_record_of(apv[done], active, sv));
            &&& forall|i1: int, j1: int|
                0 <= i1 < j1 < accv2.len() ==> accv2[i1].ssid != accv2[j1].ssid
            &&& forall|i: int|
                0 <= i < accv2.len() ==> spec_represents(
                    apv.take(done + 1),
                    active,
                    sv,
                    #[trigger] accv2[i],
                )
            &&& forall|k: int|
                0 <= k < done + 1 && (#[trigger] apv[k]).ssid.len() > 0 ==> spec_covered(
                    accv2,
                    apv[k].ssid,
                )
        }),
{
    let nrec = spec_record_of(apv[done], active, sv);
    let accv2 = accv.push(nrec);
    let last = accv2.len() - 1;
    assert(forall|q: int| 0 <= q < last ==> accv2[q] == accv[q]);
    assert(accv2[last] == nrec);
    assert(nrec.ssid == apv[done].ssid);

    assert forall|i: int| 0 <= i < accv2.len() implies spec_represents(
        apv.take(done + 1),
        active,
        sv,
        #[trigger] accv2[i],
    ) by {
        if i == last {
            assert(apv.take(done + 1)[done] == apv[done]);
            assert(spec_is_max_for(apv.take(done + 1), apv[done].ssid, nrec.strength)) by {
                assert forall|k2: int|
                    0 <= k2 < apv.take(done + 1).len() && (#[trigger] apv.take(done + 1)[k2]).ssid
                        == apv[done].ssid implies apv.take(done + 1)[k2].strength
                    <= nrec.strength by {
                    if k2 < done {
                        // A processed access point with this SSID would have
                        // left a record carrying it, and none does.
                        assert(apv.take(done)[k2] == apv.take(done + 1)[k2]);
                        assert(apv[k2].ssid.len() > 0);
                        assert(spec_covered(accv, apv[k2].ssid));
                        let q = choose|q: int|
                            0 <= q < accv.len() && (#[trigger] accv[q]).ssid == apv[k2].ssid;
                        assert(accv[q].ssid == apv[done].ssid);
                        assert(false);
                    }
                }
            }
        } else {
            let k = choose|k: int|
                0 <= k < apv.take(done).len() && (#[trigger] apv.take(done)[k]).ssid.len() > 0
                    && accv[i] == spec_record_of(apv.take(done)[k], active, sv) && spec_is_max_for(
                    apv.take(done),
                    apv.take(done)[k].ssid,
                    accv[i].strength,
                );
            assert(apv.take(done + 1)[k] == apv.take(done)[k]);
            assert(spec_is_max_for(
                apv.take(done + 1),
                apv.take(done + 1)[k].ssid,
                accv[i].strength,
            )) by {
                assert forall|k2: int|
                    0 <= k2 < apv.take(done + 1).len() && (#[trigger] apv.take(done + 1)[k2]).ssid
                        == apv.take(done + 1)[k].ssid implies apv.take(done + 1)[k2].strength
                    <= accv[i].strength by {
                    if k2 < done {
                        assert(apv.take(done)[k2] == apv.take(done + 1)[k2]);
                    } else {
                        assert(apv.take(done + 1)[k2] == apv[done]);
                        assert(accv[i].ssid == apv[done].ssid);
                        assert(false);
                    }
                }
            }
        }
    }

    assert forall|k: int|
        0 <= k < done + 1 && (#[trigger] apv[k]).ssid.len() > 0 implies spec_covered(
        accv2,
        apv[k].ssid,
    ) by {
        if k == done {
            assert(accv2[last].ssid == apv[done].ssid);
        } else {
            let i = choose|i: int| 0 <= i < accv.len() && (#[trigger] accv[i]).ssid == apv[k].ssid;
            assert(accv2[i].ssid == apv[k].ssid);
        }
    }
}

/// Sort the network list: connected first, then saved, then signal
/// strength descending. Keeps exactly the same records.
pub fn sort_networks(v: &mut Vec<Network>)
    ensures
        net_views(final(v)@).to_multiset() == net_views(old(v)@).to_multiset(),
        spec_networks_sorted(net_views(final(v)@)),
{
    broadcast use vstd::seq_lib::group_to_multiset_ensures;
    broadcast use vstd::multiset::group_multiset_axioms;

    let ghost orig = net_views(v@);
    if v.len() < 2 {
        return ;
    }
    let mut i: usize = 1;
    while i < v.len()
        invariant
            1 <= i <= v@.len(),
            net_views(v@).to_multiset() == orig.to_multiset(),
            v@.len() == old(v)@.len(),
            orig == net_views(old(v)@),
            spec_networks_sorted(net_views(v@).take(i as int)),
        decreases v@.len() - i,
    {
        let ghost pre = net_views(v@);
        let x = v.remove(i);
        proof {
            assert(net_views(v@) =~= pre.remove(i as int));
        }
        let mut p: usize = 0;
        while p < i && net_le(&v[p], &x)
            invariant
                0 <= p <= i,
                i < pre.len(),
                v@.len() == pre.len() - 1,
                net_views(v@) == pre.remove(i as int),
                spec_networks_sorted(pre.take(i as int)),
                x@ == pre[i as int],
                forall|q: int| 0 <= q < p ==> spec_net_le(net_views(v@)[q], x@),
            decreases i - p,
        {
            p += 1;
        }
        let ghost mid = net_views(v@);
        v.insert(p, x);
        proof {
            assert(net_views(v@) =~= mid.insert(p as int, x@));
            assert(pre.contains(pre[i as int]));
            vstd::seq_lib::to_multiset_remove::<NetworkView>(pre, i as int);
            vstd::seq_lib::to_multiset_insert::<NetworkView>(mid, p as int, x@);
            vstd::seq_lib::to_multiset_contains::<NetworkView>(pre, x@);
            assert(pre.to_multiset().count(x@) > 0);
            assert(net_views(v@).to_multiset() =~= pre.to_multiset());
            assert forall|a: int, b: int| 0 <= a < b < i + 1 implies spec_net_le(
                net_views(v@)[a],
                net_views(v@)[b],
            ) by {
                let w = net_views(v@);
                let pi = p as int;
                if b < pi {
                    assert(w[a] == pre[a] && w[b] == pre[b]);
                } else if a < pi && b == pi {
                    assert(w[a] == mid[a]);
                } else if a < pi && b > pi {
                    assert(w[a] == pre[a] && w[b] == pre[b - 1]);
                    if a < b - 1 {
                    } else {
                        assert(a == b - 1);
                        assert(b - 1 == pi);
                        assert(false);
                    }
                } else if a == pi {
                    assert(w[b] == mid[b - 1] && mid[b - 1] == pre[b - 1]);
                    if pi < i {
                        assert(spec_net_le(x@, mid[pi]));
                        if b - 1 > pi {
                            assert(mid[pi] == pre[pi]);
                            assert(spec_net_le(pre[pi], pre[b - 1]));
                            assert(spec_net_le(x@, pre[b - 1]));
                        }
                    } else {
                        assert(false);
                    }
                } else {
                    assert(w[a] == pre[a - 1] && w[b] == pre[b - 1]);
                }
            }
            assert(spec_networks_sorted(net_views(v@).take(i + 1)));
        }
        i += 1;
    }
    proof {
        assert(net_views(v@).take(v@.len() as int) =~= net_views(v@));
    }
}

/// Comparison used when sorting the network list.
fn net_le(a: &Network, b: &Network) -> (r: bool)
    ensures
        r == spec_net_le(a@, b@),
{
    let ra: u8 = (if a.is_connected { 0u8 } else { 2u8 }) + (if a.is_saved { 0u8 } else { 1u8 });
    let rb: u8 = (if b.is_connected { 0u8 } else { 2u8 }) + (if b.is_saved { 0u8 } else { 1u8 });
    if ra < rb {
        true
    } else if ra > rb {
        false
    } else {
        a.strength >= b.strength
    }
}

/// Build the network list shown to the user from one reconciliation
/// pass: drop hidden access points, de-duplicate by SSID keeping the
/// maximal signal strength, classify security and band, mark the
/// connected record by access-point identity and saved records by SSID,
/// and sort connected first, then saved, then strength descending.
pub fn build_networks(aps: Vec<ApScan>, active_ap: Option<String>, saved: Vec<SavedProfile>) -> (r:
    Vec<Network>)
    ensures
        spec_networks_sorted(net_views(r@)),
        forall|i: int, j: int|
            0 <= i < j < r@.len() ==> net_views(r@)[i].ssid != net_views(r@)[j].ssid,
        forall|i: int|
            0 <= i < r@.len() ==> spec_represents(
                ap_views(aps@),
                opt_str_view(active_ap),
                saved_views(saved@),
                #[trigger] net_views(r@)[i],
            ),
        forall|k: int|
            0 <= k < aps@.len() && (#[trigger] ap_views(aps@)[k]).ssid.len() > 0 ==> spec_covered(
                net_views(r@),
                ap_views(aps@)[k].ssid,
            ),
{
    broadcast use vstd::seq_lib::group_to_multiset_ensures;
    broadcast use vstd::multiset::group_multiset_axioms;

    let ghost apv = ap_views(aps@);
    let ghost active = opt_str_view(active_ap);
    let ghost sv = saved_views(saved@);

    let mut v = dedup_networks(aps, &active_ap, &saved);
    let ghost accv = net_views(v@);
    sort_networks(&mut v);
    let ghost outv = net_views(v@);
    proof {
        // Every sorted record is one of the de-duplicated records.
        assert forall|i: int| 0 <= i < outv.len() implies spec_represents(
            apv,
            active,
            sv,
            #[trigger] outv[i],
        ) by {
            assert(outv.contains(outv[i]));
            vstd::seq_lib::to_multiset_contains::<NetworkView>(outv, outv[i]);
            vstd::seq_lib::to_multiset_contains::<NetworkView>(accv, outv[i]);
            assert(accv.contains(outv[i]));
            let k = choose|k: int| 0 <= k < accv.len() && accv[k] == outv[i];
            assert(spec_represents(apv, active, sv, accv[k]));
        }
        // SSID uniqueness carries through the permutation.
        assert(accv.no_duplicates()) by {
            assert forall|i1: int, j1: int|
                0 <= i1 < accv.len() && 0 <= j1 < accv.len() && i1 != j1 implies accv[i1]
                != accv[j1] by {
                if i1 < j1 {
                    assert(accv[i1].ssid != accv[j1].ssid);
                } else {
                    assert(accv[j1].ssid != accv[i1].ssid);
                }
            }
        }
        accv.lemma_multiset_has_no_duplicates();
        outv.lemma_multiset_has_no_duplicates_conv();
        assert forall|i: int, j: int| 0 <= i < j < outv.len() implies outv[i].ssid
            != outv[j].ssid by {
            if outv[i].ssid == outv[j].ssid {
                assert(outv[i] != outv[j]);
                assert(outv.contains(outv[i]));
                assert(outv.contains(outv[j]));
                vstd::seq_lib::to_multiset_contains::<NetworkView>(outv, outv[i]);
                vstd::seq_lib::to_multiset_contains::<NetworkView>(outv, outv[j]);
                vstd::seq_lib::to_multiset_contains::<NetworkView>(accv, outv[i]);
                vstd::seq_lib::to_multiset_contains::<NetworkView>(accv, outv[j]);
                assert(accv.contains(outv[i]));
                assert(accv.contains(outv[j]));
                let k1 = choose|k: int| 0 <= k < accv.len() && accv[k] == outv[i];
                let k2 = choose|k: int| 0 <= k < accv.len() && accv[k] == outv[j];
                assert(k1 != k2);
                if k1 < k2 {
                    assert(accv[k1].ssid != accv[k2].ssid);
                } else {
                    assert(accv[k2].ssid != accv[k1].ssid);
                }
                assert(false);
            }
        }
        // Every visible SSID is still covered.
        assert forall|k: int|
            0 <= k < apv.len() && (#[trigger] apv[k]).ssid.len() > 0 implies spec_covered(
            outv,
            apv[k].ssid,
        ) by {
            assert(spec_covered(accv, apv[k].ssid));
            let i = choose|i: int| 0 <= i < accv.len() && (#[trigger] accv[i]).ssid == apv[k].ssid;
            assert(accv.contains(accv[i]));
            vstd::seq_lib::to_multiset_contains::<NetworkView>(accv, accv[i]);
            vstd::seq_lib::to_multiset_contains::<NetworkView>(outv, accv[i]);
            assert(outv.contains(accv[i]));
            let i2 = choose|i2: int| 0 <= i2 < outv.len() && outv[i2] == accv[i];
            assert(outv[i2].ssid == apv[k].ssid);
        }
    }
    v
}

/// Index of the first connected network, the one named in the status
/// line; `None` when no network is connected.
pub fn first_connected_network(networks: &Vec<Network>) -> (r: Option<usize>)
    ensures
        match r {
            Some(i) => i < networks@.len() && networks@[i as int].is_connected && forall|j: int|
                0 <= j < i ==> !networks@[j].is_connected,
            None => forall|j: int| 0 <= j < networks@.len() ==> !networks@[j].is_connected,
        },
{
    let mut i: usize = 0;
    while i < networks.len()
        invariant
            0 <= i <= networks@.len(),
            forall|j: int| 0 <= j < i ==> !networks@[j].is_connected,
        decreases networks@.len() - i,
    {
        if networks[i].is_connected {
            return Some(i);
        }
        i += 1;
    }
    None
}

/// Whether a stored profile enters the saved-SSID table: it must not
/// declare a non-wireless type (a missing type passes), and its SSID
/// must be non-empty.
pub fn accept_saved_profile(conn_type: Option<&str>, ssid: &str) -> (r: bool)
    ensures
        r == ((match conn_type {
            Some(t) => t@ == "802-11-wireless"@,
            None => true,
        }) && ssid@.len() > 0),
{
    let type_ok = match conn_type {
        Some(t) => str_eq(t, "802-11-wireless"),
        None => true,
    };
    type_ok && !ssid.is_empty()
}

/// Device type code the network daemon uses for WiFi radios.
pub const DEVICE_TYPE_WIFI: u32 = 2;

/// Index of the first WiFi radio among the daemon's devices; `None`
/// means no WiFi hardware is present.
pub fn find_wifi_device(device_types: &Vec<u32>) -> (r: Option<usize>)
    ensures
        match r {
            Some(i) => i < device_types@.len() && device_types@[i as int] == DEVICE_TYPE_WIFI
                && forall|j: int| 0 <= j < i ==> device_types@[j] != DEVICE_TYPE_WIFI,
            None => forall|j: int|
                0 <= j < device_types@.len() ==> device_types@[j] != DEVICE_TYPE_WIFI,
        },
{
    let mut i: usize = 0;
    while i < device_types.len()
        invariant
            0 <= i <= device_types@.len(),
            forall|j: int| 0 <= j < i ==> device_types@[j] != DEVICE_TYPE_WIFI,
        decreases device_types@.len() - i,
    {
        if device_types[i] == DEVICE_TYPE_WIFI {
            return Some(i);
        }
        i += 1;
    }
    None
}

} // verus!
