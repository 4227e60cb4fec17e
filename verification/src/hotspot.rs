//! Hotspot lifecycle: the single persistent access-point profile under
//! a fixed identifier, the band and channel the single radio forces on
//! it, and the no-op-safe stop.

use vstd::prelude::*;
use vstd::string::StrSliceExecFns;

use crate::access_point::{spec_band_of, Band};
use crate::connection::{opt_pw_view, spec_credential_absent, NetError};
use crate::text::str_eq;

verus! {

/// The fixed identifier of the hotspot profile, so one profile can be
/// found and reused across restarts.
pub open spec fn spec_hotspot_uuid() -> Seq<char> {
    "5b481f9c-7d77-4d95-8e1c-e08821ffeba9"@
}

/// The fixed identifier of the hotspot profile.
pub fn hotspot_profile_id() -> (r: &'static str)
    ensures
        r@ == spec_hotspot_uuid(),
{
    "5b481f9c-7d77-4d95-8e1c-e08821ffeba9"
}

/// Whether an identifier is the hotspot profile's.
pub fn is_hotspot_profile_id(uuid: &str) -> (r: bool)
    ensures
        r == (uuid@ == spec_hotspot_uuid()),
{
    str_eq(uuid, hotspot_profile_id())
}

/// The channel a station frequency in MHz corresponds to, where one is
/// defined: the 2.4 GHz grid (2412 to 2472 in 5 MHz steps, plus 2484),
/// and the 5 GHz grid (5 MHz steps from 5000).
pub open spec fn spec_channel_of(freq: u32) -> Option<u32> {
    if freq == 2484 {
        Some(14u32)
    } else if 2412 <= freq && freq <= 2472 && (freq - 2412) % 5 == 0 {
        Some(((freq - 2407) / 5) as u32)
    } else if 5160 <= freq && freq <= 5885 && (freq - 5000) % 5 == 0 {
        Some(((freq - 5000) / 5) as u32)
    } else {
        None
    }
}

/// Map a station frequency to its channel number, if the frequency
/// lies on a known channel grid.
pub fn channel_for_frequency(freq: u32) -> (r: Option<u32>)
    ensures
        r == spec_channel_of(freq),
{
    if freq == 2484 {
        Some(14)
    } else if 2412 <= freq && freq <= 2472 && (freq - 2412) % 5 == 0 {
        Some((freq - 2407) / 5)
    } else if 5160 <= freq && freq <= 5885 && (freq - 5000) % 5 == 0 {
        Some((freq - 5000) / 5)
    } else {
        None
    }
}

/// Settings of the hotspot profile handed to the daemon.
#[derive(Debug, Clone)]
pub struct HotspotSettings {
    /// Name the access point broadcasts.
    pub ssid: String,
    /// Pre-shared key; `None` makes an open access point.
    pub psk: Option<String>,
    /// Band to run on; `None` lets the daemon pick.
    pub band: Option<Band>,
    /// Fixed channel; `None` lets the daemon pick.
    pub channel: Option<u32>,
}

/// Mathematical view of hotspot settings.
pub struct HotspotSettingsView {
    pub ssid: Seq<char>,
    pub psk: Option<Seq<char>>,
    pub band: Option<Band>,
    pub channel: Option<u32>,
}

impl View for HotspotSettings {
    type V = HotspotSettingsView;

    open spec fn view(&self) -> HotspotSettingsView {
        HotspotSettingsView {
            ssid: self.ssid@,
            psk: match self.psk {
                Some(ref p) => Some(p@),
                None => None,
            },
            band: self.band,
            channel: self.channel,
        }
    }
}

/// A hotspot password is acceptable when absent or empty (open access
/// point) or between 8 and 63 characters (the pre-shared-key bounds).
pub open spec fn spec_hotspot_password_ok(p: Option<Seq<char>>) -> bool {
    match p {
        Some(s) => s.len() == 0 || (8 <= s.len() && s.len() <= 63),
        None => true,
    }
}

/// Check a hotspot password against the pre-shared-key length bounds;
/// an empty one is fine and makes the access point open.
pub fn validate_hotspot_password(password: &str) -> (r: bool)
    ensures
        r == spec_hotspot_password_ok(Some(password@)),
{
    let n = password.unicode_len();
    n == 0 || (8 <= n && n <= 63)
}

/// A hotspot name must not be empty.
pub fn validate_hotspot_name(ssid: &str) -> (r: bool)
    ensures
        r == (ssid@.len() > 0),
{
    !ssid.is_empty()
}

/// Decide the settings a hotspot start uses.
///
/// The password must be empty (open access point) or 8 to 63
/// characters. When the station radio is associated, the single radio
/// forces the hotspot onto the station's exact channel and band; when
/// it is not, the configured band is used with no fixed channel.
pub fn plan_hotspot(
    ssid: &str,
    password: Option<&str>,
    config_band: Option<Band>,
    station_freq: Option<u32>,
) -> (r: Result<HotspotSettings, NetError>)
    ensures
        !spec_hotspot_password_ok(opt_pw_view(password)) ==> (r matches Err(e) && e
            == NetError::InvalidCredential),
        spec_hotspot_password_ok(opt_pw_view(password)) ==> (r matches Ok(s) && {
            &&& s@.ssid == ssid@
            &&& s@.psk == (if spec_credential_absent(opt_pw_view(password)) {
                Option::<Seq<char>>::None
            } else {
                opt_pw_view(password)
            })
            &&& match station_freq {
                Some(f) => s@.band == Some(spec_band_of(f)) && s@.channel == spec_channel_of(f),
                None => s@.band == config_band && s@.channel is None,
            }
        }),
{
    let psk: Option<String> = match password {
        Some(pw) => {
            let n = pw.unicode_len();
            if n == 0 {
                None
            } else if 8 <= n && n <= 63 {
                Some(pw.to_owned())
            } else {
                return Err(NetError::InvalidCredential);
            }
        },
        None => None,
    };
    let (band, channel) = match station_freq {
        Some(f) => (Some(Band::from_frequency(f)), channel_for_frequency(f)),
        None => (config_band, None),
    };
    Ok(HotspotSettings { ssid: ssid.to_owned(), psk, band, channel })
}

/// One connection profile as stored by the daemon's settings service.
#[derive(Debug, Clone)]
pub struct StoredProfile {
    /// Handle of the profile.
    pub path: String,
    /// Stable identifier of the profile.
    pub uuid: String,
    /// SSID the profile is written for.
    pub ssid: String,
}

/// Mathematical view of a stored profile.
pub struct StoredProfileView {
    pub path: Seq<char>,
    pub uuid: Seq<char>,
    pub ssid: Seq<char>,
}

impl View for StoredProfile {
    type V = StoredProfileView;

    open spec fn view(&self) -> StoredProfileView {
        StoredProfileView { path: self.path@, uuid: self.uuid@, ssid: self.ssid@ }
    }
}

/// Views of a sequence of stored profiles.
pub open spec fn profile_views(s: Seq<StoredProfile>) -> Seq<StoredProfileView> {
    s.map_values(|p: StoredProfile| p@)
}

/// Whether a stored profile is the hotspot's.
pub open spec fn spec_is_hotspot(p: StoredProfileView) -> bool {
    p.uuid == spec_hotspot_uuid()
}

/// The profiles that survive a hotspot upsert: everything but old
/// hotspot profiles.
pub open spec fn spec_keep_profile(p: StoredProfileView) -> bool {
    !spec_is_hotspot(p)
}

/// The hotspot profiles within a store.
pub open spec fn spec_hotspot_profiles(s: Seq<StoredProfileView>) -> Seq<StoredProfileView> {
    s.filter(|p: StoredProfileView| spec_is_hotspot(p))
}

/// Index of the hotspot profile in the store, if one exists.
pub fn find_hotspot_profile(profiles: &Vec<StoredProfile>) -> (r: Option<usize>)
    ensures
        match r {
            Some(i) => i < profiles@.len() && spec_is_hotspot(profile_views(profiles@)[i as int])
                && forall|j: int|
                0 <= j < i ==> !spec_is_hotspot(#[trigger] profile_views(profiles@)[j]),
            None => forall|j: int|
                0 <= j < profiles@.len() ==> !spec_is_hotspot(
                    #[trigger] profile_views(profiles@)[j],
                ),
        },
{
    let mut i: usize = 0;
    while i < profiles.len()
        invariant
            0 <= i <= profiles@.len(),
            forall|j: int| 0 <= j < i ==> !spec_is_hotspot(#[trigger] profile_views(profiles@)[j]),
        decreases profiles@.len() - i,
    {
        if is_hotspot_profile_id(profiles[i].uuid.as_str()) {
            return Some(i);
        }
        i += 1;
    }
    None
}

/// Replace whatever hotspot profile the store holds with one carrying
/// the new handle and SSID; every other profile stays.
pub fn upsert_hotspot_profile(profiles: &mut Vec<StoredProfile>, new_path: &str, new_ssid: &str)
    ensures
        profile_views(final(profiles)@) == profile_views(old(profiles)@).filter(
            |p: StoredProfileView| spec_keep_profile(p),
        ).push(
            StoredProfileView { path: new_path@, uuid: spec_hotspot_uuid(), ssid: new_ssid@ },
        ),
{
    let ghost orig = profile_views(profiles@);
    let ghost keep = |p: StoredProfileView| spec_keep_profile(p);

    let mut kept: Vec<StoredProfile> = Vec::new();
    let ghost mut done: int = 0;

    proof {
        assert(orig.take(0) =~= Seq::<StoredProfileView>::empty());
        assert(orig.take(0).filter(keep) =~= Seq::<StoredProfileView>::empty());
        assert(orig.skip(0) =~= orig);
    }

    while profiles.len() > 0
        invariant
            0 <= done <= orig.len(),
            profile_views(profiles@) == orig.skip(done),
            keep == (|p: StoredProfileView| spec_keep_profile(p)),
            orig == profile_views(old(profiles)@),
            profile_views(kept@) =~= orig.take(done).filter(keep),
        decreases profiles@.len(),
    {
        let ghost pre_rest = profile_views(profiles@);
        let ghost pre_kept = profile_views(kept@);
        let p = profiles.remove(0);
        proof {
            assert(profile_views(profiles@) =~= pre_rest.remove(0));
            assert(pre_rest.remove(0) =~= orig.skip(done + 1));
            assert(pre_rest[0] == orig.skip(done)[0]);
            assert(p@ == orig[done]);
        }
        let is_ours = is_hotspot_profile_id(p.uuid.as_str());
        if !is_ours {
            kept.push(p);
        }
        proof {
            reveal_with_fuel(Seq::filter, 2);
            assert(orig.take(done + 1) =~= orig.take(done) + seq![orig[done]]);
            Seq::filter_distributes_over_add(orig.take(done), seq![orig[done]], keep);
            assert(seq![orig[done]].drop_last() =~= Seq::<StoredProfileView>::empty());
            assert(Seq::<StoredProfileView>::empty().filter(keep) =~= Seq::<
                StoredProfileView,
            >::empty());
            if keep(orig[done]) {
                assert(seq![orig[done]].filter(keep) =~= seq![orig[done]]);
                assert(profile_views(kept@) =~= pre_kept.push(orig[done]));
            } else {
                assert(seq![orig[done]].filter(keep) =~= Seq::<StoredProfileView>::empty());
                assert(orig.take(done + 1).filter(keep) =~= orig.take(done).filter(keep));
            }
            done = done + 1;
        }
    }
    proof {
        assert(orig.take(done) =~= orig);
    }
    let ghost filtered = profile_views(kept@);
    kept.push(
        StoredProfile {
            path: new_path.to_owned(),
            uuid: hotspot_profile_id().to_owned(),
            ssid: new_ssid.to_owned(),
        },
    );
    proof {
        assert(profile_views(kept@) =~= filtered.push(
            StoredProfileView { path: new_path@, uuid: spec_hotspot_uuid(), ssid: new_ssid@ },
        ));
    }
    *profiles = kept;
}

/// A filtered sequence keeps exactly the elements that satisfy the
/// predicate; filtering a sequence of such elements changes nothing.
proof fn lemma_filter_all_kept<A>(s: Seq<A>, pred: spec_fn(A) -> bool)
    requires
        forall|i: int| 0 <= i < s.len() ==> pred(#[trigger] s[i]),
    ensures
        s.filter(pred) == s,
    decreases s.len(),
{
    reveal(Seq::filter);
    if s.len() == 0 {
        assert(s.filter(pred) =~= s);
    } else {
        lemma_filter_all_kept(s.drop_last(), pred);
        assert(s.filter(pred) =~= s.drop_last().push(s.last()));
        assert(s.drop_last().push(s.last()) =~= s);
    }
}

/// Filtering out every element that fails the predicate leaves nothing
/// when none satisfies it.
proof fn lemma_filter_none_kept<A>(s: Seq<A>, pred: spec_fn(A) -> bool)
    requires
        forall|i: int| 0 <= i < s.len() ==> !pred(#[trigger] s[i]),
    ensures
        s.filter(pred) == Seq::<A>::empty(),
    decreases s.len(),
{
    reveal(Seq::filter);
    if s.len() == 0 {
        assert(s.filter(pred) =~= Seq::<A>::empty());
    } else {
        lemma_filter_none_kept(s.drop_last(), pred);
        assert(s.filter(pred) =~= Seq::<A>::empty());
    }
}

/// Starting the hotspot twice leaves exactly one profile under the
/// fixed identifier, carrying the SSID of the second start.
pub proof fn lemma_hotspot_single_instance(
    orig: Seq<StoredProfileView>,
    path1: Seq<char>,
    ssid1: Seq<char>,
    path2: Seq<char>,
    ssid2: Seq<char>,
)
    ensures
        ({
            let keep = |p: StoredProfileView| spec_keep_profile(p);
            let first = StoredProfileView { path: path1, uuid: spec_hotspot_uuid(), ssid: ssid1 };
            let second = StoredProfileView { path: path2, uuid: spec_hotspot_uuid(), ssid: ssid2 };
            let after1 = orig.filter(keep).push(first);
            let after2 = after1.filter(keep).push(second);
            &&& spec_hotspot_profiles(after2).len() == 1
            &&& spec_hotspot_profiles(after2)[0].ssid == ssid2
        }),
{
    broadcast use vstd::seq_lib::group_filter_ensures;

    reveal_with_fuel(Seq::filter, 2);
    let keep = |p: StoredProfileView| spec_keep_profile(p);
    let hot = |p: StoredProfileView| spec_is_hotspot(p);
    let first = StoredProfileView { path: path1, uuid: spec_hotspot_uuid(), ssid: ssid1 };
    let second = StoredProfileView { path: path2, uuid: spec_hotspot_uuid(), ssid: ssid2 };
    let kept1 = orig.filter(keep);
    let after1 = kept1.push(first);
    let after2 = after1.filter(keep).push(second);

    // Filtering the first upsert's result drops only its new profile.
    assert(after1 =~= kept1 + seq![first]);
    Seq::filter_distributes_over_add(kept1, seq![first], keep);
    lemma_filter_all_kept(kept1, keep);
    assert(seq![first].drop_last() =~= Seq::<StoredProfileView>::empty());
    assert(Seq::<StoredProfileView>::empty().filter(keep) =~= Seq::<StoredProfileView>::empty());
    assert(seq![first].filter(keep) =~= Seq::<StoredProfileView>::empty());
    assert(after1.filter(keep) =~= kept1);
    assert(after2 =~= kept1 + seq![second]);

    // Among what survives, only the new profile is the hotspot's.
    Seq::filter_distributes_over_add(kept1, seq![second], hot);
    lemma_filter_none_kept(kept1, hot);
    assert(seq![second].drop_last() =~= Seq::<StoredProfileView>::empty());
    assert(Seq::<StoredProfileView>::empty().filter(hot) =~= Seq::<StoredProfileView>::empty());
    assert(seq![second].filter(hot) =~= seq![second]);
    assert(spec_hotspot_profiles(after2) =~= seq![second]);
}

/// Views of a sequence of identifiers.
pub open spec fn str_views(s: Seq<String>) -> Seq<Seq<char>> {
    s.map_values(|u: String| u@)
}

/// Some active connection is backed by the hotspot profile.
pub open spec fn spec_hotspot_active(uuids: Seq<Seq<char>>) -> bool {
    exists|i: int| 0 <= i < uuids.len() && uuids[i] == spec_hotspot_uuid()
}

/// Whether the hotspot is active, judged by the profile identifiers
/// behind the currently active connections.
pub fn is_hotspot_active(active_uuids: &Vec<String>) -> (r: bool)
    ensures
        r == spec_hotspot_active(str_views(active_uuids@)),
{
    let mut i: usize = 0;
    while i < active_uuids.len()
        invariant
            0 <= i <= active_uuids@.len(),
            forall|j: int| 0 <= j < i ==> #[trigger] str_views(active_uuids@)[j]
                != spec_hotspot_uuid(),
        decreases active_uuids@.len() - i,
    {
        if is_hotspot_profile_id(active_uuids[i].as_str()) {
            proof {
                assert(str_views(active_uuids@)[i as int] == spec_hotspot_uuid());
            }
            return true;
        }
        i += 1;
    }
    false
}

/// Drop every active connection backed by the hotspot profile: the
/// effect a stop has on the active set. Total, so a stop with no
/// hotspot active is a harmless no-op.
pub fn deactivate_hotspot(active_uuids: &mut Vec<String>)
    ensures
        str_views(final(active_uuids)@) == str_views(old(active_uuids)@).filter(
            |u: Seq<char>| u != spec_hotspot_uuid(),
        ),
        !spec_hotspot_active(str_views(final(active_uuids)@)),
{
    broadcast use vstd::seq_lib::group_filter_ensures;

    let ghost orig = str_views(active_uuids@);
    let ghost keep = |u: Seq<char>| u != spec_hotspot_uuid();

    let mut kept: Vec<String> = Vec::new();
    let ghost mut done: int = 0;

    proof {
        assert(orig.take(0) =~= Seq::<Seq<char>>::empty());
        assert(orig.take(0).filter(keep) =~= Seq::<Seq<char>>::empty());
        assert(orig.skip(0) =~= orig);
    }

    while active_uuids.len() > 0
        invariant
            0 <= done <= orig.len(),
            str_views(active_uuids@) == orig.skip(done),
            keep == (|u: Seq<char>| u != spec_hotspot_uuid()),
            orig == str_views(old(active_uuids)@),
            str_views(kept@) =~= orig.take(done).filter(keep),
        decreases active_uuids@.len(),
    {
        let ghost pre_rest = str_views(active_uuids@);
        let ghost pre_kept = str_views(kept@);
        let u = active_uuids.remove(0);
        proof {
            assert(str_views(active_uuids@) =~= pre_rest.remove(0));
            assert(pre_rest.remove(0) =~= orig.skip(done + 1));
            assert(pre_rest[0] == orig.skip(done)[0]);
            assert(u@ == orig[done]);
        }
        if !is_hotspot_profile_id(u.as_str()) {
            kept.push(u);
        }
        proof {
            reveal_with_fuel(Seq::filter, 2);
            assert(orig.take(done + 1) =~= orig.take(done) + seq![orig[done]]);
            Seq::filter_distributes_over_add(orig.take(done), seq![orig[done]], keep);
            assert(seq![orig[done]].drop_last() =~= Seq::<Seq<char>>::empty());
            assert(Seq::<Seq<char>>::empty().filter(keep) =~= Seq::<Seq<char>>::empty());
            if keep(orig[done]) {
                assert(seq![orig[done]].filter(keep) =~= seq![orig[done]]);
                assert(str_views(kept@) =~= pre_kept.push(orig[done]));
            } else {
                assert(seq![orig[done]].filter(keep) =~= Seq::<Seq<char>>::empty());
                assert(orig.take(done + 1).filter(keep) =~= orig.take(done).filter(keep));
            }
            done = done + 1;
        }
    }
    proof {
        assert(orig.take(done) =~= orig);
    }
    *active_uuids = kept;
    proof {
        let fv = str_views(active_uuids@);
        assert forall|i: int| 0 <= i < fv.len() implies fv[i] != spec_hotspot_uuid() by {
            orig.lemma_filter_pred(keep, i);
        }
    }
}

/// Stopping the hotspot when none is active changes nothing and cannot
/// fail: afterwards the hotspot is inactive either way.
pub proof fn lemma_stop_hotspot_idempotent(uuids: Seq<Seq<char>>)
    requires
        !spec_hotspot_active(uuids),
    ensures
        uuids.filter(|u: Seq<char>| u != spec_hotspot_uuid()) == uuids,
        !spec_hotspot_active(uuids.filter(|u: Seq<char>| u != spec_hotspot_uuid())),
{
    lemma_filter_all_kept(uuids, |u: Seq<char>| u != spec_hotspot_uuid());
}

} // verus!
