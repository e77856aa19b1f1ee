//! The decisions of the device commands: which devices a command works
//! on, which devices can be signed and with which command, what a
//! single-device pattern designates, and how the device list is shown.
//! The commands themselves (the requests, prompts and output) run around
//! these decisions.

use vstd::prelude::*;

use crate::matching::{resolve_device_patterns, resolved_devices};
use crate::models::{devices_view, has_keys, locked_out, strings_view, Device, DeviceView};

verus! {

// ---------------------------------------------------------------------
// Filtering devices
// ---------------------------------------------------------------------

/// The conditions by which the commands filter devices.
pub enum DeviceFilter {
    /// Locked out by tailnet lock.
    LockedOut,
    /// Locked out, with both keys needed to sign it.
    SigningCandidate,
    /// Without a node key or without a tailnet lock key.
    MissingKeys,
    /// With a node key and a tailnet lock key.
    HasKeys,
}

/// Device `d` passes filter `f`.
pub open spec fn passes(f: DeviceFilter, d: DeviceView) -> bool {
    match f {
        DeviceFilter::LockedOut => locked_out(d),
        DeviceFilter::SigningCandidate => locked_out(d) && has_keys(d),
        DeviceFilter::MissingKeys => !has_keys(d),
        DeviceFilter::HasKeys => has_keys(d),
    }
}

/// The devices of `ds` that pass `f`, in their order.
pub open spec fn devices_where(ds: Seq<DeviceView>, f: DeviceFilter) -> Seq<DeviceView>
    decreases ds.len(),
{
    if ds.len() == 0 {
        seq![]
    } else {
        let rest = devices_where(ds.drop_last(), f);
        if passes(f, ds.last()) {
            rest.push(ds.last())
        } else {
            rest
        }
    }
}

fn passes_exec(f: &DeviceFilter, d: &Device) -> (r: bool)
    ensures
        r == passes(*f, d@),
{
    match f {
        DeviceFilter::LockedOut => d.is_locked_out(),
        DeviceFilter::SigningCandidate => d.is_locked_out() && d.has_lock_keys(),
        DeviceFilter::MissingKeys => !d.has_lock_keys(),
        DeviceFilter::HasKeys => d.has_lock_keys(),
    }
}

/// The devices that pass the filter, in their order.
pub fn filter_devices(devices: &[Device], f: DeviceFilter) -> (r: Vec<Device>)
    ensures
        devices_view(r@) == devices_where(devices_view(devices@), f),
{
    let ghost ds = devices_view(devices@);
    let mut r: Vec<Device> = Vec::new();
    let mut i: usize = 0;
    while i < devices.len()
        invariant
            ds == devices_view(devices@),
            i <= devices@.len(),
            devices_view(r@) == devices_where(ds.take(i as int), f),
        decreases devices@.len() - i,
    {
        assert(ds.take(i + 1).drop_last() =~= ds.take(i as int));
        assert(ds.take(i + 1).last() == ds[i as int]);
        if passes_exec(&f, &devices[i]) {
            let ghost before = r@;
            let c = devices[i].clone();
            r.push(c);
            assert(devices_view(r@) =~= devices_view(before).push(c@));
        }
        i += 1;
    }
    assert(ds.take(devices@.len() as int) =~= ds);
    r
}

/// The devices that are locked out, in their order.
pub fn locked_out_devices(devices: &[Device]) -> (r: Vec<Device>)
    ensures
        devices_view(r@) == devices_where(devices_view(devices@), DeviceFilter::LockedOut),
{
    filter_devices(devices, DeviceFilter::LockedOut)
}

/// The devices that signing can work on: locked out, with a node key and a
/// tailnet lock key.
pub fn signing_candidates(devices: &[Device]) -> (r: Vec<Device>)
    ensures
        devices_view(r@) == devices_where(devices_view(devices@), DeviceFilter::SigningCandidate),
{
    filter_devices(devices, DeviceFilter::SigningCandidate)
}

/// The devices chosen for signing, split into those that lack a key (and
/// are skipped) and those that can be signed.
pub struct SigningSplit {
    pub missing_keys: Vec<Device>,
    pub signable: Vec<Device>,
}

/// Splits the devices chosen for signing by whether they have both keys.
pub fn split_signable(to_sign: &[Device]) -> (r: SigningSplit)
    ensures
        devices_view(r.missing_keys@) == devices_where(
            devices_view(to_sign@),
            DeviceFilter::MissingKeys,
        ),
        devices_view(r.signable@) == devices_where(devices_view(to_sign@), DeviceFilter::HasKeys),
{
    SigningSplit {
        missing_keys: filter_devices(to_sign, DeviceFilter::MissingKeys),
        signable: filter_devices(to_sign, DeviceFilter::HasKeys),
    }
}

pub(crate) proof fn lemma_where_members(ds: Seq<DeviceView>, f: DeviceFilter)
    ensures
        devices_where(ds, f).len() <= ds.len(),
        forall|k: int|
            0 <= k < devices_where(ds, f).len() ==> passes(f, #[trigger] devices_where(ds, f)[k])
                && ds.contains(devices_where(ds, f)[k]),
    decreases ds.len(),
{
    if ds.len() > 0 {
        lemma_where_members(ds.drop_last(), f);
        let rest = devices_where(ds.drop_last(), f);
        let r = devices_where(ds, f);
        assert forall|k: int| 0 <= k < r.len() implies passes(f, #[trigger] r[k]) && ds.contains(r[k]) by {
            if k < rest.len() {
                assert(r[k] == rest[k]);
                let w = choose|w: int| 0 <= w < ds.drop_last().len() && ds.drop_last()[w] == rest[k];
                assert(ds[w] == rest[k]);
            } else {
                assert(ds[ds.len() - 1] == r[k]);
            }
        }
    }
}

/// The devices skipped for a missing key and the devices signed together
/// are as many as the devices chosen, and no device is in both groups.
pub proof fn law_signing_split_partitions(ds: Seq<DeviceView>)
    ensures
        devices_where(ds, DeviceFilter::MissingKeys).len() + devices_where(
            ds,
            DeviceFilter::HasKeys,
        ).len() == ds.len(),
        forall|k: int|
            0 <= k < devices_where(ds, DeviceFilter::HasKeys).len() ==> has_keys(
                #[trigger] devices_where(ds, DeviceFilter::HasKeys)[k],
            ),
        forall|k: int|
            0 <= k < devices_where(ds, DeviceFilter::MissingKeys).len() ==> !has_keys(
                #[trigger] devices_where(ds, DeviceFilter::MissingKeys)[k],
            ),
    decreases ds.len(),
{
    lemma_where_members(ds, DeviceFilter::HasKeys);
    lemma_where_members(ds, DeviceFilter::MissingKeys);
    if ds.len() > 0 {
        law_signing_split_partitions(ds.drop_last());
    }
}

/// Every signing candidate has both keys: when the devices to sign are
/// drawn from the candidates, none is skipped for a missing key.
pub proof fn law_candidates_have_keys(ds: Seq<DeviceView>)
    ensures
        devices_where(devices_where(ds, DeviceFilter::SigningCandidate), DeviceFilter::MissingKeys)
            == Seq::<DeviceView>::empty(),
{
    let c = devices_where(ds, DeviceFilter::SigningCandidate);
    lemma_where_members(ds, DeviceFilter::SigningCandidate);
    lemma_none_missing(c);
}

proof fn lemma_none_missing(c: Seq<DeviceView>)
    requires
        forall|k: int| 0 <= k < c.len() ==> has_keys(#[trigger] c[k]) || passes(
            DeviceFilter::SigningCandidate,
            c[k],
        ),
    ensures
        devices_where(c, DeviceFilter::MissingKeys) == Seq::<DeviceView>::empty(),
    decreases c.len(),
{
    if c.len() > 0 {
        assert forall|k: int| 0 <= k < c.drop_last().len() implies has_keys(#[trigger] c.drop_last()[k])
            || passes(DeviceFilter::SigningCandidate, c.drop_last()[k]) by {
            assert(c.drop_last()[k] == c[k]);
        }
        lemma_none_missing(c.drop_last());
        assert(has_keys(c[c.len() - 1]) || passes(DeviceFilter::SigningCandidate, c[c.len() - 1]));
    }
}

// ---------------------------------------------------------------------
// Narrowing by patterns
// ---------------------------------------------------------------------

/// The devices a command works on when patterns may narrow the list.
pub enum Narrowed {
    /// Patterns were given and designate no device.
    NoMatch,
    /// The devices to work on.
    Devices(Vec<Device>),
}

/// Narrows the list of devices by patterns: without patterns, every
/// device; with patterns, the devices they designate, or `NoMatch` when
/// there are none.
pub fn narrow_devices(patterns: Option<&[String]>, all_devices: &[Device]) -> (r: Narrowed)
    ensures
        patterns is None ==> (r matches Narrowed::Devices(v) && devices_view(v@) == devices_view(
            all_devices@,
        )),
        patterns matches Some(p) ==> (if resolved_devices(
            strings_view(p@),
            devices_view(all_devices@),
        ).len() == 0 {
            r is NoMatch
        } else {
            r matches Narrowed::Devices(v) && devices_view(v@) == resolved_devices(
                strings_view(p@),
                devices_view(all_devices@),
            )
        }),
{
    match patterns {
        Some(p) => {
            let matched = resolve_device_patterns(p, all_devices);
            if matched.len() == 0 {
                Narrowed::NoMatch
            } else {
                Narrowed::Devices(matched)
            }
        },
        None => {
            let ghost ds = devices_view(all_devices@);
            let mut r: Vec<Device> = Vec::new();
            let mut i: usize = 0;
            while i < all_devices.len()
                invariant
                    ds == devices_view(all_devices@),
                    i <= all_devices@.len(),
                    devices_view(r@) == ds.take(i as int),
                decreases all_devices@.len() - i,
            {
                let ghost before = r@;
                let c = all_devices[i].clone();
                r.push(c);
                assert(devices_view(r@) =~= devices_view(before).push(c@));
                assert(ds.take(i + 1) =~= ds.take(i as int).push(ds[i as int]));
                i += 1;
            }
            assert(ds.take(all_devices@.len() as int) =~= ds);
            Narrowed::Devices(r)
        },
    }
}

/// What a pattern that must designate one device gives.
pub enum SingleMatch {
    /// No device matches.
    NotFound,
    /// Exactly one device matches.
    Unique(Device),
    /// Several devices match; they are listed.
    Ambiguous(Vec<Device>),
}

/// Resolves a pattern that must designate a single device (to show or
/// rename it): no device, exactly one, or several.
pub fn single_device(pattern: &str, devices: &[Device]) -> (r: SingleMatch)
    ensures
        ({
            let m = resolved_devices(seq![pattern@], devices_view(devices@));
            &&& m.len() == 0 ==> r is NotFound
            &&& m.len() == 1 ==> (r matches SingleMatch::Unique(d) && d@ == m[0])
            &&& m.len() > 1 ==> (r matches SingleMatch::Ambiguous(v) && devices_view(v@) == m)
        }),
{
    let mut patterns: Vec<String> = Vec::new();
    patterns.push(String::from_str(pattern));
    assert(strings_view(patterns@) =~= seq![pattern@]);
    let mut matched = resolve_device_patterns(patterns.as_slice(), devices);
    if matched.len() == 0 {
        SingleMatch::NotFound
    } else if matched.len() == 1 {
        let d = matched.remove(0);
        SingleMatch::Unique(d)
    } else {
        SingleMatch::Ambiguous(matched)
    }
}

// ---------------------------------------------------------------------
// Tag commands and signing
// ---------------------------------------------------------------------

/// How a tag command changes the tags of a device.
pub enum TagChange {
    /// Replace them by the given tags.
    Replace,
    /// Add the given tags that are not yet present.
    Add,
    /// Remove the given tags.
    Remove,
}

/// The arguments of the `tailscale` command that signs a device's node
/// key with its tailnet lock key.
pub fn sign_arguments(node_key: &str, tailnet_lock_key: &str) -> (r: Vec<String>)
    ensures
        strings_view(r@) == seq!["lock"@, "sign"@, node_key@, tailnet_lock_key@],
{
    let mut r: Vec<String> = Vec::new();
    r.push(String::from_str("lock"));
    r.push(String::from_str("sign"));
    r.push(String::from_str(node_key));
    r.push(String::from_str(tailnet_lock_key));
    assert(strings_view(r@) =~= seq!["lock"@, "sign"@, node_key@, tailnet_lock_key@]);
    r
}

// ---------------------------------------------------------------------
// Listing devices
// ---------------------------------------------------------------------

/// How the device list is shown.
pub enum Listing {
    /// Patterns were given and match no device.
    NoMatch,
    /// These devices, as JSON.
    Json(Vec<Device>),
    /// Only locked-out devices were asked for, and there are none.
    NoLocked,
    /// These locked-out devices, in the table with their lock keys.
    LockTable(Vec<Device>),
    /// These devices, in the devices table.
    DeviceTable(Vec<Device>),
}

/// The abstract value of a [`Listing`].
pub enum ListingView {
    NoMatch,
    Json(Seq<DeviceView>),
    NoLocked,
    LockTable(Seq<DeviceView>),
    DeviceTable(Seq<DeviceView>),
}

impl View for Listing {
    type V = ListingView;

    open spec fn view(&self) -> ListingView {
        match self {
            Listing::NoMatch => ListingView::NoMatch,
            Listing::Json(v) => ListingView::Json(devices_view(v@)),
            Listing::NoLocked => ListingView::NoLocked,
            Listing::LockTable(v) => ListingView::LockTable(devices_view(v@)),
            Listing::DeviceTable(v) => ListingView::DeviceTable(devices_view(v@)),
        }
    }
}

/// How the devices `all` are listed, given the patterns, whether only
/// locked-out devices are asked for, and whether JSON is asked for.
pub open spec fn listing(ps: Option<Seq<Seq<char>>>, all: Seq<DeviceView>, locked: bool, json: bool) -> ListingView {
    let listed = match ps {
        Some(p) => resolved_devices(p, all),
        None => all,
    };
    let shown = if locked {
        devices_where(listed, DeviceFilter::LockedOut)
    } else {
        listed
    };
    if ps is Some && listed.len() == 0 {
        ListingView::NoMatch
    } else if json {
        ListingView::Json(shown)
    } else if locked && shown.len() == 0 {
        ListingView::NoLocked
    } else if locked {
        ListingView::LockTable(shown)
    } else {
        ListingView::DeviceTable(shown)
    }
}

/// Decides how `devices list` shows the devices: narrowed by the patterns
/// when there are some (a warning when they match nothing), only the
/// locked-out ones when asked, as JSON or as a table.
pub fn plan_listing(patterns: Option<&[String]>, all: &[Device], locked: bool, json: bool) -> (r: Listing)
    ensures
        r@ == listing(
            match patterns {
                Some(p) => Some(strings_view(p@)),
                None => None,
            },
            devices_view(all@),
            locked,
            json,
        ),
{
    let listed = match narrow_devices(patterns, all) {
        Narrowed::NoMatch => {
            return Listing::NoMatch;
        },
        Narrowed::Devices(v) => v,
    };
    let shown = if locked {
        locked_out_devices(listed.as_slice())
    } else {
        listed
    };
    if json {
        Listing::Json(shown)
    } else if locked && shown.len() == 0 {
        Listing::NoLocked
    } else if locked {
        Listing::LockTable(shown)
    } else {
        Listing::DeviceTable(shown)
    }
}

} // verus!
