//! Finding devices and users by a pattern typed on the command line.
//!
//! A device pattern is tried, in order, as an exact ID, an exact name, an
//! exact hostname, a case-insensitive name and a case-insensitive
//! hostname; the first rule that some device satisfies picks the first
//! such device. When no rule does, every device whose name or hostname
//! contains the pattern (case-insensitively) is returned. Users are found
//! the same way by ID, login name and display name.

use vstd::prelude::*;

use crate::models::{devices_view, users_view, Device, DeviceView, User, UserView};
use crate::text::{contains_chars, contains_text, lowercase, str_eq, to_lowercase, chars_of};

verus! {

// ---------------------------------------------------------------------
// Devices
// ---------------------------------------------------------------------

/// The exact rules by which a pattern can single out one device.
pub enum DeviceRule {
    Id,
    Name,
    Hostname,
    NameFolded,
    HostnameFolded,
}

/// Device `d` satisfies `rule` for pattern `p`.
pub open spec fn device_rule_holds(rule: DeviceRule, d: DeviceView, p: Seq<char>) -> bool {
    match rule {
        DeviceRule::Id => d.id == p,
        DeviceRule::Name => d.name == p,
        DeviceRule::Hostname => d.hostname == p,
        DeviceRule::NameFolded => lowercase(d.name) == lowercase(p),
        DeviceRule::HostnameFolded => lowercase(d.hostname) == lowercase(p),
    }
}

/// Some device of `ds` satisfies `rule`.
pub open spec fn some_device_satisfies(ds: Seq<DeviceView>, rule: DeviceRule, p: Seq<char>) -> bool {
    exists|i: int| 0 <= i < ds.len() && #[trigger] device_rule_holds(rule, ds[i], p)
}

/// `i` is the first position of `ds` whose device satisfies `rule`.
pub open spec fn first_device_at(ds: Seq<DeviceView>, rule: DeviceRule, p: Seq<char>, i: int) -> bool {
    &&& 0 <= i < ds.len()
    &&& device_rule_holds(rule, ds[i], p)
    &&& forall|j: int| 0 <= j < i ==> !#[trigger] device_rule_holds(rule, ds[j], p)
}

/// The first device of `ds` that satisfies `rule` (meaningful when one
/// does).
pub open spec fn first_device(ds: Seq<DeviceView>, rule: DeviceRule, p: Seq<char>) -> DeviceView {
    ds[choose|i: int| first_device_at(ds, rule, p, i)]
}

/// Device `d` contains pattern `p`, case-insensitively, in its name or
/// its hostname.
pub open spec fn device_contains(d: DeviceView, p: Seq<char>) -> bool {
    contains_text(lowercase(d.name), lowercase(p)) || contains_text(lowercase(d.hostname), lowercase(p))
}

/// The devices of `ds` that contain `p`, in their order.
pub open spec fn devices_containing(ds: Seq<DeviceView>, p: Seq<char>) -> Seq<DeviceView>
    decreases ds.len(),
{
    if ds.len() == 0 {
        seq![]
    } else {
        let rest = devices_containing(ds.drop_last(), p);
        if device_contains(ds.last(), p) {
            rest.push(ds.last())
        } else {
            rest
        }
    }
}

/// What a pattern selects from a list of devices.
pub open spec fn pattern_matches(p: Seq<char>, ds: Seq<DeviceView>) -> Seq<DeviceView> {
    if some_device_satisfies(ds, DeviceRule::Id, p) {
        seq![first_device(ds, DeviceRule::Id, p)]
    } else if some_device_satisfies(ds, DeviceRule::Name, p) {
        seq![first_device(ds, DeviceRule::Name, p)]
    } else if some_device_satisfies(ds, DeviceRule::Hostname, p) {
        seq![first_device(ds, DeviceRule::Hostname, p)]
    } else if some_device_satisfies(ds, DeviceRule::NameFolded, p) {
        seq![first_device(ds, DeviceRule::NameFolded, p)]
    } else if some_device_satisfies(ds, DeviceRule::HostnameFolded, p) {
        seq![first_device(ds, DeviceRule::HostnameFolded, p)]
    } else {
        devices_containing(ds, p)
    }
}

proof fn lemma_first_device_unique(ds: Seq<DeviceView>, rule: DeviceRule, p: Seq<char>, i: int)
    requires
        first_device_at(ds, rule, p, i),
    ensures
        first_device(ds, rule, p) == ds[i],
{
    let k = choose|k: int| first_device_at(ds, rule, p, k);
    assert(first_device_at(ds, rule, p, k));
    if k < i {
        assert(!device_rule_holds(rule, ds[k], p));
    } else if i < k {
        assert(!device_rule_holds(rule, ds[i], p));
    }
}

fn device_satisfies(d: &Device, rule: &DeviceRule, pattern: &str, folded: &str) -> (r: bool)
    requires
        folded@ == lowercase(pattern@),
    ensures
        r == device_rule_holds(*rule, d@, pattern@),
{
    match rule {
        DeviceRule::Id => str_eq(d.id.as_str(), pattern),
        DeviceRule::Name => str_eq(d.name.as_str(), pattern),
        DeviceRule::Hostname => str_eq(d.hostname.as_str(), pattern),
        DeviceRule::NameFolded => {
            let name = to_lowercase(d.name.as_str());
            str_eq(name.as_str(), folded)
        },
        DeviceRule::HostnameFolded => {
            let host = to_lowercase(d.hostname.as_str());
            str_eq(host.as_str(), folded)
        },
    }
}

/// The position of the first device that satisfies `rule`, if any.
fn first_satisfying(devices: &[Device], rule: &DeviceRule, pattern: &str, folded: &str) -> (r: Option<
    usize,
>)
    requires
        folded@ == lowercase(pattern@),
    ensures
        match r {
            Some(i) => first_device_at(devices_view(devices@), *rule, pattern@, i as int),
            None => !some_device_satisfies(devices_view(devices@), *rule, pattern@),
        },
{
    let ghost ds = devices_view(devices@);
    let mut i: usize = 0;
    while i < devices.len()
        invariant
            ds == devices_view(devices@),
            folded@ == lowercase(pattern@),
            i <= devices@.len(),
            forall|j: int| 0 <= j < i ==> !#[trigger] device_rule_holds(*rule, ds[j], pattern@),
        decreases devices@.len() - i,
    {
        if device_satisfies(&devices[i], rule, pattern, folded) {
            return Some(i);
        }
        i += 1;
    }
    None
}

fn device_contains_exec(d: &Device, folded: &Vec<char>) -> (r: bool)
    ensures
        r == (contains_text(lowercase(d.name@), folded@) || contains_text(
            lowercase(d.hostname@),
            folded@,
        )),
{
    let name = to_lowercase(d.name.as_str());
    let name_chars = chars_of(name.as_str());
    if contains_chars(name_chars.as_slice(), folded.as_slice()) {
        return true;
    }
    let host = to_lowercase(d.hostname.as_str());
    let host_chars = chars_of(host.as_str());
    contains_chars(host_chars.as_slice(), folded.as_slice())
}

/// Finds the devices that `pattern` designates.
///
/// In order: the first device whose ID equals the pattern; else the first
/// whose name does; else the first whose hostname does; else the first
/// whose lower-cased name equals the lower-cased pattern; else the same on
/// hostnames. When none of these exists, all devices whose lower-cased
/// name or hostname contains the lower-cased pattern, in their order.
pub fn find_devices_by_pattern(pattern: &str, devices: &[Device]) -> (r: Vec<Device>)
    ensures
        devices_view(r@) == pattern_matches(pattern@, devices_view(devices@)),
{
    let ghost ds = devices_view(devices@);
    let ghost p = pattern@;
    let folded = to_lowercase(pattern);
    let rules = [
        DeviceRule::Id,
        DeviceRule::Name,
        DeviceRule::Hostname,
        DeviceRule::NameFolded,
        DeviceRule::HostnameFolded,
    ];
    let mut k: usize = 0;
    while k < 5
        invariant
            ds == devices_view(devices@),
            p == pattern@,
            folded@ == lowercase(p),
            k <= 5,
            rules@ == seq![
                DeviceRule::Id,
                DeviceRule::Name,
                DeviceRule::Hostname,
                DeviceRule::NameFolded,
                DeviceRule::HostnameFolded,
            ],
            forall|j: int| 0 <= j < k ==> !some_device_satisfies(ds, #[trigger] rules@[j], p),
        decreases 5 - k,
    {
        match first_satisfying(devices, &rules[k], pattern, folded.as_str()) {
            Some(i) => {
                let mut r: Vec<Device> = Vec::new();
                r.push(devices[i].clone());
                proof {
                    lemma_first_device_unique(ds, rules@[k as int], p, i as int);
                    assert(!some_device_satisfies(ds, rules@[0], p) ==> k > 0);
                    if k >= 1 {
                        assert(!some_device_satisfies(ds, rules@[0], p));
                    }
                    if k >= 2 {
                        assert(!some_device_satisfies(ds, rules@[1], p));
                    }
                    if k >= 3 {
                        assert(!some_device_satisfies(ds, rules@[2], p));
                    }
                    if k >= 4 {
                        assert(!some_device_satisfies(ds, rules@[3], p));
                    }
                    assert(some_device_satisfies(ds, rules@[k as int], p));
                    assert(devices_view(r@) =~= seq![ds[i as int]]);
                }
                return r;
            },
            None => {},
        }
        k += 1;
    }
    proof {
        assert(!some_device_satisfies(ds, rules@[0], p));
        assert(!some_device_satisfies(ds, rules@[1], p));
        assert(!some_device_satisfies(ds, rules@[2], p));
        assert(!some_device_satisfies(ds, rules@[3], p));
        assert(!some_device_satisfies(ds, rules@[4], p));
    }
    let folded_chars = chars_of(folded.as_str());
    let mut r: Vec<Device> = Vec::new();
    let mut i: usize = 0;
    while i < devices.len()
        invariant
            ds == devices_view(devices@),
            p == pattern@,
            folded_chars@ == lowercase(p),
            i <= devices@.len(),
            devices_view(r@) == devices_containing(ds.take(i as int), p),
        decreases devices@.len() - i,
    {
        assert(ds.take(i + 1).drop_last() =~= ds.take(i as int));
        if device_contains_exec(&devices[i], &folded_chars) {
            r.push(devices[i].clone());
        }
        i += 1;
        assert(devices_view(r@) =~= devices_containing(ds.take(i as int), p));
    }
    assert(ds.take(devices@.len() as int) =~= ds);
    r
}

// ---------------------------------------------------------------------
// Several patterns
// ---------------------------------------------------------------------

/// The IDs of a sequence of devices.
pub open spec fn ids_of(ds: Seq<DeviceView>) -> Seq<Seq<char>> {
    ds.map_values(|d: DeviceView| d.id)
}

/// `acc` extended by the devices of `ms`, in order, each one skipped when
/// a device with its ID is already present.
pub open spec fn append_unseen(acc: Seq<DeviceView>, ms: Seq<DeviceView>) -> Seq<DeviceView>
    decreases ms.len(),
{
    if ms.len() == 0 {
        acc
    } else {
        let prev = append_unseen(acc, ms.drop_last());
        if ids_of(prev).contains(ms.last().id) {
            prev
        } else {
            prev.push(ms.last())
        }
    }
}

/// The devices that a list of patterns designates: the matches of each
/// pattern in turn, each device kept once (by ID), at its first
/// appearance.
pub open spec fn resolved_devices(ps: Seq<Seq<char>>, ds: Seq<DeviceView>) -> Seq<DeviceView>
    decreases ps.len(),
{
    if ps.len() == 0 {
        seq![]
    } else {
        append_unseen(resolved_devices(ps.drop_last(), ds), pattern_matches(ps.last(), ds))
    }
}

fn contains_id(matched: &Vec<Device>, id: &str) -> (r: bool)
    ensures
        r == ids_of(devices_view(matched@)).contains(id@),
{
    let ghost ids = ids_of(devices_view(matched@));
    let mut i: usize = 0;
    while i < matched.len()
        invariant
            ids == ids_of(devices_view(matched@)),
            i <= matched@.len(),
            forall|j: int| 0 <= j < i ==> ids[j] != id@,
        decreases matched@.len() - i,
    {
        if str_eq(matched[i].id.as_str(), id) {
            assert(ids[i as int] == id@);
            return true;
        }
        i += 1;
    }
    false
}

/// Resolves several patterns to devices: the devices that each pattern
/// designates, pattern after pattern, without repeating a device ID.
pub fn resolve_device_patterns(patterns: &[String], all_devices: &[Device]) -> (r: Vec<Device>)
    ensures
        devices_view(r@) == resolved_devices(
            crate::models::strings_view(patterns@),
            devices_view(all_devices@),
        ),
{
    let ghost ps = crate::models::strings_view(patterns@);
    let ghost ds = devices_view(all_devices@);
    let mut matched: Vec<Device> = Vec::new();
    let mut i: usize = 0;
    while i < patterns.len()
        invariant
            ps == crate::models::strings_view(patterns@),
            ds == devices_view(all_devices@),
            i <= patterns@.len(),
            devices_view(matched@) == resolved_devices(ps.take(i as int), ds),
        decreases patterns@.len() - i,
    {
        let ms = find_devices_by_pattern(patterns[i].as_str(), all_devices);
        let ghost acc = devices_view(matched@);
        let ghost mv = devices_view(ms@);
        let mut j: usize = 0;
        while j < ms.len()
            invariant
                mv == devices_view(ms@),
                j <= ms@.len(),
                devices_view(matched@) == append_unseen(acc, mv.take(j as int)),
            decreases ms@.len() - j,
        {
            assert(mv.take(j + 1).drop_last() =~= mv.take(j as int));
            if !contains_id(&matched, ms[j].id.as_str()) {
                matched.push(ms[j].clone());
            }
            j += 1;
            assert(devices_view(matched@) =~= append_unseen(acc, mv.take(j as int)));
        }
        assert(mv.take(ms@.len() as int) =~= mv);
        assert(ps.take(i + 1).drop_last() =~= ps.take(i as int));
        assert(ps.take(i + 1).last() == ps[i as int]);
        i += 1;
    }
    assert(ps.take(patterns@.len() as int) =~= ps);
    matched
}

// ---------------------------------------------------------------------
// Laws of matching and resolution
// ---------------------------------------------------------------------

proof fn lemma_containing_within(ds: Seq<DeviceView>, p: Seq<char>)
    ensures
        forall|k: int|
            0 <= k < devices_containing(ds, p).len() ==> ds.contains(
                #[trigger] devices_containing(ds, p)[k],
            ) && device_contains(devices_containing(ds, p)[k], p),
    decreases ds.len(),
{
    if ds.len() > 0 {
        lemma_containing_within(ds.drop_last(), p);
        let rest = devices_containing(ds.drop_last(), p);
        assert forall|k: int| 0 <= k < devices_containing(ds, p).len() implies ds.contains(
            #[trigger] devices_containing(ds, p)[k],
        ) && device_contains(devices_containing(ds, p)[k], p) by {
            if k < rest.len() {
                let x = rest[k];
                let w = choose|w: int| 0 <= w < ds.drop_last().len() && ds.drop_last()[w] == x;
                assert(ds[w] == x);
            } else {
                assert(ds[ds.len() - 1] == ds.last());
            }
        }
    }
}

proof fn lemma_first_device_within(ds: Seq<DeviceView>, rule: DeviceRule, p: Seq<char>)
    requires
        some_device_satisfies(ds, rule, p),
    ensures
        ds.contains(first_device(ds, rule, p)),
        device_rule_holds(rule, first_device(ds, rule, p), p),
{
    let w = choose|i: int| 0 <= i < ds.len() && #[trigger] device_rule_holds(rule, ds[i], p);
    lemma_least_exists(ds, rule, p, w);
    let k = choose|k: int| first_device_at(ds, rule, p, k);
    lemma_first_device_unique(ds, rule, p, k);
}

proof fn lemma_least_exists(ds: Seq<DeviceView>, rule: DeviceRule, p: Seq<char>, w: int)
    requires
        0 <= w < ds.len(),
        device_rule_holds(rule, ds[w], p),
    ensures
        exists|k: int| first_device_at(ds, rule, p, k),
    decreases w,
{
    if exists|j: int| 0 <= j < w && #[trigger] device_rule_holds(rule, ds[j], p) {
        let j = choose|j: int| 0 <= j < w && #[trigger] device_rule_holds(rule, ds[j], p);
        lemma_least_exists(ds, rule, p, j);
    } else {
        assert(first_device_at(ds, rule, p, w));
    }
}

/// Every device that a pattern designates is one of the given devices.
pub proof fn law_pattern_matches_are_members(p: Seq<char>, ds: Seq<DeviceView>)
    ensures
        forall|k: int|
            0 <= k < pattern_matches(p, ds).len() ==> ds.contains(
                #[trigger] pattern_matches(p, ds)[k],
            ),
{
    lemma_containing_within(ds, p);
    if some_device_satisfies(ds, DeviceRule::Id, p) {
        lemma_first_device_within(ds, DeviceRule::Id, p);
    } else if some_device_satisfies(ds, DeviceRule::Name, p) {
        lemma_first_device_within(ds, DeviceRule::Name, p);
    } else if some_device_satisfies(ds, DeviceRule::Hostname, p) {
        lemma_first_device_within(ds, DeviceRule::Hostname, p);
    } else if some_device_satisfies(ds, DeviceRule::NameFolded, p) {
        lemma_first_device_within(ds, DeviceRule::NameFolded, p);
    } else if some_device_satisfies(ds, DeviceRule::HostnameFolded, p) {
        lemma_first_device_within(ds, DeviceRule::HostnameFolded, p);
    }
}

/// A pattern equal to the ID of some device designates exactly one
/// device, and that device has this ID.
pub proof fn law_exact_id_designates_one_device(p: Seq<char>, ds: Seq<DeviceView>)
    requires
        exists|i: int| 0 <= i < ds.len() && ds[i].id == p,
    ensures
        pattern_matches(p, ds).len() == 1,
        pattern_matches(p, ds)[0].id == p,
{
    let i = choose|i: int| 0 <= i < ds.len() && ds[i].id == p;
    assert(device_rule_holds(DeviceRule::Id, ds[i], p));
    lemma_first_device_within(ds, DeviceRule::Id, p);
}

proof fn lemma_first_is(ds: Seq<DeviceView>, rule: DeviceRule, p: Seq<char>, j: int)
    requires
        first_device_at(ds, rule, p, j),
    ensures
        some_device_satisfies(ds, rule, p),
        first_device(ds, rule, p) == ds[j],
{
    assert(device_rule_holds(rule, ds[j], p));
    lemma_first_device_unique(ds, rule, p, j);
}

/// The first device whose ID equals the pattern is the one device the
/// pattern designates.
pub proof fn law_first_exact_id(p: Seq<char>, ds: Seq<DeviceView>, j: int)
    requires
        0 <= j < ds.len(),
        ds[j].id == p,
        forall|i: int| 0 <= i < j ==> (#[trigger] ds[i]).id != p,
    ensures
        pattern_matches(p, ds) == seq![ds[j]],
{
    lemma_first_is(ds, DeviceRule::Id, p, j);
}

/// When no device has the pattern as its ID, the first device whose name
/// equals the pattern is the one device it designates.
pub proof fn law_first_exact_name(p: Seq<char>, ds: Seq<DeviceView>, j: int)
    requires
        0 <= j < ds.len(),
        ds[j].name == p,
        forall|i: int| 0 <= i < j ==> (#[trigger] ds[i]).name != p,
        forall|i: int| 0 <= i < ds.len() ==> (#[trigger] ds[i]).id != p,
    ensures
        pattern_matches(p, ds) == seq![ds[j]],
{
    assert(!some_device_satisfies(ds, DeviceRule::Id, p));
    lemma_first_is(ds, DeviceRule::Name, p, j);
}

/// When no device has the pattern as its ID or name, the first device
/// whose hostname equals the pattern is the one device it designates.
pub proof fn law_first_exact_hostname(p: Seq<char>, ds: Seq<DeviceView>, j: int)
    requires
        0 <= j < ds.len(),
        ds[j].hostname == p,
        forall|i: int| 0 <= i < j ==> (#[trigger] ds[i]).hostname != p,
        forall|i: int| 0 <= i < ds.len() ==> (#[trigger] ds[i]).id != p && ds[i].name != p,
    ensures
        pattern_matches(p, ds) == seq![ds[j]],
{
    assert(!some_device_satisfies(ds, DeviceRule::Id, p));
    assert(!some_device_satisfies(ds, DeviceRule::Name, p));
    lemma_first_is(ds, DeviceRule::Hostname, p, j);
}

/// When no device has the pattern as its ID, name or hostname, the first
/// device whose name equals the pattern ignoring case is the one device
/// it designates.
pub proof fn law_first_name_ignoring_case(p: Seq<char>, ds: Seq<DeviceView>, j: int)
    requires
        0 <= j < ds.len(),
        lowercase(ds[j].name) == lowercase(p),
        forall|i: int| 0 <= i < j ==> lowercase((#[trigger] ds[i]).name) != lowercase(p),
        forall|i: int|
            0 <= i < ds.len() ==> (#[trigger] ds[i]).id != p && ds[i].name != p && ds[i].hostname != p,
    ensures
        pattern_matches(p, ds) == seq![ds[j]],
{
    assert(!some_device_satisfies(ds, DeviceRule::Id, p));
    assert(!some_device_satisfies(ds, DeviceRule::Name, p));
    assert(!some_device_satisfies(ds, DeviceRule::Hostname, p));
    lemma_first_is(ds, DeviceRule::NameFolded, p, j);
}

/// When no device has the pattern as its ID, name or hostname, nor as its
/// name ignoring case, the first device whose hostname equals the pattern
/// ignoring case is the one device it designates.
pub proof fn law_first_hostname_ignoring_case(p: Seq<char>, ds: Seq<DeviceView>, j: int)
    requires
        0 <= j < ds.len(),
        lowercase(ds[j].hostname) == lowercase(p),
        forall|i: int| 0 <= i < j ==> lowercase((#[trigger] ds[i]).hostname) != lowercase(p),
        forall|i: int|
            0 <= i < ds.len() ==> (#[trigger] ds[i]).id != p && ds[i].name != p && ds[i].hostname != p
                && lowercase(ds[i].name) != lowercase(p),
    ensures
        pattern_matches(p, ds) == seq![ds[j]],
{
    assert(!some_device_satisfies(ds, DeviceRule::Id, p));
    assert(!some_device_satisfies(ds, DeviceRule::Name, p));
    assert(!some_device_satisfies(ds, DeviceRule::Hostname, p));
    assert(!some_device_satisfies(ds, DeviceRule::NameFolded, p));
    lemma_first_is(ds, DeviceRule::HostnameFolded, p, j);
}

/// When no device matches the pattern exactly (by ID, name or hostname,
/// with or without case), the pattern designates exactly the devices whose
/// lower-cased name or hostname contains the lower-cased pattern: each
/// designated device is one of the given ones and contains it, and each
/// given device that contains it is designated.
pub proof fn law_substring_fallback(p: Seq<char>, ds: Seq<DeviceView>)
    requires
        forall|i: int|
            0 <= i < ds.len() ==> (#[trigger] ds[i]).id != p && ds[i].name != p && ds[i].hostname != p
                && lowercase(ds[i].name) != lowercase(p) && lowercase(ds[i].hostname) != lowercase(p),
    ensures
        forall|k: int|
            0 <= k < pattern_matches(p, ds).len() ==> ds.contains(#[trigger] pattern_matches(p, ds)[k]) && (
            contains_text(lowercase(pattern_matches(p, ds)[k].name), lowercase(p)) || contains_text(
                lowercase(pattern_matches(p, ds)[k].hostname),
                lowercase(p),
            )),
        forall|k: int|
            0 <= k < ds.len() && (contains_text(lowercase(ds[k].name), lowercase(p)) || contains_text(
                lowercase(ds[k].hostname),
                lowercase(p),
            )) ==> pattern_matches(p, ds).contains(#[trigger] ds[k]),
{
    assert(!some_device_satisfies(ds, DeviceRule::Id, p));
    assert(!some_device_satisfies(ds, DeviceRule::Name, p));
    assert(!some_device_satisfies(ds, DeviceRule::Hostname, p));
    assert(!some_device_satisfies(ds, DeviceRule::NameFolded, p));
    assert(!some_device_satisfies(ds, DeviceRule::HostnameFolded, p));
    law_fallback_devices_contain_pattern(p, ds);
    law_pattern_matches_are_members(p, ds);
}

/// When no exact rule applies, the devices designated are those whose name
/// or hostname contains the pattern, case-insensitively.
pub proof fn law_fallback_devices_contain_pattern(p: Seq<char>, ds: Seq<DeviceView>)
    requires
        !some_device_satisfies(ds, DeviceRule::Id, p),
        !some_device_satisfies(ds, DeviceRule::Name, p),
        !some_device_satisfies(ds, DeviceRule::Hostname, p),
        !some_device_satisfies(ds, DeviceRule::NameFolded, p),
        !some_device_satisfies(ds, DeviceRule::HostnameFolded, p),
    ensures
        forall|k: int|
            0 <= k < pattern_matches(p, ds).len() ==> device_contains(
                #[trigger] pattern_matches(p, ds)[k],
                p,
            ),
        forall|k: int|
            0 <= k < ds.len() && device_contains(ds[k], p) ==> pattern_matches(p, ds).contains(
                #[trigger] ds[k],
            ),
{
    lemma_containing_within(ds, p);
    lemma_containing_complete(ds, p);
}

proof fn lemma_containing_complete(ds: Seq<DeviceView>, p: Seq<char>)
    ensures
        forall|k: int|
            0 <= k < ds.len() && device_contains(ds[k], p) ==> devices_containing(ds, p).contains(
                #[trigger] ds[k],
            ),
    decreases ds.len(),
{
    if ds.len() > 0 {
        lemma_containing_complete(ds.drop_last(), p);
        let rest = devices_containing(ds.drop_last(), p);
        assert forall|k: int| 0 <= k < ds.len() && device_contains(ds[k], p) implies devices_containing(
            ds,
            p,
        ).contains(#[trigger] ds[k]) by {
            if k < ds.len() - 1 {
                assert(ds.drop_last()[k] == ds[k]);
                let w = choose|w: int| 0 <= w < rest.len() && rest[w] == ds[k];
                assert(devices_containing(ds, p)[w] == ds[k]);
            } else {
                let r = devices_containing(ds, p);
                assert(r[r.len() - 1] == ds[k]);
            }
        }
    }
}

proof fn lemma_append_unseen(acc: Seq<DeviceView>, ms: Seq<DeviceView>)
    ensures
        append_unseen(acc, ms).len() >= acc.len(),
        append_unseen(acc, ms).subrange(0, acc.len() as int) == acc,
        forall|k: int|
            0 <= k < append_unseen(acc, ms).len() ==> acc.contains(
                #[trigger] append_unseen(acc, ms)[k],
            ) || ms.contains(append_unseen(acc, ms)[k]),
        forall|k: int|
            0 <= k < ms.len() ==> ids_of(append_unseen(acc, ms)).contains(#[trigger] ms[k].id),
        ids_of(acc).no_duplicates() ==> ids_of(append_unseen(acc, ms)).no_duplicates(),
    decreases ms.len(),
{
    if ms.len() == 0 {
        assert(acc.subrange(0, acc.len() as int) =~= acc);
    } else {
        lemma_append_unseen(acc, ms.drop_last());
        let prev = append_unseen(acc, ms.drop_last());
        let last = ms.last();
        let r = append_unseen(acc, ms);
        if ids_of(prev).contains(last.id) {
            assert(r == prev);
        } else {
            assert(r == prev.push(last));
            assert(r.subrange(0, acc.len() as int) =~= prev.subrange(0, acc.len() as int));
            assert(ids_of(r) =~= ids_of(prev).push(last.id));
            assert(ids_of(r)[r.len() - 1] == last.id);
        }
        assert forall|k: int| 0 <= k < r.len() implies acc.contains(#[trigger] r[k]) || ms.contains(
            r[k],
        ) by {
            if k < prev.len() {
                assert(r[k] == prev[k]);
                if ms.drop_last().contains(prev[k]) {
                    let w = choose|w: int| 0 <= w < ms.drop_last().len() && ms.drop_last()[w] == prev[k];
                    assert(ms[w] == prev[k]);
                }
            } else {
                assert(ms[ms.len() - 1] == last);
            }
        }
        assert forall|k: int| 0 <= k < ms.len() implies ids_of(r).contains(#[trigger] ms[k].id) by {
            if k < ms.len() - 1 {
                assert(ms.drop_last()[k] == ms[k]);
                let w = choose|w: int| 0 <= w < ids_of(prev).len() && ids_of(prev)[w] == ms[k].id;
                assert(ids_of(r)[w] == ids_of(prev)[w]);
            } else if ids_of(prev).contains(last.id) {
            } else {
                assert(ids_of(r)[r.len() - 1] == last.id);
            }
        }
    }
}

proof fn lemma_resolved(ps: Seq<Seq<char>>, ds: Seq<DeviceView>)
    ensures
        ids_of(resolved_devices(ps, ds)).no_duplicates(),
        forall|k: int|
            0 <= k < resolved_devices(ps, ds).len() ==> ds.contains(
                #[trigger] resolved_devices(ps, ds)[k],
            ),
        forall|i: int, k: int|
            0 <= i < ps.len() && 0 <= k < pattern_matches(ps[i], ds).len() ==> ids_of(
                resolved_devices(ps, ds),
            ).contains(#[trigger] pattern_matches(ps[i], ds)[k].id),
    decreases ps.len(),
{
    if ps.len() == 0 {
        assert(ids_of(resolved_devices(ps, ds)) =~= Seq::<Seq<char>>::empty());
    } else {
        lemma_resolved(ps.drop_last(), ds);
        let prev = resolved_devices(ps.drop_last(), ds);
        let ms = pattern_matches(ps.last(), ds);
        let r = resolved_devices(ps, ds);
        lemma_append_unseen(prev, ms);
        law_pattern_matches_are_members(ps.last(), ds);
        assert forall|k: int| 0 <= k < r.len() implies ds.contains(#[trigger] r[k]) by {
            if prev.contains(r[k]) {
                let w = choose|w: int| 0 <= w < prev.len() && prev[w] == r[k];
                assert(ds.contains(prev[w]));
            } else {
                let w = choose|w: int| 0 <= w < ms.len() && ms[w] == r[k];
                assert(ds.contains(ms[w]));
            }
        }
        assert forall|i: int, k: int|
            0 <= i < ps.len() && 0 <= k < pattern_matches(ps[i], ds).len() implies ids_of(
            r,
        ).contains(#[trigger] pattern_matches(ps[i], ds)[k].id) by {
            if i < ps.len() - 1 {
                assert(ps.drop_last()[i] == ps[i]);
                let id = pattern_matches(ps[i], ds)[k].id;
                assert(ids_of(prev).contains(id));
                let w = choose|w: int| 0 <= w < ids_of(prev).len() && ids_of(prev)[w] == id;
                assert(r.subrange(0, prev.len() as int) == prev);
                assert(r[w] == prev[w]);
                assert(ids_of(r)[w] == id);
            } else {
                assert(ps[i] == ps.last());
            }
        }
    }
}

/// Resolving patterns never yields two devices with the same ID.
pub proof fn law_resolved_ids_distinct(ps: Seq<Seq<char>>, ds: Seq<DeviceView>)
    ensures
        ids_of(resolved_devices(ps, ds)).no_duplicates(),
{
    lemma_resolved(ps, ds);
}

/// Every resolved device is one of the given devices.
pub proof fn law_resolved_are_members(ps: Seq<Seq<char>>, ds: Seq<DeviceView>)
    ensures
        forall|k: int|
            0 <= k < resolved_devices(ps, ds).len() ==> ds.contains(
                #[trigger] resolved_devices(ps, ds)[k],
            ),
{
    lemma_resolved(ps, ds);
}

/// Every device that one of the patterns designates is represented, by its
/// ID, among the resolved devices.
pub proof fn law_resolved_covers_every_pattern(ps: Seq<Seq<char>>, ds: Seq<DeviceView>)
    ensures
        forall|i: int, k: int|
            0 <= i < ps.len() && 0 <= k < pattern_matches(ps[i], ds).len() ==> ids_of(
                resolved_devices(ps, ds),
            ).contains(#[trigger] pattern_matches(ps[i], ds)[k].id),
{
    lemma_resolved(ps, ds);
}

/// Repeating a pattern that is already in the list changes nothing.
pub proof fn law_repeated_pattern_is_idempotent(ps: Seq<Seq<char>>, ds: Seq<DeviceView>, i: int)
    requires
        0 <= i < ps.len(),
    ensures
        resolved_devices(ps.push(ps[i]), ds) == resolved_devices(ps, ds),
{
    lemma_resolved(ps, ds);
    let prev = resolved_devices(ps, ds);
    let ms = pattern_matches(ps[i], ds);
    assert(ps.push(ps[i]).drop_last() =~= ps);
    lemma_append_all_seen(prev, ms);
}

proof fn lemma_append_all_seen(acc: Seq<DeviceView>, ms: Seq<DeviceView>)
    requires
        forall|k: int| 0 <= k < ms.len() ==> ids_of(acc).contains(#[trigger] ms[k].id),
    ensures
        append_unseen(acc, ms) == acc,
    decreases ms.len(),
{
    if ms.len() > 0 {
        assert forall|k: int| 0 <= k < ms.drop_last().len() implies ids_of(acc).contains(
            #[trigger] ms.drop_last()[k].id,
        ) by {
            assert(ms.drop_last()[k] == ms[k]);
        }
        lemma_append_all_seen(acc, ms.drop_last());
        assert(ids_of(acc).contains(ms[ms.len() - 1].id));
    }
}

/// With devices of distinct IDs, resolving a single pattern gives exactly
/// the devices that the pattern designates.
pub proof fn law_single_pattern_resolves_to_its_matches(p: Seq<char>, ds: Seq<DeviceView>)
    requires
        ids_of(ds).no_duplicates(),
    ensures
        resolved_devices(seq![p], ds) == pattern_matches(p, ds),
{
    let ps = seq![p];
    assert(ps.drop_last() =~= Seq::<Seq<char>>::empty());
    assert(ps.last() == p);
    let ms = pattern_matches(p, ds);
    law_pattern_matches_are_members(p, ds);
    lemma_matches_distinct(p, ds);
    lemma_append_distinct(ms);
    assert(resolved_devices(ps.drop_last(), ds) =~= Seq::<DeviceView>::empty());
    assert(resolved_devices(ps, ds) == append_unseen(seq![], ms));
}

proof fn lemma_append_distinct(ms: Seq<DeviceView>)
    requires
        ids_of(ms).no_duplicates(),
    ensures
        append_unseen(seq![], ms) == ms,
    decreases ms.len(),
{
    if ms.len() > 0 {
        let front = ms.drop_last();
        assert(ids_of(front) =~= ids_of(ms).drop_last());
        lemma_append_distinct(front);
        assert(append_unseen(seq![], front) == front);
        if ids_of(front).contains(ms.last().id) {
            let w = choose|w: int| 0 <= w < ids_of(front).len() && ids_of(front)[w] == ms.last().id;
            assert(ids_of(ms)[w] == ids_of(ms)[ms.len() - 1]);
        }
        assert(front.push(ms.last()) =~= ms);
    }
}

proof fn lemma_matches_distinct(p: Seq<char>, ds: Seq<DeviceView>)
    requires
        ids_of(ds).no_duplicates(),
    ensures
        ids_of(pattern_matches(p, ds)).no_duplicates(),
{
    lemma_containing_distinct(ds, p);
}

proof fn lemma_containing_distinct(ds: Seq<DeviceView>, p: Seq<char>)
    requires
        ids_of(ds).no_duplicates(),
    ensures
        ids_of(devices_containing(ds, p)).no_duplicates(),
    decreases ds.len(),
{
    if ds.len() > 0 {
        let front = ds.drop_last();
        assert(ids_of(front) =~= ids_of(ds).drop_last());
        lemma_containing_distinct(front, p);
        lemma_containing_within(front, p);
        let rest = devices_containing(front, p);
        if device_contains(ds.last(), p) {
            let r = rest.push(ds.last());
            assert forall|a: int, b: int|
                0 <= a < ids_of(r).len() && 0 <= b < ids_of(r).len() && a != b implies ids_of(r)[a]
                != ids_of(r)[b] by {
                if a < rest.len() && b < rest.len() {
                    assert(ids_of(r)[a] == ids_of(rest)[a]);
                    assert(ids_of(r)[b] == ids_of(rest)[b]);
                } else {
                    let x = if a < rest.len() { a } else { b };
                    assert(front.contains(rest[x]));
                    let w = choose|w: int| 0 <= w < front.len() && front[w] == rest[x];
                    assert(ids_of(ds)[w] != ids_of(ds)[ds.len() - 1]);
                }
            }
        }
    }
}

// ---------------------------------------------------------------------
// Users
// ---------------------------------------------------------------------

/// The exact rules by which a pattern can single out one user.
pub enum UserRule {
    Id,
    LoginName,
    LoginNameFolded,
}

/// User `u` satisfies `rule` for pattern `p`.
pub open spec fn user_rule_holds(rule: UserRule, u: UserView, p: Seq<char>) -> bool {
    match rule {
        UserRule::Id => u.id == p,
        UserRule::LoginName => u.login_name == p,
        UserRule::LoginNameFolded => lowercase(u.login_name) == lowercase(p),
    }
}

/// Some user of `us` satisfies `rule`.
pub open spec fn some_user_satisfies(us: Seq<UserView>, rule: UserRule, p: Seq<char>) -> bool {
    exists|i: int| 0 <= i < us.len() && #[trigger] user_rule_holds(rule, us[i], p)
}

/// `i` is the first position of `us` whose user satisfies `rule`.
pub open spec fn first_user_at(us: Seq<UserView>, rule: UserRule, p: Seq<char>, i: int) -> bool {
    &&& 0 <= i < us.len()
    &&& user_rule_holds(rule, us[i], p)
    &&& forall|j: int| 0 <= j < i ==> !#[trigger] user_rule_holds(rule, us[j], p)
}

/// The first user of `us` that satisfies `rule`.
pub open spec fn first_user(us: Seq<UserView>, rule: UserRule, p: Seq<char>) -> UserView {
    us[choose|i: int| first_user_at(us, rule, p, i)]
}

/// User `u` contains `p`, case-insensitively, in its login name or its
/// display name.
pub open spec fn user_contains(u: UserView, p: Seq<char>) -> bool {
    contains_text(lowercase(u.login_name), lowercase(p)) || contains_text(
        lowercase(u.display_name),
        lowercase(p),
    )
}

/// The users of `us` that contain `p`, in their order.
pub open spec fn users_containing(us: Seq<UserView>, p: Seq<char>) -> Seq<UserView>
    decreases us.len(),
{
    if us.len() == 0 {
        seq![]
    } else {
        let rest = users_containing(us.drop_last(), p);
        if user_contains(us.last(), p) {
            rest.push(us.last())
        } else {
            rest
        }
    }
}

/// Why a user pattern designates no single user.
pub enum UserLookupError {
    /// No user matches the pattern.
    NotFound,
    /// Several users contain the pattern; they are listed in their order.
    Ambiguous(Vec<User>),
}

/// The abstract value of a lookup's outcome.
pub enum UserLookupView {
    Found(UserView),
    NotFound,
    Ambiguous(Seq<UserView>),
}

/// The outcome of looking up pattern `p` among the users `us`: the first
/// user with that ID, else with that login name, else with that login
/// name up to case; else the single user that contains the pattern in its
/// login or display name; no user, or several, is an error.
pub open spec fn user_lookup(p: Seq<char>, us: Seq<UserView>) -> UserLookupView {
    if some_user_satisfies(us, UserRule::Id, p) {
        UserLookupView::Found(first_user(us, UserRule::Id, p))
    } else if some_user_satisfies(us, UserRule::LoginName, p) {
        UserLookupView::Found(first_user(us, UserRule::LoginName, p))
    } else if some_user_satisfies(us, UserRule::LoginNameFolded, p) {
        UserLookupView::Found(first_user(us, UserRule::LoginNameFolded, p))
    } else {
        let ms = users_containing(us, p);
        if ms.len() == 0 {
            UserLookupView::NotFound
        } else if ms.len() == 1 {
            UserLookupView::Found(ms[0])
        } else {
            UserLookupView::Ambiguous(ms)
        }
    }
}

/// The abstract value of the result of [`find_user_by_pattern`].
pub open spec fn user_lookup_result_view(r: Result<User, UserLookupError>) -> UserLookupView {
    match r {
        Ok(u) => UserLookupView::Found(u@),
        Err(UserLookupError::NotFound) => UserLookupView::NotFound,
        Err(UserLookupError::Ambiguous(v)) => UserLookupView::Ambiguous(users_view(v@)),
    }
}

proof fn lemma_first_user_unique(us: Seq<UserView>, rule: UserRule, p: Seq<char>, i: int)
    requires
        first_user_at(us, rule, p, i),
    ensures
        first_user(us, rule, p) == us[i],
{
    let k = choose|k: int| first_user_at(us, rule, p, k);
    assert(first_user_at(us, rule, p, k));
    if k < i {
        assert(!user_rule_holds(rule, us[k], p));
    } else if i < k {
        assert(!user_rule_holds(rule, us[i], p));
    }
}

fn user_satisfies(u: &User, rule: &UserRule, pattern: &str, folded: &str) -> (r: bool)
    requires
        folded@ == lowercase(pattern@),
    ensures
        r == user_rule_holds(*rule, u@, pattern@),
{
    match rule {
        UserRule::Id => str_eq(u.id.as_str(), pattern),
        UserRule::LoginName => str_eq(u.login_name.as_str(), pattern),
        UserRule::LoginNameFolded => {
            let login = to_lowercase(u.login_name.as_str());
            str_eq(login.as_str(), folded)
        },
    }
}

fn first_satisfying_user(users: &[User], rule: &UserRule, pattern: &str, folded: &str) -> (r: Option<
    usize,
>)
    requires
        folded@ == lowercase(pattern@),
    ensures
        match r {
            Some(i) => first_user_at(users_view(users@), *rule, pattern@, i as int),
            None => !some_user_satisfies(users_view(users@), *rule, pattern@),
        },
{
    let ghost us = users_view(users@);
    let mut i: usize = 0;
    while i < users.len()
        invariant
            us == users_view(users@),
            folded@ == lowercase(pattern@),
            i <= users@.len(),
            forall|j: int| 0 <= j < i ==> !#[trigger] user_rule_holds(*rule, us[j], pattern@),
        decreases users@.len() - i,
    {
        if user_satisfies(&users[i], rule, pattern, folded) {
            return Some(i);
        }
        i += 1;
    }
    None
}

fn user_contains_exec(u: &User, folded: &Vec<char>) -> (r: bool)
    ensures
        r == (contains_text(lowercase(u.login_name@), folded@) || contains_text(
            lowercase(u.display_name@),
            folded@,
        )),
{
    let login = to_lowercase(u.login_name.as_str());
    let login_chars = chars_of(login.as_str());
    if contains_chars(login_chars.as_slice(), folded.as_slice()) {
        return true;
    }
    let display = to_lowercase(u.display_name.as_str());
    let display_chars = chars_of(display.as_str());
    contains_chars(display_chars.as_slice(), folded.as_slice())
}

/// Finds the single user that `pattern` designates: by exact ID, exact
/// login name, or login name up to case; failing these, the one user whose
/// login or display name contains the pattern up to case. No such user,
/// or several, is an error that says which.
pub fn find_user_by_pattern(pattern: &str, users: &[User]) -> (r: Result<User, UserLookupError>)
    ensures
        user_lookup_result_view(r) == user_lookup(pattern@, users_view(users@)),
{
    let ghost us = users_view(users@);
    let ghost p = pattern@;
    let folded = to_lowercase(pattern);
    let rules = [UserRule::Id, UserRule::LoginName, UserRule::LoginNameFolded];
    let mut k: usize = 0;
    while k < 3
        invariant
            us == users_view(users@),
            p == pattern@,
            folded@ == lowercase(p),
            k <= 3,
            rules@ == seq![UserRule::Id, UserRule::LoginName, UserRule::LoginNameFolded],
            forall|j: int| 0 <= j < k ==> !some_user_satisfies(us, #[trigger] rules@[j], p),
        decreases 3 - k,
    {
        match first_satisfying_user(users, &rules[k], pattern, folded.as_str()) {
            Some(i) => {
                let u = users[i].clone();
                proof {
                    lemma_first_user_unique(us, rules@[k as int], p, i as int);
                    if k >= 1 {
                        assert(!some_user_satisfies(us, rules@[0], p));
                    }
                    if k >= 2 {
                        assert(!some_user_satisfies(us, rules@[1], p));
                    }
                    assert(some_user_satisfies(us, rules@[k as int], p));
                }
                return Ok(u);
            },
            None => {},
        }
        k += 1;
    }
    proof {
        assert(!some_user_satisfies(us, rules@[0], p));
        assert(!some_user_satisfies(us, rules@[1], p));
        assert(!some_user_satisfies(us, rules@[2], p));
    }
    let folded_chars = chars_of(folded.as_str());
    let mut ms: Vec<User> = Vec::new();
    let mut i: usize = 0;
    while i < users.len()
        invariant
            us == users_view(users@),
            p == pattern@,
            folded_chars@ == lowercase(p),
            i <= users@.len(),
            users_view(ms@) == users_containing(us.take(i as int), p),
        decreases users@.len() - i,
    {
        assert(us.take(i + 1).drop_last() =~= us.take(i as int));
        if user_contains_exec(&users[i], &folded_chars) {
            ms.push(users[i].clone());
        }
        i += 1;
        assert(users_view(ms@) =~= users_containing(us.take(i as int), p));
    }
    assert(us.take(users@.len() as int) =~= us);
    if ms.len() == 0 {
        Err(UserLookupError::NotFound)
    } else if ms.len() == 1 {
        Ok(ms[0].clone())
    } else {
        Err(UserLookupError::Ambiguous(ms))
    }
}

} // verus!
