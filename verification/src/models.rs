//! The records that the Tailscale API exchanges: devices, users, contacts,
//! and the bodies of tag and rename requests, with their abstract views.

use vstd::prelude::*;

use crate::clock::{elapsed_minutes, minutes_between, parse_rfc3339, rfc3339_instant, utc_now};

verus! {

/// The characters of each string of a sequence.
pub open spec fn strings_view(v: Seq<String>) -> Seq<Seq<char>> {
    v.map_values(|s: String| s@)
}

/// A copy of a vector of strings.
pub fn clone_strings(v: &Vec<String>) -> (r: Vec<String>)
    ensures
        strings_view(r@) == strings_view(v@),
{
    let mut r: Vec<String> = Vec::new();
    let mut i: usize = 0;
    while i < v.len()
        invariant
            i <= v@.len(),
            r@.len() == i,
            forall|k: int| 0 <= k < i ==> #[trigger] r@[k]@ == v@[k]@,
        decreases v@.len() - i,
    {
        let c = v[i].clone();
        r.push(c);
        i += 1;
    }
    assert(strings_view(r@) =~= strings_view(v@));
    r
}

/// A device of the tailnet, as the devices endpoint describes it.
pub struct Device {
    pub id: String,
    pub name: String,
    pub hostname: String,
    pub tags: Vec<String>,
    pub os: String,
    pub user: String,
    pub last_seen: String,
    pub node_key: String,
    pub tailnet_lock_error: String,
    pub tailnet_lock_key: String,
    pub blocks_incoming_connections: bool,
}

/// The abstract value of a [`Device`]: every text as its characters.
pub struct DeviceView {
    pub id: Seq<char>,
    pub name: Seq<char>,
    pub hostname: Seq<char>,
    pub tags: Seq<Seq<char>>,
    pub os: Seq<char>,
    pub user: Seq<char>,
    pub last_seen: Seq<char>,
    pub node_key: Seq<char>,
    pub tailnet_lock_error: Seq<char>,
    pub tailnet_lock_key: Seq<char>,
    pub blocks_incoming_connections: bool,
}

impl View for Device {
    type V = DeviceView;

    open spec fn view(&self) -> DeviceView {
        DeviceView {
            id: self.id@,
            name: self.name@,
            hostname: self.hostname@,
            tags: strings_view(self.tags@),
            os: self.os@,
            user: self.user@,
            last_seen: self.last_seen@,
            node_key: self.node_key@,
            tailnet_lock_error: self.tailnet_lock_error@,
            tailnet_lock_key: self.tailnet_lock_key@,
            blocks_incoming_connections: self.blocks_incoming_connections,
        }
    }
}

/// The views of a sequence of devices.
pub open spec fn devices_view(ds: Seq<Device>) -> Seq<DeviceView> {
    ds.map_values(|d: Device| d@)
}

/// A device is locked out when it has a tailnet lock key and a tailnet
/// lock error.
pub open spec fn locked_out(d: DeviceView) -> bool {
    d.tailnet_lock_key.len() > 0 && d.tailnet_lock_error.len() > 0
}

/// A device has both keys that signing needs.
pub open spec fn has_keys(d: DeviceView) -> bool {
    d.node_key.len() > 0 && d.tailnet_lock_key.len() > 0
}

/// The owner shown for a device: its user, or `-` when it has none.
pub open spec fn owner_text(d: DeviceView) -> Seq<char> {
    if d.user.len() == 0 {
        seq!['-']
    } else {
        d.user
    }
}

/// A device counts as online at `now` when it reports no last-seen time,
/// or when its last-seen time parses and lies less than five whole
/// minutes before `now`.
pub open spec fn online_at(last_seen: Seq<char>, now: (i64, u32)) -> bool {
    if last_seen.len() == 0 {
        true
    } else {
        match rfc3339_instant(last_seen) {
            None => false,
            Some(t) => seen_recently(minutes_between(now, t)),
        }
    }
}

/// Seen less than five whole minutes ago, given the minutes elapsed since
/// (`None` when they could not be computed).
pub open spec fn seen_recently(minutes: Option<i64>) -> bool {
    match minutes {
        Some(m) => m < 5,
        None => false,
    }
}

/// Whether a device last seen `minutes` whole minutes ago counts as
/// online: less than five minutes (a time in the future counts too); an
/// elapsed time that could not be computed does not.
pub fn within_online_window(minutes: Option<i64>) -> (r: bool)
    ensures
        r == seen_recently(minutes),
{
    match minutes {
        Some(m) => m < 5,
        None => false,
    }
}

impl Clone for Device {
    fn clone(&self) -> (r: Self)
        ensures
            r@ == self@,
    {
        Device {
            id: self.id.clone(),
            name: self.name.clone(),
            hostname: self.hostname.clone(),
            tags: clone_strings(&self.tags),
            os: self.os.clone(),
            user: self.user.clone(),
            last_seen: self.last_seen.clone(),
            node_key: self.node_key.clone(),
            tailnet_lock_error: self.tailnet_lock_error.clone(),
            tailnet_lock_key: self.tailnet_lock_key.clone(),
            blocks_incoming_connections: self.blocks_incoming_connections,
        }
    }
}

impl Device {
    /// Whether the device is online, judged against the current time.
    /// A device without a last-seen time is online; one whose last-seen
    /// time does not parse is offline; otherwise the answer is the one that
    /// `online_at` gives for the clock reading taken.
    pub fn is_online(&self) -> (r: bool)
        ensures
            self.last_seen@.len() == 0 ==> r,
            self.last_seen@.len() > 0 && rfc3339_instant(self.last_seen@) is None ==> !r,
            exists|now: (i64, u32)| r == online_at(self.last_seen@, now),
    {
        let now = utc_now();
        self.is_online_at(now)
    }

    /// Whether the device is online at the instant `now`.
    pub fn is_online_at(&self, now: (i64, u32)) -> (r: bool)
        ensures
            r == online_at(self.last_seen@, now),
    {
        if self.last_seen.as_str().is_empty() {
            return true;
        }
        match parse_rfc3339(self.last_seen.as_str()) {
            None => false,
            Some(t) => within_online_window(elapsed_minutes(now, t)),
        }
    }

    /// Whether the device is locked out by tailnet lock.
    pub fn is_locked_out(&self) -> (r: bool)
        ensures
            r == locked_out(self@),
    {
        !self.tailnet_lock_key.as_str().is_empty() && !self.tailnet_lock_error.as_str().is_empty()
    }

    /// Whether the device has a node key and a tailnet lock key.
    pub fn has_lock_keys(&self) -> (r: bool)
        ensures
            r == has_keys(self@),
    {
        !self.node_key.as_str().is_empty() && !self.tailnet_lock_key.as_str().is_empty()
    }

    /// The owner to display: the user's e-mail, or `-` when there is none.
    pub fn owner(&self) -> (r: &str)
        ensures
            r@ == owner_text(self@),
    {
        if self.user.as_str().is_empty() {
            let dash = "-";
            proof {
                reveal_strlit("-");
            }
            dash
        } else {
            self.user.as_str()
        }
    }
}

/// The body of the devices endpoint.
pub struct DevicesResponse {
    pub devices: Vec<Device>,
}

/// The body of a request that sets the tags of a device.
pub struct UpdateTagsRequest {
    pub tags: Vec<String>,
}

/// The body of a request that renames a device.
pub struct RenameDeviceRequest {
    pub name: String,
}

/// The body of the users endpoint.
pub struct UsersResponse {
    pub users: Vec<User>,
}

/// A user of the tailnet.
pub struct User {
    pub id: String,
    pub login_name: String,
    pub display_name: String,
    pub profile_pic_url: String,
    pub role: String,
    pub status: String,
    pub device_count: u32,
    pub last_seen: String,
    pub currently_active: bool,
}

/// The abstract value of a [`User`].
pub struct UserView {
    pub id: Seq<char>,
    pub login_name: Seq<char>,
    pub display_name: Seq<char>,
    pub profile_pic_url: Seq<char>,
    pub role: Seq<char>,
    pub status: Seq<char>,
    pub device_count: u32,
    pub last_seen: Seq<char>,
    pub currently_active: bool,
}

impl View for User {
    type V = UserView;

    open spec fn view(&self) -> UserView {
        UserView {
            id: self.id@,
            login_name: self.login_name@,
            display_name: self.display_name@,
            profile_pic_url: self.profile_pic_url@,
            role: self.role@,
            status: self.status@,
            device_count: self.device_count,
            last_seen: self.last_seen@,
            currently_active: self.currently_active,
        }
    }
}

/// The views of a sequence of users.
pub open spec fn users_view(us: Seq<User>) -> Seq<UserView> {
    us.map_values(|u: User| u@)
}

impl Clone for User {
    fn clone(&self) -> (r: Self)
        ensures
            r@ == self@,
    {
        User {
            id: self.id.clone(),
            login_name: self.login_name.clone(),
            display_name: self.display_name.clone(),
            profile_pic_url: self.profile_pic_url.clone(),
            role: self.role.clone(),
            status: self.status.clone(),
            device_count: self.device_count,
            last_seen: self.last_seen.clone(),
            currently_active: self.currently_active,
        }
    }
}

/// The three contacts of a tailnet.
pub struct ContactsResponse {
    pub account: Contact,
    pub support: Contact,
    pub security: Contact,
}

/// A contact of the tailnet.
pub struct Contact {
    pub email: String,
    pub fallback_email: String,
}

} // verus!
