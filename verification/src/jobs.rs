//! The device commands that change the tailnet (update, add and remove
//! tags, delete, sign, rename) as one state machine. The caller performs
//! each action (fetching devices, prompting, showing, asking, sending) and
//! hands the outcome back as the next event; every decision in between is
//! made here. Nothing is changed before the user has agreed, unless the
//! job was told to skip the confirmation.

use vstd::prelude::*;

use crate::api::{device_url, request_of, ApiRequest, ApiRequestView, BodyView, ClientView, HttpMethod, TailscaleClient};
use crate::commands::{
    devices_where, lemma_where_members, sign_arguments, signing_candidates, single_device, split_signable,
    DeviceFilter, SingleMatch,
};
use crate::matching::{resolve_device_patterns, resolved_devices};
use crate::matching::law_resolved_are_members;
use crate::models::{clone_strings, devices_view, has_keys, locked_out, strings_view, Device, DeviceView};
use crate::selection::{
    asks_for_prompt, devices_at, positions_view, positions_within, resolve_or_select_devices, select_devices,
    selected_devices, warnings_view, DeviceChoice, Selection, SelectionView,
};
use crate::tags::{add_tags, normalize_tags, normalized_tags, remove_tags, tags_with, tags_without};
use crate::commands::TagChange;

verus! {

// ---------------------------------------------------------------------
// Jobs
// ---------------------------------------------------------------------

/// What a job does to each device it works on.
pub enum DeviceOp {
    /// Replace the tags by these (normalized) tags.
    SetTags(Vec<String>),
    /// Add these (normalized) tags that are not yet present.
    AddTags(Vec<String>),
    /// Remove these (normalized) tags.
    RemoveTags(Vec<String>),
    /// Delete the device.
    Delete,
    /// Sign the device's node key with tailnet lock.
    Sign,
    /// Rename the one device that `pattern` designates.
    Rename { pattern: String, new_name: String },
}

/// The abstract value of a [`DeviceOp`].
pub enum OpView {
    SetTags(Seq<Seq<char>>),
    AddTags(Seq<Seq<char>>),
    RemoveTags(Seq<Seq<char>>),
    Delete,
    Sign,
    Rename { pattern: Seq<char>, new_name: Seq<char> },
}

impl View for DeviceOp {
    type V = OpView;

    open spec fn view(&self) -> OpView {
        match self {
            DeviceOp::SetTags(t) => OpView::SetTags(strings_view(t@)),
            DeviceOp::AddTags(t) => OpView::AddTags(strings_view(t@)),
            DeviceOp::RemoveTags(t) => OpView::RemoveTags(strings_view(t@)),
            DeviceOp::Delete => OpView::Delete,
            DeviceOp::Sign => OpView::Sign,
            DeviceOp::Rename { pattern, new_name } => OpView::Rename {
                pattern: pattern@,
                new_name: new_name@,
            },
        }
    }
}

/// A device command: what it does, the device patterns it was given, and
/// whether it skips the confirmation.
pub struct DeviceJob {
    pub op: DeviceOp,
    pub patterns: Option<Vec<String>>,
    pub skip_confirm: bool,
}

/// The abstract value of a [`DeviceJob`].
pub struct JobView {
    pub op: OpView,
    pub patterns: Option<Seq<Seq<char>>>,
    pub skip_confirm: bool,
}

impl View for DeviceJob {
    type V = JobView;

    open spec fn view(&self) -> JobView {
        JobView {
            op: self.op@,
            patterns: match self.patterns {
                Some(p) => Some(strings_view(p@)),
                None => None,
            },
            skip_confirm: self.skip_confirm,
        }
    }
}

/// The operation of a tag command with the tags as given on the command
/// line.
pub open spec fn tag_op(change: TagChange, tags: Seq<Seq<char>>) -> OpView {
    match change {
        TagChange::Replace => OpView::SetTags(normalized_tags(tags)),
        TagChange::Add => OpView::AddTags(normalized_tags(tags)),
        TagChange::Remove => OpView::RemoveTags(normalized_tags(tags)),
    }
}

/// A tag command works with the tags it was given, each normalized, in
/// their order: replacing sets them, adding adds them, removing removes
/// them.
pub proof fn law_tag_op(change: TagChange, tags: Seq<Seq<char>>)
    ensures
        change is Replace ==> tag_op(change, tags) == OpView::SetTags(normalized_tags(tags)),
        change is Add ==> tag_op(change, tags) == OpView::AddTags(normalized_tags(tags)),
        change is Remove ==> tag_op(change, tags) == OpView::RemoveTags(normalized_tags(tags)),
{
}

/// The job of a tag command: its tags are normalized (given the `tag:`
/// prefix where they lack it).
pub fn tag_job(change: TagChange, tags: &[String], patterns: Option<Vec<String>>, skip_confirm: bool) -> (r:
    DeviceJob)
    ensures
        r@.op == tag_op(change, strings_view(tags@)),
        r@.patterns == (match patterns {
            Some(p) => Some(strings_view(p@)),
            None => None,
        }),
        r@.skip_confirm == skip_confirm,
{
    let normalized = normalize_tags(tags);
    let op = match change {
        TagChange::Replace => DeviceOp::SetTags(normalized),
        TagChange::Add => DeviceOp::AddTags(normalized),
        TagChange::Remove => DeviceOp::RemoveTags(normalized),
    };
    DeviceJob { op, patterns, skip_confirm }
}

// ---------------------------------------------------------------------
// States, events and actions
// ---------------------------------------------------------------------

/// Where a job stands.
pub enum JobState {
    /// Nothing done yet.
    Start,
    /// The devices of the tailnet are being fetched.
    Fetching,
    /// The user is choosing among these devices at the selection prompt.
    Selecting(Vec<Device>),
    /// The devices are being shown; these are the ones to act on.
    Reviewing(Vec<Device>),
    /// The user is asked to agree to acting on these devices.
    Confirming(Vec<Device>),
    /// Acting on these devices; the one at the index is being worked on.
    Running(Vec<Device>, usize),
    /// The job is over.
    Finished,
}

/// What happened since the last action.
pub enum JobEvent {
    /// The job is started.
    Begin,
    /// The devices of the tailnet, as fetched.
    Devices(Vec<Device>),
    /// The answer at the selection prompt, read for the devices offered.
    Chosen(Selection),
    /// The devices were shown.
    Shown,
    /// The user's answer to the confirmation.
    Answer(bool),
    /// The work on the current device was done (whether it succeeded or
    /// not; a failure is reported and the job goes on).
    Performed,
}

/// The work to do on one device.
pub enum Work {
    /// Send this request to the API.
    Api(ApiRequest),
    /// Run the `tailscale` command with these arguments.
    Tailscale(Vec<String>),
}

/// Why a job ends early.
pub enum JobNotice {
    /// The patterns match no device.
    NoDevicesMatched,
    /// The patterns match none of the locked devices, which are listed.
    NoLockedMatch(Vec<Device>),
    /// No device is locked out with both keys.
    NoLockKeys,
    /// No device was chosen.
    NoDevicesSelected,
    /// None of the chosen devices has both keys.
    NothingSignable,
    /// The pattern designates no device.
    NoDeviceFound,
    /// The pattern designates several devices, which are listed.
    SeveralDevices(Vec<Device>),
    /// The user did not agree.
    Aborted,
    /// The event does not fit the state.
    OutOfOrder,
}

/// What the caller is to do next.
pub enum JobAction {
    /// Fetch the devices of the tailnet.
    FetchDevices,
    /// Let the user choose among these devices.
    Prompt(Vec<Device>),
    /// Show these devices; the second list holds those that will be
    /// skipped for a missing key.
    Review(Vec<Device>, Vec<Device>),
    /// Ask the user to agree.
    AskConfirmation,
    /// Do this work on this device.
    Perform(Device, Work),
    /// Tell the user why the job ends here.
    Stop(JobNotice),
    /// The job is complete.
    Done,
}

/// The abstract value of a [`JobState`].
pub enum StateView {
    Start,
    Fetching,
    Selecting(Seq<DeviceView>),
    Reviewing(Seq<DeviceView>),
    Confirming(Seq<DeviceView>),
    Running(Seq<DeviceView>, int),
    Finished,
}

/// The abstract value of a [`JobEvent`].
pub enum EventView {
    Begin,
    Devices(Seq<DeviceView>),
    Chosen(SelectionView),
    Shown,
    Answer(bool),
    Performed,
}

/// The abstract value of a [`Work`].
pub enum WorkView {
    Api(ApiRequestView),
    Tailscale(Seq<Seq<char>>),
}

/// The abstract value of a [`JobNotice`].
pub enum NoticeView {
    NoDevicesMatched,
    NoLockedMatch(Seq<DeviceView>),
    NoLockKeys,
    NoDevicesSelected,
    NothingSignable,
    NoDeviceFound,
    SeveralDevices(Seq<DeviceView>),
    Aborted,
    OutOfOrder,
}

/// The abstract value of a [`JobAction`].
pub enum ActionView {
    FetchDevices,
    Prompt(Seq<DeviceView>),
    Review(Seq<DeviceView>, Seq<DeviceView>),
    AskConfirmation,
    Perform(DeviceView, WorkView),
    Stop(NoticeView),
    Done,
}

impl View for JobState {
    type V = StateView;

    open spec fn view(&self) -> StateView {
        match self {
            JobState::Start => StateView::Start,
            JobState::Fetching => StateView::Fetching,
            JobState::Selecting(o) => StateView::Selecting(devices_view(o@)),
            JobState::Reviewing(t) => StateView::Reviewing(devices_view(t@)),
            JobState::Confirming(t) => StateView::Confirming(devices_view(t@)),
            JobState::Running(t, i) => StateView::Running(devices_view(t@), *i as int),
            JobState::Finished => StateView::Finished,
        }
    }
}

impl View for JobEvent {
    type V = EventView;

    open spec fn view(&self) -> EventView {
        match self {
            JobEvent::Begin => EventView::Begin,
            JobEvent::Devices(v) => EventView::Devices(devices_view(v@)),
            JobEvent::Chosen(sel) => EventView::Chosen(sel@),
            JobEvent::Shown => EventView::Shown,
            JobEvent::Answer(a) => EventView::Answer(*a),
            JobEvent::Performed => EventView::Performed,
        }
    }
}

impl View for Work {
    type V = WorkView;

    open spec fn view(&self) -> WorkView {
        match self {
            Work::Api(r) => WorkView::Api(r@),
            Work::Tailscale(a) => WorkView::Tailscale(strings_view(a@)),
        }
    }
}

impl View for JobNotice {
    type V = NoticeView;

    open spec fn view(&self) -> NoticeView {
        match self {
            JobNotice::NoDevicesMatched => NoticeView::NoDevicesMatched,
            JobNotice::NoLockedMatch(v) => NoticeView::NoLockedMatch(devices_view(v@)),
            JobNotice::NoLockKeys => NoticeView::NoLockKeys,
            JobNotice::NoDevicesSelected => NoticeView::NoDevicesSelected,
            JobNotice::NothingSignable => NoticeView::NothingSignable,
            JobNotice::NoDeviceFound => NoticeView::NoDeviceFound,
            JobNotice::SeveralDevices(v) => NoticeView::SeveralDevices(devices_view(v@)),
            JobNotice::Aborted => NoticeView::Aborted,
            JobNotice::OutOfOrder => NoticeView::OutOfOrder,
        }
    }
}

impl View for JobAction {
    type V = ActionView;

    open spec fn view(&self) -> ActionView {
        match self {
            JobAction::FetchDevices => ActionView::FetchDevices,
            JobAction::Prompt(v) => ActionView::Prompt(devices_view(v@)),
            JobAction::Review(v, w) => ActionView::Review(devices_view(v@), devices_view(w@)),
            JobAction::AskConfirmation => ActionView::AskConfirmation,
            JobAction::Perform(d, w) => ActionView::Perform(d@, w@),
            JobAction::Stop(n) => ActionView::Stop(n@),
            JobAction::Done => ActionView::Done,
        }
    }
}

// ---------------------------------------------------------------------
// The transitions
// ---------------------------------------------------------------------

/// The request that sets the tags of device `d` to `tags`.
pub open spec fn tags_request(c: ClientView, d: DeviceView, tags: Seq<Seq<char>>) -> WorkView {
    WorkView::Api(request_of(c, HttpMethod::Post, device_url(d.id, "/tags"@), BodyView::Tags(tags)))
}

/// The work that operation `op` does on device `d`.
pub open spec fn work_for(op: OpView, c: ClientView, d: DeviceView) -> WorkView {
    match op {
        OpView::SetTags(t) => tags_request(c, d, t),
        OpView::AddTags(t) => tags_request(c, d, tags_with(d.tags, t)),
        OpView::RemoveTags(t) => tags_request(c, d, tags_without(d.tags, t)),
        OpView::Delete => WorkView::Api(
            request_of(c, HttpMethod::Delete, device_url(d.id, ""@), BodyView::Empty),
        ),
        OpView::Sign => WorkView::Tailscale(seq!["lock"@, "sign"@, d.node_key, d.tailnet_lock_key]),
        OpView::Rename { pattern, new_name } => WorkView::Api(
            request_of(c, HttpMethod::Post, device_url(d.id, "/name"@), BodyView::Rename(new_name)),
        ),
    }
}

/// The URL of device `id` followed by `rest`, written out.
pub open spec fn device_endpoint(id: Seq<char>, rest: Seq<char>) -> Seq<char> {
    "https://api.tailscale.com/api/v2/device/"@ + id + rest
}

/// What each operation does to a device `d`, whatever tags it had: setting
/// tags posts exactly the given tags to the device's `/tags` endpoint;
/// adding posts the device's tags followed by each given tag it lacks, and
/// nothing else; removing posts the device's tags that are not given, in
/// their order; deleting sends DELETE to the device's URL; signing runs
/// `tailscale lock sign` with its node key and tailnet lock key; renaming
/// posts the new name to its `/name` endpoint. Every request carries the
/// client's API key.
pub proof fn law_work_for_ops(c: ClientView, d: DeviceView, t: Seq<Seq<char>>, pattern: Seq<char>, name: Seq<char>)
    ensures
        work_for(OpView::SetTags(t), c, d) == WorkView::Api(
            ApiRequestView {
                method: HttpMethod::Post,
                url: device_endpoint(d.id, "/tags"@),
                auth_user: c.api_key,
                body: BodyView::Tags(t),
            },
        ),
        work_for(OpView::AddTags(t), c, d) matches WorkView::Api(r) && r.method == HttpMethod::Post && r.url
            == device_endpoint(d.id, "/tags"@) && r.auth_user == c.api_key && (r.body matches BodyView::Tags(
            nt,
        ) && nt.take(d.tags.len() as int) == d.tags && (forall|k: int|
            0 <= k < t.len() ==> nt.contains(#[trigger] t[k])) && (forall|k: int|
            0 <= k < nt.len() ==> d.tags.contains(#[trigger] nt[k]) || t.contains(nt[k]))),
        work_for(OpView::RemoveTags(t), c, d) matches WorkView::Api(r) && r.method == HttpMethod::Post
            && r.url == device_endpoint(d.id, "/tags"@) && r.auth_user == c.api_key && (r.body matches BodyView::Tags(
            nt,
        ) && (forall|k: int|
            0 <= k < nt.len() ==> d.tags.contains(#[trigger] nt[k]) && !t.contains(nt[k])) && (forall|k: int|
            0 <= k < d.tags.len() && !t.contains(d.tags[k]) ==> nt.contains(#[trigger] d.tags[k]))),
        work_for(OpView::Delete, c, d) == WorkView::Api(
            ApiRequestView {
                method: HttpMethod::Delete,
                url: device_endpoint(d.id, ""@),
                auth_user: c.api_key,
                body: BodyView::Empty,
            },
        ),
        work_for(OpView::Sign, c, d) == WorkView::Tailscale(
            seq!["lock"@, "sign"@, d.node_key, d.tailnet_lock_key],
        ),
        work_for(OpView::Rename { pattern, new_name: name }, c, d) == WorkView::Api(
            ApiRequestView {
                method: HttpMethod::Post,
                url: device_endpoint(d.id, "/name"@),
                auth_user: c.api_key,
                body: BodyView::Rename(name),
            },
        ),
{
    reveal_strlit("https://api.tailscale.com/api/v2/device/");
    reveal_strlit("https://api.tailscale.com/api/v2");
    reveal_strlit("/device/");
    assert(device_endpoint(d.id, "/tags"@) =~= device_url(d.id, "/tags"@));
    assert(device_endpoint(d.id, ""@) =~= device_url(d.id, ""@));
    assert(device_endpoint(d.id, "/name"@) =~= device_url(d.id, "/name"@));
    crate::tags::law_add_tags(d.tags, t);
    crate::tags::law_remove_tags(d.tags, t);
}

/// Working through the devices `t` from index `i`: the device at `i` is
/// worked on, or the job is complete when there is none.
pub open spec fn run_from(job: JobView, c: ClientView, t: Seq<DeviceView>, i: int) -> (StateView, ActionView) {
    if 0 <= i < t.len() {
        (StateView::Running(t, i), ActionView::Perform(t[i], work_for(job.op, c, t[i])))
    } else {
        (StateView::Finished, ActionView::Done)
    }
}

/// Once the devices `v` are chosen: none ends the job; otherwise they are
/// shown, and for signing, those without both keys are set apart.
pub open spec fn review_stage(job: JobView, v: Seq<DeviceView>) -> (StateView, ActionView) {
    if v.len() == 0 {
        (StateView::Finished, ActionView::Stop(NoticeView::NoDevicesSelected))
    } else if job.op is Sign {
        (
            StateView::Reviewing(devices_where(v, DeviceFilter::HasKeys)),
            ActionView::Review(v, devices_where(v, DeviceFilter::MissingKeys)),
        )
    } else {
        (StateView::Reviewing(v), ActionView::Review(v, seq![]))
    }
}

/// The patterns in effect for a tag command: none when none were given.
pub open spec fn patterns_or_none(p: Option<Seq<Seq<char>>>) -> Seq<Seq<char>> {
    match p {
        Some(ps) => ps,
        None => seq![],
    }
}

/// Once the devices `all` of the tailnet are known: which devices the job
/// may work on, and whether the user is to choose among them.
pub open spec fn select_stage(job: JobView, all: Seq<DeviceView>) -> (StateView, ActionView) {
    match job.op {
        OpView::Delete => match job.patterns {
            None => (StateView::Selecting(all), ActionView::Prompt(all)),
            Some(p) => {
                let m = resolved_devices(p, all);
                if m.len() == 0 {
                    (StateView::Finished, ActionView::Stop(NoticeView::NoDevicesMatched))
                } else {
                    (StateView::Selecting(m), ActionView::Prompt(m))
                }
            },
        },
        OpView::Sign => {
            let cands = devices_where(all, DeviceFilter::SigningCandidate);
            match job.patterns {
                Some(p) => {
                    let m = resolved_devices(p, cands);
                    if m.len() == 0 {
                        (StateView::Finished, ActionView::Stop(NoticeView::NoLockedMatch(cands)))
                    } else {
                        review_stage(job, m)
                    }
                },
                None => if cands.len() == 0 {
                    (StateView::Finished, ActionView::Stop(NoticeView::NoLockKeys))
                } else {
                    (StateView::Selecting(cands), ActionView::Prompt(cands))
                },
            }
        },
        OpView::Rename { pattern, new_name } => {
            let m = resolved_devices(seq![pattern], all);
            if m.len() == 0 {
                (StateView::Finished, ActionView::Stop(NoticeView::NoDeviceFound))
            } else if m.len() > 1 {
                (StateView::Finished, ActionView::Stop(NoticeView::SeveralDevices(m)))
            } else {
                review_stage(job, m)
            }
        },
        _ => {
            let ps = patterns_or_none(job.patterns);
            if asks_for_prompt(ps) {
                (StateView::Selecting(all), ActionView::Prompt(all))
            } else {
                review_stage(job, resolved_devices(ps, all))
            }
        },
    }
}

/// The next state and action of job `job`, run by client `c`, in state
/// `s` after event `e`.
pub open spec fn job_next(job: JobView, c: ClientView, s: StateView, e: EventView) -> (StateView, ActionView) {
    match (s, e) {
        (StateView::Start, EventView::Begin) => (StateView::Fetching, ActionView::FetchDevices),
        (StateView::Fetching, EventView::Devices(all)) => select_stage(job, all),
        (StateView::Selecting(offered), EventView::Chosen(sel)) => if positions_within(sel, offered.len()) {
            review_stage(job, selected_devices(sel, offered))
        } else {
            (StateView::Finished, ActionView::Stop(NoticeView::OutOfOrder))
        },
        (StateView::Reviewing(t), EventView::Shown) => if t.len() == 0 {
            (StateView::Finished, ActionView::Stop(NoticeView::NothingSignable))
        } else if job.skip_confirm {
            run_from(job, c, t, 0)
        } else {
            (StateView::Confirming(t), ActionView::AskConfirmation)
        },
        (StateView::Confirming(t), EventView::Answer(yes)) => if yes {
            run_from(job, c, t, 0)
        } else {
            (StateView::Finished, ActionView::Stop(NoticeView::Aborted))
        },
        (StateView::Running(t, i), EventView::Performed) => run_from(job, c, t, i + 1),
        _ => (StateView::Finished, ActionView::Stop(NoticeView::OutOfOrder)),
    }
}

fn work_exec(job: &DeviceJob, client: &TailscaleClient, d: &Device) -> (r: Work)
    ensures
        r@ == work_for(job@.op, client@, d@),
{
    match &job.op {
        DeviceOp::SetTags(t) => Work::Api(client.update_tags_request(d.id.as_str(), clone_strings(t))),
        DeviceOp::AddTags(t) => Work::Api(
            client.update_tags_request(d.id.as_str(), add_tags(d.tags.as_slice(), t.as_slice())),
        ),
        DeviceOp::RemoveTags(t) => Work::Api(
            client.update_tags_request(d.id.as_str(), remove_tags(d.tags.as_slice(), t.as_slice())),
        ),
        DeviceOp::Delete => Work::Api(client.delete_device_request(d.id.as_str())),
        DeviceOp::Sign => Work::Tailscale(
            sign_arguments(d.node_key.as_str(), d.tailnet_lock_key.as_str()),
        ),
        DeviceOp::Rename { pattern: _, new_name } => Work::Api(
            client.rename_device_request(d.id.as_str(), new_name.clone()),
        ),
    }
}

fn run_from_exec(job: &DeviceJob, client: &TailscaleClient, t: Vec<Device>, i: usize) -> (r: (
    JobState,
    JobAction,
))
    ensures
        (r.0@, r.1@) == run_from(job@, client@, devices_view(t@), i as int),
{
    if i < t.len() {
        let d = t[i].clone();
        let w = work_exec(job, client, &d);
        (JobState::Running(t, i), JobAction::Perform(d, w))
    } else {
        (JobState::Finished, JobAction::Done)
    }
}

fn review_exec(job: &DeviceJob, v: Vec<Device>) -> (r: (JobState, JobAction))
    ensures
        (r.0@, r.1@) == review_stage(job@, devices_view(v@)),
{
    if v.len() == 0 {
        (JobState::Finished, JobAction::Stop(JobNotice::NoDevicesSelected))
    } else {
        match &job.op {
            DeviceOp::Sign => {
                let split = split_signable(v.as_slice());
                (JobState::Reviewing(split.signable), JobAction::Review(v, split.missing_keys))
            },
            _ => {
                let none: Vec<Device> = Vec::new();
                assert(devices_view(none@) =~= Seq::<DeviceView>::empty());
                let shown = clone_devices(&v);
                (JobState::Reviewing(v), JobAction::Review(shown, none))
            },
        }
    }
}

fn clone_devices(v: &Vec<Device>) -> (r: Vec<Device>)
    ensures
        devices_view(r@) == devices_view(v@),
{
    let mut r: Vec<Device> = Vec::new();
    let mut i: usize = 0;
    while i < v.len()
        invariant
            i <= v@.len(),
            r@.len() == i,
            forall|k: int| 0 <= k < i ==> (#[trigger] r@[k])@ == v@[k]@,
        decreases v@.len() - i,
    {
        r.push(v[i].clone());
        i += 1;
    }
    assert(devices_view(r@) =~= devices_view(v@));
    r
}

fn select_exec(job: &DeviceJob, all: Vec<Device>) -> (r: (JobState, JobAction))
    ensures
        (r.0@, r.1@) == select_stage(job@, devices_view(all@)),
{
    match &job.op {
        DeviceOp::Delete => match &job.patterns {
            None => {
                let shown = clone_devices(&all);
                (JobState::Selecting(all), JobAction::Prompt(shown))
            },
            Some(p) => {
                let m = resolve_device_patterns(p.as_slice(), all.as_slice());
                if m.len() == 0 {
                    (JobState::Finished, JobAction::Stop(JobNotice::NoDevicesMatched))
                } else {
                    let shown = clone_devices(&m);
                    (JobState::Selecting(m), JobAction::Prompt(shown))
                }
            },
        },
        DeviceOp::Sign => {
            let cands = signing_candidates(all.as_slice());
            match &job.patterns {
                Some(p) => {
                    let m = resolve_device_patterns(p.as_slice(), cands.as_slice());
                    if m.len() == 0 {
                        (JobState::Finished, JobAction::Stop(JobNotice::NoLockedMatch(cands)))
                    } else {
                        review_exec(job, m)
                    }
                },
                None => if cands.len() == 0 {
                    (JobState::Finished, JobAction::Stop(JobNotice::NoLockKeys))
                } else {
                    let shown = clone_devices(&cands);
                    (JobState::Selecting(cands), JobAction::Prompt(shown))
                },
            }
        },
        DeviceOp::Rename { pattern, new_name: _ } => match single_device(pattern.as_str(), all.as_slice()) {
            SingleMatch::NotFound => (JobState::Finished, JobAction::Stop(JobNotice::NoDeviceFound)),
            SingleMatch::Ambiguous(v) => (JobState::Finished, JobAction::Stop(JobNotice::SeveralDevices(v))),
            SingleMatch::Unique(d) => {
                let ghost m = resolved_devices(seq![pattern@], devices_view(all@));
                let mut v: Vec<Device> = Vec::new();
                v.push(d);
                assert(devices_view(v@) =~= m);
                review_exec(job, v)
            },
        },
        _ => {
            let none: Vec<String> = Vec::new();
            let ps: &[String] = match &job.patterns {
                Some(p) => p.as_slice(),
                None => none.as_slice(),
            };
            assert(strings_view(ps@) == patterns_or_none(job@.patterns));
            match resolve_or_select_devices(ps, all.as_slice()) {
                DeviceChoice::Prompt => {
                    let shown = clone_devices(&all);
                    (JobState::Selecting(all), JobAction::Prompt(shown))
                },
                DeviceChoice::Matched(v) => review_exec(job, v),
            }
        },
    }
}

/// Whether the positions of the selection lie within a list of `n`
/// devices.
fn selection_fits(selection: &Selection, n: usize) -> (r: bool)
    ensures
        r == positions_within(selection@, n as nat),
{
    let ghost sv = selection@;
    match selection {
        Selection::Chosen(ix, wv) => {
            let ghost iv = positions_view(ix@);
            assert(sv == SelectionView::Chosen(iv, warnings_view(wv@)));
            let mut k: usize = 0;
            while k < ix.len()
                invariant
                    iv == positions_view(ix@),
                    sv == selection@,
                    sv == SelectionView::Chosen(iv, warnings_view(wv@)),
                    k <= ix@.len(),
                    forall|q: int| 0 <= q < k ==> 0 <= #[trigger] iv[q] < n,
                decreases ix@.len() - k,
            {
                if ix[k] >= n {
                    assert(iv[k as int] == ix@[k as int] as int);
                    assert(!(0 <= sv->Chosen_0[k as int] < n));
                    assert(!positions_within(sv, n as nat));
                    return false;
                }
                k += 1;
            }
            true
        },
        _ => true,
    }
}

/// Advances a device job: from its state and the event that just
/// happened, its next state and the action to perform.
pub fn job_step(job: &DeviceJob, client: &TailscaleClient, state: JobState, event: JobEvent) -> (r: (
    JobState,
    JobAction,
))
    ensures
        (r.0@, r.1@) == job_next(job@, client@, state@, event@),
{
    let ghost s = state@;
    let ghost e = event@;
    match (state, event) {
        (JobState::Start, JobEvent::Begin) => (JobState::Fetching, JobAction::FetchDevices),
        (JobState::Fetching, JobEvent::Devices(all)) => select_exec(job, all),
        (JobState::Selecting(offered), JobEvent::Chosen(sel)) => if selection_fits(&sel, offered.len()) {
            let v = select_devices(offered.as_slice(), &sel);
            review_exec(job, v)
        } else {
            (JobState::Finished, JobAction::Stop(JobNotice::OutOfOrder))
        },
        (JobState::Reviewing(t), JobEvent::Shown) => if t.len() == 0 {
            (JobState::Finished, JobAction::Stop(JobNotice::NothingSignable))
        } else if job.skip_confirm {
            run_from_exec(job, client, t, 0)
        } else {
            (JobState::Confirming(t), JobAction::AskConfirmation)
        },
        (JobState::Confirming(t), JobEvent::Answer(yes)) => if yes {
            run_from_exec(job, client, t, 0)
        } else {
            (JobState::Finished, JobAction::Stop(JobNotice::Aborted))
        },
        (JobState::Running(t, i), JobEvent::Performed) => if i < t.len() {
            run_from_exec(job, client, t, i + 1)
        } else {
            (JobState::Finished, JobAction::Done)
        },
        _ => (JobState::Finished, JobAction::Stop(JobNotice::OutOfOrder)),
    }
}

// ---------------------------------------------------------------------
// Laws
// ---------------------------------------------------------------------

/// The job's state after the events `es`, from state `s`, with the
/// actions taken on the way.
pub open spec fn replay(job: JobView, c: ClientView, s: StateView, es: Seq<EventView>) -> (StateView, Seq<ActionView>)
    decreases es.len(),
{
    if es.len() == 0 {
        (s, seq![])
    } else {
        let prev = replay(job, c, s, es.drop_last());
        let next = job_next(job, c, prev.0, es.last());
        (next.0, prev.1.push(next.1))
    }
}

/// A step that starts or continues the work on the devices is one the user
/// agreed to: the work goes on, the user has just answered yes, or the job
/// skips the confirmation and the devices were just shown.
pub open spec fn consented(job: JobView, s: StateView, e: EventView) -> bool {
    ||| (s is Running && e is Performed)
    ||| (s is Confirming && e == EventView::Answer(true))
    ||| (job.skip_confirm && s is Reviewing && e is Shown)
}

/// A device is worked on, and the job is in its working state, only in a
/// step the user agreed to.
pub proof fn law_work_needs_consent(job: JobView, c: ClientView, s: StateView, e: EventView)
    ensures
        job_next(job, c, s, e).1 is Perform ==> consented(job, s, e),
        job_next(job, c, s, e).0 is Running ==> consented(job, s, e),
{
}

proof fn lemma_replay_consent(job: JobView, c: ClientView, es: Seq<EventView>)
    ensures
        replay(job, c, StateView::Start, es).1.len() == es.len(),
        replay(job, c, StateView::Start, es).0 is Running ==> job.skip_confirm || es.contains(
            EventView::Answer(true),
        ),
        forall|k: int|
            0 <= k < es.len() && (#[trigger] replay(job, c, StateView::Start, es).1[k]) is Perform
                ==> job.skip_confirm || es.take(k + 1).contains(EventView::Answer(true)),
    decreases es.len(),
{
    if es.len() > 0 {
        let front = es.drop_last();
        lemma_replay_consent(job, c, front);
        let prev = replay(job, c, StateView::Start, front);
        let e = es.last();
        law_work_needs_consent(job, c, prev.0, e);
        let acts = replay(job, c, StateView::Start, es).1;
        assert(acts == prev.1.push(job_next(job, c, prev.0, e).1));
        assert forall|k: int|
            0 <= k < es.len() && (#[trigger] acts[k]) is Perform implies job.skip_confirm || es.take(
                k + 1,
            ).contains(EventView::Answer(true)) by {
            if k < front.len() {
                assert(acts[k] == prev.1[k]);
                assert(es.take(k + 1) =~= front.take(k + 1));
            } else {
                assert(es.take(k + 1) =~= es);
                if !job.skip_confirm && prev.0 is Running {
                    let j = choose|j: int| 0 <= j < front.len() && front[j] == EventView::Answer(true);
                    assert(es[j] == EventView::Answer(true));
                }
                if e == EventView::Answer(true) {
                    assert(es[es.len() - 1] == EventView::Answer(true));
                }
            }
        }
        if !job.skip_confirm && replay(job, c, StateView::Start, es).0 is Running {
            if prev.0 is Running {
                let j = choose|j: int| 0 <= j < front.len() && front[j] == EventView::Answer(true);
                assert(es[j] == EventView::Answer(true));
            } else {
                assert(es[es.len() - 1] == EventView::Answer(true));
            }
        }
    }
}

/// Whatever the events, from the start of a job no device is worked on
/// unless the job skips the confirmation or the user has answered yes by
/// then.
pub proof fn law_no_change_without_yes(job: JobView, c: ClientView, es: Seq<EventView>, k: int)
    requires
        0 <= k < es.len(),
        replay(job, c, StateView::Start, es).1[k] is Perform,
    ensures
        job.skip_confirm || es.take(k + 1).contains(EventView::Answer(true)),
{
    lemma_replay_consent(job, c, es);
}

/// Answering no at the confirmation ends the job without touching a
/// device, and an ended job stays ended.
pub proof fn law_no_means_abort(job: JobView, c: ClientView, t: Seq<DeviceView>, e: EventView)
    ensures
        job_next(job, c, StateView::Confirming(t), EventView::Answer(false)) == (
            StateView::Finished,
            ActionView::Stop(NoticeView::Aborted),
        ),
        job_next(job, c, StateView::Finished, e) == (
            StateView::Finished,
            ActionView::Stop(NoticeView::OutOfOrder),
        ),
{
}

/// Choosing no device at the prompt ends the job without touching a
/// device.
pub proof fn law_empty_choice_cancels(job: JobView, c: ClientView, offered: Seq<DeviceView>)
    ensures
        job_next(job, c, StateView::Selecting(offered), EventView::Chosen(SelectionView::Nothing)) == (
            StateView::Finished,
            ActionView::Stop(NoticeView::NoDevicesSelected),
        ),
{
}

/// Once agreed, the devices are worked on one after the other, each once,
/// in their order, and the job completes after the last.
pub proof fn law_devices_in_order(job: JobView, c: ClientView, t: Seq<DeviceView>, i: int)
    requires
        0 <= i < t.len(),
    ensures
        i + 1 < t.len() ==> job_next(job, c, StateView::Running(t, i), EventView::Performed) == (
            StateView::Running(t, i + 1),
            ActionView::Perform(t[i + 1], work_for(job.op, c, t[i + 1])),
        ),
        i + 1 == t.len() ==> job_next(job, c, StateView::Running(t, i), EventView::Performed) == (
            StateView::Finished,
            ActionView::Done,
        ),
        job_next(job, c, StateView::Confirming(t), EventView::Answer(true)) == (
            StateView::Running(t, 0),
            ActionView::Perform(t[0], work_for(job.op, c, t[0])),
        ),
{
}

/// The devices chosen at the prompt are among those it offered: after an
/// answer, every device the job goes on to show is one of the offered
/// devices.
pub proof fn law_chosen_from_offered(
    job: JobView,
    c: ClientView,
    offered: Seq<DeviceView>,
    sel: SelectionView,
)
    ensures
        job_next(job, c, StateView::Selecting(offered), EventView::Chosen(sel)).0 matches StateView::Reviewing(t)
            ==> forall|k: int| 0 <= k < t.len() ==> offered.contains(#[trigger] t[k]),
{
    if positions_within(sel, offered.len()) {
        let v = selected_devices(sel, offered);
        lemma_selected_members(sel, offered);
        if v.len() > 0 && job.op is Sign {
            let t = devices_where(v, DeviceFilter::HasKeys);
            lemma_where_members(v, DeviceFilter::HasKeys);
            assert forall|k: int| 0 <= k < t.len() implies offered.contains(#[trigger] t[k]) by {
                let j = choose|j: int| 0 <= j < v.len() && v[j] == t[k];
                assert(offered.contains(v[j]));
            }
        }
    }
}

proof fn lemma_selected_members(sel: SelectionView, offered: Seq<DeviceView>)
    requires
        positions_within(sel, offered.len()),
    ensures
        forall|k: int|
            0 <= k < selected_devices(sel, offered).len() ==> offered.contains(
                #[trigger] selected_devices(sel, offered)[k],
            ),
{
    match sel {
        SelectionView::Chosen(ix, _) => {
            let v = devices_at(ix, offered);
            assert forall|k: int| 0 <= k < v.len() implies offered.contains(#[trigger] v[k]) by {
                assert(0 <= ix[k] < offered.len());
                assert(v[k] == offered[ix[k]]);
            }
        },
        SelectionView::Everything => {
            assert forall|k: int| 0 <= k < offered.len() implies offered.contains(#[trigger] offered[k]) by {}
        },
        SelectionView::Nothing => {},
    }
}

/// A device that signing may work on: locked out by tailnet lock, with a
/// node key and a tailnet lock key.
pub open spec fn signable(d: DeviceView) -> bool {
    locked_out(d) && has_keys(d)
}

/// Every device of `t` may be signed.
pub open spec fn all_signable(t: Seq<DeviceView>) -> bool {
    forall|k: int| 0 <= k < t.len() ==> signable(#[trigger] t[k])
}

/// The devices held by a signing job (offered at the prompt, shown, agreed
/// to or being signed) are all locked out with both keys.
pub open spec fn holds_signable(job: JobView, s: StateView) -> bool {
    job.op is Sign ==> match s {
        StateView::Selecting(o) => all_signable(o),
        StateView::Reviewing(t) => all_signable(t),
        StateView::Confirming(t) => all_signable(t),
        StateView::Running(t, _) => all_signable(t),
        _ => true,
    }
}

proof fn lemma_members_signable(t: Seq<DeviceView>, ds: Seq<DeviceView>)
    requires
        all_signable(ds),
        forall|k: int| 0 <= k < t.len() ==> ds.contains(#[trigger] t[k]),
    ensures
        all_signable(t),
{
    assert forall|k: int| 0 <= k < t.len() implies signable(#[trigger] t[k]) by {
        assert(ds.contains(t[k]));
        let j = choose|j: int| 0 <= j < ds.len() && ds[j] == t[k];
        assert(signable(ds[j]));
    }
}

proof fn lemma_keyed_subset_signable(v: Seq<DeviceView>)
    requires
        all_signable(v),
    ensures
        all_signable(devices_where(v, DeviceFilter::HasKeys)),
{
    lemma_where_members(v, DeviceFilter::HasKeys);
    let t = devices_where(v, DeviceFilter::HasKeys);
    assert forall|k: int| 0 <= k < t.len() implies v.contains(#[trigger] t[k]) by {}
    lemma_members_signable(t, v);
}

proof fn lemma_candidates_signable(all: Seq<DeviceView>)
    ensures
        all_signable(devices_where(all, DeviceFilter::SigningCandidate)),
{
    lemma_where_members(all, DeviceFilter::SigningCandidate);
}

/// Signing only ever works on locked-out devices with both keys: every
/// step keeps the devices of a signing job so (whatever answer comes back
/// from the prompt), and the device worked on is one of them.
pub proof fn law_signing_only_locked_devices(job: JobView, c: ClientView, s: StateView, e: EventView)
    requires
        holds_signable(job, s),
    ensures
        holds_signable(job, job_next(job, c, s, e).0),
        job.op is Sign ==> (job_next(job, c, s, e).1 matches ActionView::Perform(d, _) ==> signable(d)),
        holds_signable(job, StateView::Start),
{
    if job.op is Sign {
        match (s, e) {
            (StateView::Fetching, EventView::Devices(all)) => {
                let cands = devices_where(all, DeviceFilter::SigningCandidate);
                lemma_candidates_signable(all);
                if let Some(p) = job.patterns {
                    let m = resolved_devices(p, cands);
                    law_resolved_are_members(p, cands);
                    lemma_members_signable(m, cands);
                    if m.len() > 0 {
                        lemma_keyed_subset_signable(m);
                    }
                }
            },
            (StateView::Selecting(offered), EventView::Chosen(sel)) => {
                if positions_within(sel, offered.len()) {
                    let v = selected_devices(sel, offered);
                    lemma_selected_members(sel, offered);
                    lemma_members_signable(v, offered);
                    if v.len() > 0 {
                        lemma_keyed_subset_signable(v);
                    }
                }
            },
            _ => {},
        }
    }
}

proof fn lemma_replay_signable(job: JobView, c: ClientView, es: Seq<EventView>)
    ensures
        holds_signable(job, replay(job, c, StateView::Start, es).0),
        replay(job, c, StateView::Start, es).1.len() == es.len(),
        job.op is Sign ==> forall|k: int|
            0 <= k < es.len() ==> ((#[trigger] replay(job, c, StateView::Start, es).1[k])
                matches ActionView::Perform(d, _) ==> signable(d)),
    decreases es.len(),
{
    if es.len() == 0 {
        law_signing_only_locked_devices(job, c, StateView::Start, EventView::Begin);
    } else {
        let front = es.drop_last();
        lemma_replay_signable(job, c, front);
        let prev = replay(job, c, StateView::Start, front);
        law_signing_only_locked_devices(job, c, prev.0, es.last());
        let acts = replay(job, c, StateView::Start, es).1;
        assert(acts == prev.1.push(job_next(job, c, prev.0, es.last()).1));
        if job.op is Sign {
            assert forall|k: int| 0 <= k < es.len() implies ((#[trigger] acts[k])
                matches ActionView::Perform(d, _) ==> signable(d)) by {
                if k < front.len() {
                    assert(acts[k] == prev.1[k]);
                }
            }
        }
    }
}

/// Whatever the fetched devices and the answers, a signing job run from
/// its start runs `tailscale lock sign` only for devices that are locked
/// out and have both keys.
pub proof fn law_signs_only_locked_out(job: JobView, c: ClientView, es: Seq<EventView>, k: int)
    requires
        job.op is Sign,
        0 <= k < es.len(),
    ensures
        replay(job, c, StateView::Start, es).1[k] matches ActionView::Perform(d, _) ==> signable(d),
{
    lemma_replay_signable(job, c, es);
}

} // verus!
