//! The user commands that change the tailnet (approve, suspend, restore,
//! delete) as a state machine: the user that the pattern designates is
//! looked up, shown, and acted on once the user of the tool agrees (or
//! the job skips the confirmation).

use vstd::prelude::*;

use crate::api::{request_of, ApiRequest, ApiRequestView, BodyView, ClientView, HttpMethod, TailscaleClient, user_url};
use crate::matching::{
    find_user_by_pattern, user_lookup, user_lookup_result_view, UserLookupError, UserLookupView,
};
use crate::models::{users_view, User, UserView};

verus! {

/// What a user job does.
#[derive(Clone, Copy, PartialEq, Eq, Structural, Debug)]
pub enum UserOp {
    Approve,
    Suspend,
    Restore,
    Delete,
}

/// A user command: what it does, the pattern that designates the user,
/// and whether it skips the confirmation.
pub struct UserJob {
    pub op: UserOp,
    pub pattern: String,
    pub skip_confirm: bool,
}

/// The abstract value of a [`UserJob`].
pub struct UserJobView {
    pub op: UserOp,
    pub pattern: Seq<char>,
    pub skip_confirm: bool,
}

impl View for UserJob {
    type V = UserJobView;

    open spec fn view(&self) -> UserJobView {
        UserJobView { op: self.op, pattern: self.pattern@, skip_confirm: self.skip_confirm }
    }
}

/// Where a user job stands.
pub enum UserState {
    /// Nothing done yet.
    Start,
    /// The users of the tailnet are being fetched.
    Fetching,
    /// The user found is being shown.
    Reviewing(User),
    /// The user of the tool is asked to agree.
    Confirming(User),
    /// The request on the user is being sent.
    Sending(User),
    /// The job is over.
    Finished,
}

/// What happened since the last action.
pub enum UserEvent {
    /// The job is started.
    Begin,
    /// The users of the tailnet, as fetched.
    Users(Vec<User>),
    /// The user was shown.
    Shown,
    /// The answer to the confirmation.
    Answer(bool),
    /// The request was sent (whether it succeeded or not).
    Sent,
}

/// What the caller is to do next.
pub enum UserAction {
    /// Fetch the users of the tailnet.
    FetchUsers,
    /// Show this user.
    Review(User),
    /// Ask the user of the tool to agree.
    AskConfirmation,
    /// Send this request on this user.
    Send(User, ApiRequest),
    /// The pattern designates no single user: the command fails.
    Fail(UserLookupError),
    /// The user of the tool did not agree.
    Aborted,
    /// The event does not fit the state.
    OutOfOrder,
    /// The job is complete.
    Done,
}

/// The abstract value of a [`UserState`].
pub enum UserStateView {
    Start,
    Fetching,
    Reviewing(UserView),
    Confirming(UserView),
    Sending(UserView),
    Finished,
}

/// The abstract value of a [`UserEvent`].
pub enum UserEventView {
    Begin,
    Users(Seq<UserView>),
    Shown,
    Answer(bool),
    Sent,
}

/// The abstract value of a [`UserAction`].
pub enum UserActionView {
    FetchUsers,
    Review(UserView),
    AskConfirmation,
    Send(UserView, ApiRequestView),
    Fail(UserLookupView),
    Aborted,
    OutOfOrder,
    Done,
}

impl View for UserState {
    type V = UserStateView;

    open spec fn view(&self) -> UserStateView {
        match self {
            UserState::Start => UserStateView::Start,
            UserState::Fetching => UserStateView::Fetching,
            UserState::Reviewing(u) => UserStateView::Reviewing(u@),
            UserState::Confirming(u) => UserStateView::Confirming(u@),
            UserState::Sending(u) => UserStateView::Sending(u@),
            UserState::Finished => UserStateView::Finished,
        }
    }
}

impl View for UserEvent {
    type V = UserEventView;

    open spec fn view(&self) -> UserEventView {
        match self {
            UserEvent::Begin => UserEventView::Begin,
            UserEvent::Users(v) => UserEventView::Users(users_view(v@)),
            UserEvent::Shown => UserEventView::Shown,
            UserEvent::Answer(a) => UserEventView::Answer(*a),
            UserEvent::Sent => UserEventView::Sent,
        }
    }
}

impl View for UserAction {
    type V = UserActionView;

    open spec fn view(&self) -> UserActionView {
        match self {
            UserAction::FetchUsers => UserActionView::FetchUsers,
            UserAction::Review(u) => UserActionView::Review(u@),
            UserAction::AskConfirmation => UserActionView::AskConfirmation,
            UserAction::Send(u, r) => UserActionView::Send(u@, r@),
            UserAction::Fail(e) => UserActionView::Fail(
                user_lookup_result_view(Err(*e)),
            ),
            UserAction::Aborted => UserActionView::Aborted,
            UserAction::OutOfOrder => UserActionView::OutOfOrder,
            UserAction::Done => UserActionView::Done,
        }
    }
}

/// The action that an operation names in the user's URL.
pub open spec fn op_suffix(op: UserOp) -> Seq<char> {
    match op {
        UserOp::Approve => "/approve"@,
        UserOp::Suspend => "/suspend"@,
        UserOp::Restore => "/restore"@,
        UserOp::Delete => ""@,
    }
}

/// The request that operation `op` sends on user `u`.
pub open spec fn user_request(op: UserOp, c: ClientView, u: UserView) -> ApiRequestView {
    request_of(
        c,
        if op == UserOp::Delete {
            HttpMethod::Delete
        } else {
            HttpMethod::Post
        },
        user_url(c.tailnet, u.id, op_suffix(op)),
        BodyView::Empty,
    )
}

/// Sending the request on user `u`.
pub open spec fn send_to(job: UserJobView, c: ClientView, u: UserView) -> (UserStateView, UserActionView) {
    (UserStateView::Sending(u), UserActionView::Send(u, user_request(job.op, c, u)))
}

/// The next state and action of user job `job`, run by client `c`, in
/// state `s` after event `e`.
pub open spec fn user_next(job: UserJobView, c: ClientView, s: UserStateView, e: UserEventView) -> (
    UserStateView,
    UserActionView,
) {
    match (s, e) {
        (UserStateView::Start, UserEventView::Begin) => (UserStateView::Fetching, UserActionView::FetchUsers),
        (UserStateView::Fetching, UserEventView::Users(all)) => match user_lookup(job.pattern, all) {
            UserLookupView::Found(u) => (UserStateView::Reviewing(u), UserActionView::Review(u)),
            other => (UserStateView::Finished, UserActionView::Fail(other)),
        },
        (UserStateView::Reviewing(u), UserEventView::Shown) => if job.skip_confirm {
            send_to(job, c, u)
        } else {
            (UserStateView::Confirming(u), UserActionView::AskConfirmation)
        },
        (UserStateView::Confirming(u), UserEventView::Answer(yes)) => if yes {
            send_to(job, c, u)
        } else {
            (UserStateView::Finished, UserActionView::Aborted)
        },
        (UserStateView::Sending(_), UserEventView::Sent) => (UserStateView::Finished, UserActionView::Done),
        _ => (UserStateView::Finished, UserActionView::OutOfOrder),
    }
}

fn user_request_exec(job: &UserJob, client: &TailscaleClient, u: &User) -> (r: ApiRequest)
    ensures
        r@ == user_request(job.op, client@, u@),
{
    let id = u.id.as_str();
    match job.op {
        UserOp::Approve => client.approve_user_request(id),
        UserOp::Suspend => client.suspend_user_request(id),
        UserOp::Restore => client.restore_user_request(id),
        UserOp::Delete => client.delete_user_request(id),
    }
}

fn send_exec(job: &UserJob, client: &TailscaleClient, u: User) -> (r: (UserState, UserAction))
    ensures
        (r.0@, r.1@) == send_to(job@, client@, u@),
{
    let request = user_request_exec(job, client, &u);
    let shown = u.clone();
    (UserState::Sending(u), UserAction::Send(shown, request))
}

/// Advances a user job: from its state and the event that just happened,
/// its next state and the action to perform.
pub fn user_step(job: &UserJob, client: &TailscaleClient, state: UserState, event: UserEvent) -> (r: (
    UserState,
    UserAction,
))
    ensures
        (r.0@, r.1@) == user_next(job@, client@, state@, event@),
{
    match (state, event) {
        (UserState::Start, UserEvent::Begin) => (UserState::Fetching, UserAction::FetchUsers),
        (UserState::Fetching, UserEvent::Users(all)) => match find_user_by_pattern(
            job.pattern.as_str(),
            all.as_slice(),
        ) {
            Ok(u) => {
                let shown = u.clone();
                (UserState::Reviewing(u), UserAction::Review(shown))
            },
            Err(e) => (UserState::Finished, UserAction::Fail(e)),
        },
        (UserState::Reviewing(u), UserEvent::Shown) => if job.skip_confirm {
            send_exec(job, client, u)
        } else {
            (UserState::Confirming(u), UserAction::AskConfirmation)
        },
        (UserState::Confirming(u), UserEvent::Answer(yes)) => if yes {
            send_exec(job, client, u)
        } else {
            (UserState::Finished, UserAction::Aborted)
        },
        (UserState::Sending(_), UserEvent::Sent) => (UserState::Finished, UserAction::Done),
        _ => (UserState::Finished, UserAction::OutOfOrder),
    }
}

/// A request on a user is sent only in a step the user of the tool agreed
/// to: right after a yes, or after the user was shown when the job skips
/// the confirmation; a no ends the job.
pub proof fn law_user_change_needs_consent(job: UserJobView, c: ClientView, s: UserStateView, e: UserEventView)
    ensures
        user_next(job, c, s, e).1 is Send ==> (s is Confirming && e == UserEventView::Answer(true)) || (
        job.skip_confirm && s is Reviewing && e is Shown),
        s is Confirming && e == UserEventView::Answer(false) ==> user_next(job, c, s, e) == (
            UserStateView::Finished,
            UserActionView::Aborted,
        ),
{
}

/// The request sent is the one of the job's operation, on the user that
/// the pattern designates.
pub proof fn law_user_request_targets_found_user(
    job: UserJobView,
    c: ClientView,
    all: Seq<UserView>,
    u: UserView,
)
    requires
        user_lookup(job.pattern, all) == UserLookupView::Found(u),
    ensures
        user_next(job, c, UserStateView::Fetching, UserEventView::Users(all)) == (
            UserStateView::Reviewing(u),
            UserActionView::Review(u),
        ),
        user_next(job, c, UserStateView::Confirming(u), UserEventView::Answer(true)).1
            == UserActionView::Send(u, user_request(job.op, c, u)),
{
}

} // verus!
