//! The requests that the client sends to the Tailscale API, and what it
//! makes of the status of a response. Sending a request and reading its
//! response is left to the caller; everything about which request goes
//! where is decided and proved here.

use vstd::prelude::*;

use crate::models::{strings_view, RenameDeviceRequest, UpdateTagsRequest};

verus! {

/// The root of version 2 of the Tailscale API.
pub open spec fn api_base() -> Seq<char> {
    "https://api.tailscale.com/api/v2"@
}

fn api_base_text() -> (r: &'static str)
    ensures
        r@ == api_base(),
{
    "https://api.tailscale.com/api/v2"
}

/// The URL of a resource under the tailnet `tailnet`.
pub open spec fn tailnet_url(tailnet: Seq<char>, rest: Seq<char>) -> Seq<char> {
    api_base() + "/tailnet/"@ + tailnet + rest
}

/// The URL of a resource under the device `id`.
pub open spec fn device_url(id: Seq<char>, rest: Seq<char>) -> Seq<char> {
    api_base() + "/device/"@ + id + rest
}

/// The URL of the user `id` of the tailnet `tailnet`, followed by `action`.
pub open spec fn user_url(tailnet: Seq<char>, id: Seq<char>, action: Seq<char>) -> Seq<char> {
    tailnet_url(tailnet, "/user/"@ + id + action)
}

fn tailnet_url_text(tailnet: &str, rest: &str) -> (r: String)
    ensures
        r@ == tailnet_url(tailnet@, rest@),
{
    let mut url = String::from_str(api_base_text());
    url.append("/tailnet/");
    url.append(tailnet);
    url.append(rest);
    url
}

fn device_url_text(id: &str, rest: &str) -> (r: String)
    ensures
        r@ == device_url(id@, rest@),
{
    let mut url = String::from_str(api_base_text());
    url.append("/device/");
    url.append(id);
    url.append(rest);
    url
}

fn user_url_text(tailnet: &str, id: &str, action: &str) -> (r: String)
    ensures
        r@ == user_url(tailnet@, id@, action@),
{
    let mut rest = String::from_str("/user/");
    rest.append(id);
    rest.append(action);
    tailnet_url_text(tailnet, rest.as_str())
}

/// The HTTP methods the client uses.
#[derive(PartialEq, Eq, Structural, Clone, Copy, Debug)]
pub enum HttpMethod {
    Get,
    Post,
    Delete,
}

/// The JSON body of a request, if it has one.
pub enum RequestBody {
    Empty,
    Tags(UpdateTagsRequest),
    Rename(RenameDeviceRequest),
}

/// The abstract value of a [`RequestBody`].
pub enum BodyView {
    Empty,
    Tags(Seq<Seq<char>>),
    Rename(Seq<char>),
}

impl View for RequestBody {
    type V = BodyView;

    open spec fn view(&self) -> BodyView {
        match self {
            RequestBody::Empty => BodyView::Empty,
            RequestBody::Tags(t) => BodyView::Tags(strings_view(t.tags@)),
            RequestBody::Rename(n) => BodyView::Rename(n.name@),
        }
    }
}

/// A request to the API: its method, its URL, the user name of its basic
/// authentication (the API key, with no password) and its body.
pub struct ApiRequest {
    pub method: HttpMethod,
    pub url: String,
    pub auth_user: String,
    pub body: RequestBody,
}

/// The abstract value of an [`ApiRequest`].
pub struct ApiRequestView {
    pub method: HttpMethod,
    pub url: Seq<char>,
    pub auth_user: Seq<char>,
    pub body: BodyView,
}

impl View for ApiRequest {
    type V = ApiRequestView;

    open spec fn view(&self) -> ApiRequestView {
        ApiRequestView {
            method: self.method,
            url: self.url@,
            auth_user: self.auth_user@,
            body: self.body@,
        }
    }
}

/// A client of the API of one tailnet, authenticated by an API key.
pub struct TailscaleClient {
    api_key: String,
    tailnet: String,
}

/// The abstract value of a [`TailscaleClient`].
pub struct ClientView {
    pub api_key: Seq<char>,
    pub tailnet: Seq<char>,
}

impl View for TailscaleClient {
    type V = ClientView;

    closed spec fn view(&self) -> ClientView {
        ClientView { api_key: self.api_key@, tailnet: self.tailnet@ }
    }
}

/// The request that client `c` sends with `method`, `url` and `body`.
pub open spec fn request_of(c: ClientView, method: HttpMethod, url: Seq<char>, body: BodyView) -> ApiRequestView {
    ApiRequestView { method, url, auth_user: c.api_key, body }
}

impl TailscaleClient {
    /// A client for the tailnet `tailnet` (`-` for the default tailnet of
    /// the key) that authenticates with `api_key`.
    pub fn new(api_key: String, tailnet: String) -> (r: Self)
        ensures
            r@.api_key == api_key@,
            r@.tailnet == tailnet@,
    {
        TailscaleClient { api_key, tailnet }
    }

    /// The API key of the client.
    pub fn api_key(&self) -> (r: &str)
        ensures
            r@ == self@.api_key,
    {
        self.api_key.as_str()
    }

    /// The tailnet of the client.
    pub fn tailnet(&self) -> (r: &str)
        ensures
            r@ == self@.tailnet,
    {
        self.tailnet.as_str()
    }

    fn request(&self, method: HttpMethod, url: String, body: RequestBody) -> (r: ApiRequest)
        ensures
            r@ == request_of(self@, method, url@, body@),
    {
        ApiRequest { method, url, auth_user: self.api_key.clone(), body }
    }

    /// The request that lists every device of the tailnet with all fields.
    pub fn list_devices_request(&self) -> (r: ApiRequest)
        ensures
            r@ == request_of(
                self@,
                HttpMethod::Get,
                tailnet_url(self@.tailnet, "/devices?fields=all"@),
                BodyView::Empty,
            ),
    {
        let url = tailnet_url_text(self.tailnet.as_str(), "/devices?fields=all");
        self.request(HttpMethod::Get, url, RequestBody::Empty)
    }

    /// The request that sets the tags of device `device_id` to `tags`.
    pub fn update_tags_request(&self, device_id: &str, tags: Vec<String>) -> (r: ApiRequest)
        ensures
            r@ == request_of(
                self@,
                HttpMethod::Post,
                device_url(device_id@, "/tags"@),
                BodyView::Tags(strings_view(tags@)),
            ),
    {
        let url = device_url_text(device_id, "/tags");
        self.request(HttpMethod::Post, url, RequestBody::Tags(UpdateTagsRequest { tags }))
    }

    /// The request that deletes device `device_id`.
    pub fn delete_device_request(&self, device_id: &str) -> (r: ApiRequest)
        ensures
            r@ == request_of(self@, HttpMethod::Delete, device_url(device_id@, ""@), BodyView::Empty),
    {
        let url = device_url_text(device_id, "");
        self.request(HttpMethod::Delete, url, RequestBody::Empty)
    }

    /// The request that lists the users of the tailnet.
    pub fn list_users_request(&self) -> (r: ApiRequest)
        ensures
            r@ == request_of(
                self@,
                HttpMethod::Get,
                tailnet_url(self@.tailnet, "/users"@),
                BodyView::Empty,
            ),
    {
        let url = tailnet_url_text(self.tailnet.as_str(), "/users");
        self.request(HttpMethod::Get, url, RequestBody::Empty)
    }

    /// The request that reads the contacts of the tailnet.
    pub fn get_contacts_request(&self) -> (r: ApiRequest)
        ensures
            r@ == request_of(
                self@,
                HttpMethod::Get,
                tailnet_url(self@.tailnet, "/contacts"@),
                BodyView::Empty,
            ),
    {
        let url = tailnet_url_text(self.tailnet.as_str(), "/contacts");
        self.request(HttpMethod::Get, url, RequestBody::Empty)
    }

    /// The request that approves user `user_id`.
    pub fn approve_user_request(&self, user_id: &str) -> (r: ApiRequest)
        ensures
            r@ == request_of(
                self@,
                HttpMethod::Post,
                user_url(self@.tailnet, user_id@, "/approve"@),
                BodyView::Empty,
            ),
    {
        let url = user_url_text(self.tailnet.as_str(), user_id, "/approve");
        self.request(HttpMethod::Post, url, RequestBody::Empty)
    }

    /// The request that suspends user `user_id`.
    pub fn suspend_user_request(&self, user_id: &str) -> (r: ApiRequest)
        ensures
            r@ == request_of(
                self@,
                HttpMethod::Post,
                user_url(self@.tailnet, user_id@, "/suspend"@),
                BodyView::Empty,
            ),
    {
        let url = user_url_text(self.tailnet.as_str(), user_id, "/suspend");
        self.request(HttpMethod::Post, url, RequestBody::Empty)
    }

    /// The request that restores the suspended user `user_id`.
    pub fn restore_user_request(&self, user_id: &str) -> (r: ApiRequest)
        ensures
            r@ == request_of(
                self@,
                HttpMethod::Post,
                user_url(self@.tailnet, user_id@, "/restore"@),
                BodyView::Empty,
            ),
    {
        let url = user_url_text(self.tailnet.as_str(), user_id, "/restore");
        self.request(HttpMethod::Post, url, RequestBody::Empty)
    }

    /// The request that deletes user `user_id` from the tailnet.
    pub fn delete_user_request(&self, user_id: &str) -> (r: ApiRequest)
        ensures
            r@ == request_of(
                self@,
                HttpMethod::Delete,
                user_url(self@.tailnet, user_id@, ""@),
                BodyView::Empty,
            ),
    {
        let url = user_url_text(self.tailnet.as_str(), user_id, "");
        self.request(HttpMethod::Delete, url, RequestBody::Empty)
    }

    /// The request that reads device `device_id` with all fields.
    pub fn get_device_request(&self, device_id: &str) -> (r: ApiRequest)
        ensures
            r@ == request_of(
                self@,
                HttpMethod::Get,
                device_url(device_id@, "?fields=all"@),
                BodyView::Empty,
            ),
    {
        let url = device_url_text(device_id, "?fields=all");
        self.request(HttpMethod::Get, url, RequestBody::Empty)
    }

    /// The request that renames device `device_id` to `new_name`.
    pub fn rename_device_request(&self, device_id: &str, new_name: String) -> (r: ApiRequest)
        ensures
            r@ == request_of(
                self@,
                HttpMethod::Post,
                device_url(device_id@, "/name"@),
                BodyView::Rename(new_name@),
            ),
    {
        let url = device_url_text(device_id, "/name");
        self.request(HttpMethod::Post, url, RequestBody::Rename(RenameDeviceRequest { name: new_name }))
    }
}

/// A response status counts as success when it is in the 2xx class.
pub open spec fn is_success_status(status: u16) -> bool {
    200 <= status <= 299
}

/// The message of a failed request.
pub open spec fn failure_text(status_text: Seq<char>, body: Seq<char>) -> Seq<char> {
    "API request failed with status "@ + status_text + ": "@ + body
}

/// What a request came to, given the status code of its response, the
/// status as it is displayed (code and reason) and the response body:
/// success for a 2xx status, and otherwise the failure message.
pub fn check_response(status: u16, status_text: &str, body: &str) -> (r: Result<(), String>)
    ensures
        is_success_status(status) <==> r is Ok,
        r matches Err(m) ==> m@ == failure_text(status_text@, body@),
{
    if 200 <= status && status <= 299 {
        Ok(())
    } else {
        let mut m = String::from_str("API request failed with status ");
        m.append(status_text);
        m.append(": ");
        m.append(body);
        Err(m)
    }
}

} // verus!
