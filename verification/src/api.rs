//! The Terraform Cloud client: its settings, and the decisions of a state
//! download, taken one response at a time.
//!
//! A download makes three requests: it resolves the workspace's id, then the
//! workspace's current state version and the URL it is hosted at, then reads
//! the state from that URL. The caller performs each request the machine
//! asks for and reports what came back.

use vstd::prelude::*;
use vstd::string::*;

use crate::text::{trim_end_char, trim_end_char_matches, views};

verus! {

#[verifier::external_type_specification]
#[verifier::external_body]
pub struct ExHttpClient(reqwest::Client);

#[verifier::external_type_specification]
#[verifier::external_body]
pub struct ExHttpError(reqwest::Error);

/// The user agent every client sends.
pub open spec fn user_agent() -> Seq<char> {
    "terraform-settings-mapper/0.1"@
}

/// `reqwest::Client::builder().user_agent(agent).build()`: a new HTTP client
/// that sends `agent`, the client's user agent, with every request. Building
/// reads the system's proxy settings and sets up TLS, and fails where either
/// fails; nothing is stated of when that happens.
#[verifier::external_body]
fn build_http_client(agent: &str) -> (res: Result<reqwest::Client, reqwest::Error>)
    requires
        agent@ == user_agent(),
{
    reqwest::Client::builder().user_agent(agent).build()
}

/// A client could not be set up.
#[derive(Debug)]
pub enum ApiError {
    /// The HTTP client could not be built.
    ClientBuild(reqwest::Error),
}

/// A client for one Terraform Cloud (or Terraform Enterprise) instance.
pub struct TfcClient {
    http: reqwest::Client,
    token: String,
    base_url: String,
}

/// The three requests of a state download.
#[derive(Debug, Clone, Copy, PartialEq, Eq, Structural)]
pub enum FetchStep {
    /// Resolve the workspace's id.
    Workspace,
    /// Resolve the current state version's download URL.
    StateVersion,
    /// Download the state itself.
    Download,
}

/// How a request of a download went wrong.
#[derive(Debug, Clone, Copy, PartialEq, Eq, Structural)]
pub enum FetchErrorKind {
    /// The request could not be sent or got no response.
    Send,
    /// The response had this status, which is not a success.
    Status(u16),
    /// The response body could not be read or decoded.
    Body,
}

/// Why a download failed: which request, at which URL, and how.
#[derive(Debug)]
pub struct FetchError {
    pub step: FetchStep,
    pub url: String,
    pub kind: FetchErrorKind,
}

/// The text of an HTTP status code, as `reqwest::StatusCode` displays it.
pub uninterp spec fn status_display(code: u16) -> Seq<char>;

/// `reqwest::StatusCode::from_u16(code)`, displayed: the code's number, a
/// space and its canonical reason, e.g. `404 Not Found`. `from_u16` accepts
/// exactly the codes 100 to 999.
#[verifier::external_body]
fn status_text(code: u16) -> (res: String)
    requires
        100 <= code <= 999,
    ensures
        res@ == status_display(code),
{
    match reqwest::StatusCode::from_u16(code) {
        Ok(status) => status.to_string(),
        Err(_) => String::new(),
    }
}

/// Whether `code` can be the status of a response (100 to 999).
pub open spec fn is_status_code(code: u16) -> bool {
    100 <= code <= 999
}

/// The messages that report a failed download, outermost first: the
/// request that failed, then how. A failure to send or to decode is caused
/// by the error the request gave, which comes below the last message.
pub open spec fn fetch_error_contexts(step: FetchStep, url: Seq<char>, kind: FetchErrorKind) -> Seq<
    Seq<char>,
> {
    match step {
        FetchStep::Download => match kind {
            FetchErrorKind::Send => seq!["Failed to download state file"@],
            FetchErrorKind::Status(code) => seq![
                "State download failed with status "@ + status_display(code),
            ],
            FetchErrorKind::Body => seq!["Failed to parse state JSON"@],
        },
        _ => {
            let outer = if step == FetchStep::Workspace {
                "Failed to fetch workspace"@
            } else {
                "Failed to fetch current state version"@
            };
            match kind {
                FetchErrorKind::Send => seq![outer, "GET "@ + url],
                FetchErrorKind::Status(code) => seq![
                    outer,
                    "HTTP "@ + status_display(code) + " for "@ + url,
                ],
                FetchErrorKind::Body => seq![outer, "Parsing JSON from "@ + url],
            }
        },
    }
}

impl FetchError {
    /// The messages that report this failure, outermost first.
    pub fn contexts(&self) -> (res: Vec<String>)
        requires
            self.kind matches FetchErrorKind::Status(code) ==> is_status_code(code),
        ensures
            views(res@) == fetch_error_contexts(self.step, self.url@, self.kind),
    {
        let mut res: Vec<String> = Vec::new();
        match self.step {
            FetchStep::Download => match self.kind {
                FetchErrorKind::Send => res.push("Failed to download state file".to_owned()),
                FetchErrorKind::Status(code) => {
                    let mut m = "State download failed with status ".to_owned();
                    let t = status_text(code);
                    m.append(t.as_str());
                    res.push(m);
                },
                FetchErrorKind::Body => res.push("Failed to parse state JSON".to_owned()),
            },
            step => {
                let outer = if step == FetchStep::Workspace {
                    "Failed to fetch workspace".to_owned()
                } else {
                    "Failed to fetch current state version".to_owned()
                };
                res.push(outer);
                match self.kind {
                    FetchErrorKind::Send => {
                        let mut m = "GET ".to_owned();
                        m.append(self.url.as_str());
                        res.push(m);
                    },
                    FetchErrorKind::Status(code) => {
                        let mut m = "HTTP ".to_owned();
                        let t = status_text(code);
                        m.append(t.as_str());
                        m.append(" for ");
                        m.append(self.url.as_str());
                        res.push(m);
                    },
                    FetchErrorKind::Body => {
                        let mut m = "Parsing JSON from ".to_owned();
                        m.append(self.url.as_str());
                        res.push(m);
                    },
                }
            },
        }
        assert(views(res@) =~= fetch_error_contexts(self.step, self.url@, self.kind));
        res
    }
}

impl ApiError {
    /// The message that reports this error, above the cause it carries.
    pub fn context(&self) -> (res: String)
        ensures
            res@ == "Failed to build HTTP client"@,
    {
        match self {
            ApiError::ClientBuild(_) => "Failed to build HTTP client".to_owned(),
        }
    }
}

/// Where a download stands.
#[derive(Debug)]
pub enum FetchState {
    /// The request of `step` to `url` is sent; its response is awaited.
    Requested { step: FetchStep, url: String },
    /// The request of `step` to `url` succeeded; its decoded body is awaited.
    Responded { step: FetchStep, url: String },
    /// The state was downloaded.
    Finished,
    /// The download failed.
    Failed,
}

/// What came back from the request last asked for.
#[derive(Debug)]
pub enum FetchEvent {
    /// The request could not be sent or got no response.
    SendFailed,
    /// A response arrived with this status code.
    Status(u16),
    /// The workspace response decoded, naming the workspace's id.
    WorkspaceId(String),
    /// The state-version response decoded, naming the state's download URL.
    DownloadUrl(String),
    /// The downloaded state decoded as JSON.
    StateReceived,
    /// The response body could not be read or decoded.
    BodyInvalid,
}

/// What the caller is to do next.
#[derive(Debug)]
pub enum FetchAction {
    /// Send a GET request to `url` with these `Authorization` and
    /// `Content-Type` headers.
    Send { url: String, authorization: String, content_type: String },
    /// Read and decode the body of the response just received.
    Decode,
    /// The download is complete: the decoded state is the result.
    Finish,
    /// The download failed.
    Fail(FetchError),
}

/// A download's state, by plain values.
pub ghost enum FetchStateView {
    Requested { step: FetchStep, url: Seq<char> },
    Responded { step: FetchStep, url: Seq<char> },
    Finished,
    Failed,
}

/// A report, by plain values.
pub ghost enum FetchEventView {
    SendFailed,
    Status(u16),
    WorkspaceId(Seq<char>),
    DownloadUrl(Seq<char>),
    StateReceived,
    BodyInvalid,
}

/// An action, by plain values.
pub ghost enum FetchActionView {
    Send { url: Seq<char>, authorization: Seq<char>, content_type: Seq<char> },
    Decode,
    Finish,
    Fail { step: FetchStep, url: Seq<char>, kind: FetchErrorKind },
}

impl View for FetchState {
    type V = FetchStateView;

    open spec fn view(&self) -> FetchStateView {
        match *self {
            FetchState::Requested { step, url } => FetchStateView::Requested { step, url: url@ },
            FetchState::Responded { step, url } => FetchStateView::Responded { step, url: url@ },
            FetchState::Finished => FetchStateView::Finished,
            FetchState::Failed => FetchStateView::Failed,
        }
    }
}

impl View for FetchEvent {
    type V = FetchEventView;

    open spec fn view(&self) -> FetchEventView {
        match *self {
            FetchEvent::SendFailed => FetchEventView::SendFailed,
            FetchEvent::Status(c) => FetchEventView::Status(c),
            FetchEvent::WorkspaceId(id) => FetchEventView::WorkspaceId(id@),
            FetchEvent::DownloadUrl(u) => FetchEventView::DownloadUrl(u@),
            FetchEvent::StateReceived => FetchEventView::StateReceived,
            FetchEvent::BodyInvalid => FetchEventView::BodyInvalid,
        }
    }
}

impl View for FetchAction {
    type V = FetchActionView;

    open spec fn view(&self) -> FetchActionView {
        match *self {
            FetchAction::Send { url, authorization, content_type } => FetchActionView::Send {
                url: url@,
                authorization: authorization@,
                content_type: content_type@,
            },
            FetchAction::Decode => FetchActionView::Decode,
            FetchAction::Finish => FetchActionView::Finish,
            FetchAction::Fail(e) => FetchActionView::Fail { step: e.step, url: e.url@, kind: e.kind },
        }
    }
}

/// Whether an HTTP status code is a success (200 to 299), as
/// `StatusCode::is_success` of the `http` crate has it.
pub open spec fn is_success_status(code: u16) -> bool {
    200 <= code < 300
}

/// Whether an HTTP status code is a success (200 to 299).
pub fn is_success(code: u16) -> (res: bool)
    ensures
        res == is_success_status(code),
{
    200 <= code && code < 300
}

/// The URL that resolves workspace `workspace` of organization `org`.
pub open spec fn workspace_url(base: Seq<char>, org: Seq<char>, workspace: Seq<char>) -> Seq<char> {
    base + "/api/v2/organizations/"@ + org + "/workspaces/"@ + workspace
}

/// The URL that resolves the current state version of workspace `id`.
pub open spec fn state_version_url(base: Seq<char>, id: Seq<char>) -> Seq<char> {
    base + "/api/v2/workspaces/"@ + id + "/current-state-version"@
}

/// The `Authorization` header that carries `token`.
pub open spec fn bearer(token: Seq<char>) -> Seq<char> {
    "Bearer "@ + token
}

/// The `Content-Type` header of every request.
pub open spec fn json_api_type() -> Seq<char> {
    "application/vnd.api+json"@
}

/// The request to `url`, with the headers for `token`.
pub open spec fn send_to(url: Seq<char>, token: Seq<char>) -> FetchActionView {
    FetchActionView::Send { url, authorization: bearer(token), content_type: json_api_type() }
}

/// Whether a download in state `s` can take report `e`: a sent request is
/// answered by a status or a send failure; a successful one by the decoded
/// body its step expects, or a body that did not decode.
pub open spec fn accepts(s: FetchStateView, e: FetchEventView) -> bool {
    match s {
        FetchStateView::Requested { .. } => e is SendFailed || e is Status,
        FetchStateView::Responded { step, .. } => e is BodyInvalid || match step {
            FetchStep::Workspace => e is WorkspaceId,
            FetchStep::StateVersion => e is DownloadUrl,
            FetchStep::Download => e is StateReceived,
        },
        _ => false,
    }
}

/// The next state and action of a download against `base` with `token`,
/// for a report that the state accepts.
pub open spec fn fetch_next(base: Seq<char>, token: Seq<char>, s: FetchStateView, e: FetchEventView) -> (
    FetchStateView,
    FetchActionView,
) {
    match s {
        FetchStateView::Requested { step, url } => match e {
            FetchEventView::Status(code) => if is_success_status(code) {
                (FetchStateView::Responded { step, url }, FetchActionView::Decode)
            } else {
                (
                    FetchStateView::Failed,
                    FetchActionView::Fail { step, url, kind: FetchErrorKind::Status(code) },
                )
            },
            _ => (FetchStateView::Failed, FetchActionView::Fail { step, url, kind: FetchErrorKind::Send }),
        },
        FetchStateView::Responded { step, url } => match e {
            FetchEventView::WorkspaceId(id) => {
                let next = state_version_url(base, id);
                (
                    FetchStateView::Requested { step: FetchStep::StateVersion, url: next },
                    send_to(next, token),
                )
            },
            FetchEventView::DownloadUrl(d) => (
                FetchStateView::Requested { step: FetchStep::Download, url: d },
                send_to(d, token),
            ),
            FetchEventView::StateReceived => (FetchStateView::Finished, FetchActionView::Finish),
            _ => (FetchStateView::Failed, FetchActionView::Fail { step, url, kind: FetchErrorKind::Body }),
        },
        _ => (s, FetchActionView::Decode),
    }
}

/// A download that meets only successes asks for the workspace, then for the
/// current state version of the id it names, then for the URL that names,
/// and finishes once the state decodes.
pub proof fn lemma_successful_download(
    base: Seq<char>,
    token: Seq<char>,
    org: Seq<char>,
    workspace: Seq<char>,
    id: Seq<char>,
    download: Seq<char>,
    c1: u16,
    c2: u16,
    c3: u16,
)
    requires
        is_success_status(c1),
        is_success_status(c2),
        is_success_status(c3),
    ensures
        ({
            let s0 = FetchStateView::Requested {
                step: FetchStep::Workspace,
                url: workspace_url(base, org, workspace),
            };
            let (s1, a1) = fetch_next(base, token, s0, FetchEventView::Status(c1));
            let (s2, a2) = fetch_next(base, token, s1, FetchEventView::WorkspaceId(id));
            let (s3, a3) = fetch_next(base, token, s2, FetchEventView::Status(c2));
            let (s4, a4) = fetch_next(base, token, s3, FetchEventView::DownloadUrl(download));
            let (s5, a5) = fetch_next(base, token, s4, FetchEventView::Status(c3));
            let (s6, a6) = fetch_next(base, token, s5, FetchEventView::StateReceived);
            &&& accepts(s0, FetchEventView::Status(c1))
            &&& accepts(s1, FetchEventView::WorkspaceId(id))
            &&& accepts(s2, FetchEventView::Status(c2))
            &&& accepts(s3, FetchEventView::DownloadUrl(download))
            &&& accepts(s4, FetchEventView::Status(c3))
            &&& accepts(s5, FetchEventView::StateReceived)
            &&& a1 == FetchActionView::Decode
            &&& a2 == send_to(state_version_url(base, id), token)
            &&& a3 == FetchActionView::Decode
            &&& a4 == send_to(download, token)
            &&& a5 == FetchActionView::Decode
            &&& a6 == FetchActionView::Finish
            &&& s6 == FetchStateView::Finished
        }),
{
}

/// A response whose status is not a success ends the download with that
/// status, for the request that got it.
pub proof fn lemma_error_status_fails(
    base: Seq<char>,
    token: Seq<char>,
    step: FetchStep,
    url: Seq<char>,
    code: u16,
)
    requires
        !is_success_status(code),
    ensures
        fetch_next(base, token, FetchStateView::Requested { step, url }, FetchEventView::Status(code))
            == (FetchStateView::Failed, FetchActionView::Fail {
            step,
            url,
            kind: FetchErrorKind::Status(code),
        }),
{
}

/// A finished or failed download takes no further report.
pub proof fn lemma_end_is_final(e: FetchEventView)
    ensures
        !accepts(FetchStateView::Finished, e),
        !accepts(FetchStateView::Failed, e),
{
}

/// Every request of a download carries the client's token and the JSON:API
/// content type.
pub proof fn lemma_requests_are_authorized(
    base: Seq<char>,
    token: Seq<char>,
    s: FetchStateView,
    e: FetchEventView,
)
    requires
        accepts(s, e),
    ensures
        fetch_next(base, token, s, e).1 is Send ==> fetch_next(base, token, s, e).1->authorization
            == bearer(token) && fetch_next(base, token, s, e).1->content_type == json_api_type(),
{
}

/// The state and the actions after the reports `events`, from state `s`.
pub open spec fn fetch_trace(base: Seq<char>, token: Seq<char>, s: FetchStateView, events: Seq<FetchEventView>) -> (
    FetchStateView,
    Seq<FetchActionView>,
)
    decreases events.len(),
{
    if events.len() == 0 {
        (s, Seq::empty())
    } else {
        let (before, actions) = fetch_trace(base, token, s, events.drop_last());
        let (after, action) = fetch_next(base, token, before, events.last());
        (after, actions.push(action))
    }
}

/// Every report of `events` was accepted by the state it came to.
pub open spec fn trace_accepted(base: Seq<char>, token: Seq<char>, s: FetchStateView, events: Seq<FetchEventView>) -> bool
    decreases events.len(),
{
    events.len() == 0 || (trace_accepted(base, token, s, events.drop_last()) && accepts(
        fetch_trace(base, token, s, events.drop_last()).0,
        events.last(),
    ))
}

/// How many of `actions` are requests.
pub open spec fn request_count(actions: Seq<FetchActionView>) -> nat
    decreases actions.len(),
{
    if actions.len() == 0 {
        0
    } else {
        request_count(actions.drop_last()) + if actions.last() is Send {
            1nat
        } else {
            0nat
        }
    }
}

/// How many of `events` are successful statuses.
pub open spec fn success_count(events: Seq<FetchEventView>) -> nat
    decreases events.len(),
{
    if events.len() == 0 {
        0
    } else {
        success_count(events.drop_last()) + if events.last() matches FetchEventView::Status(c)
            && is_success_status(c) {
            1nat
        } else {
            0nat
        }
    }
}

/// The requests a download has asked for on reaching `s`.
pub open spec fn requests_made(s: FetchStateView) -> nat {
    match s {
        FetchStateView::Requested { step, .. } | FetchStateView::Responded { step, .. } => match step {
            FetchStep::Workspace => 1,
            FetchStep::StateVersion => 2,
            FetchStep::Download => 3,
        },
        _ => 3,
    }
}

/// The successful responses a download has had on reaching `s`.
pub open spec fn responses_had(s: FetchStateView) -> nat {
    match s {
        FetchStateView::Requested { step, .. } => match step {
            FetchStep::Workspace => 0,
            FetchStep::StateVersion => 1,
            FetchStep::Download => 2,
        },
        FetchStateView::Responded { step, .. } => match step {
            FetchStep::Workspace => 1,
            FetchStep::StateVersion => 2,
            FetchStep::Download => 3,
        },
        _ => 3,
    }
}

/// Over any run of accepted reports, a download started by its first request
/// asks for at most three requests in all, and it finishes only after three
/// requests that all succeeded.
pub proof fn lemma_at_most_three_requests(
    base: Seq<char>,
    token: Seq<char>,
    url: Seq<char>,
    events: Seq<FetchEventView>,
)
    requires
        trace_accepted(
            base,
            token,
            FetchStateView::Requested { step: FetchStep::Workspace, url },
            events,
        ),
    ensures
        ({
            let (last, actions) = fetch_trace(
                base,
                token,
                FetchStateView::Requested { step: FetchStep::Workspace, url },
                events,
            );
            &&& 1 + request_count(actions) <= 3
            &&& last is Finished ==> 1 + request_count(actions) == 3 && success_count(events) == 3
        }),
{
    lemma_trace_counts(base, token, url, events);
}

/// The counts of a run of accepted reports, as the state reached tells them.
proof fn lemma_trace_counts(base: Seq<char>, token: Seq<char>, url: Seq<char>, events: Seq<FetchEventView>)
    requires
        trace_accepted(
            base,
            token,
            FetchStateView::Requested { step: FetchStep::Workspace, url },
            events,
        ),
    ensures
        ({
            let (last, actions) = fetch_trace(
                base,
                token,
                FetchStateView::Requested { step: FetchStep::Workspace, url },
                events,
            );
            &&& 1 + request_count(actions) <= 3
            &&& !(last is Failed) ==> 1 + request_count(actions) == requests_made(last)
                && success_count(events) == responses_had(last)
        }),
    decreases events.len(),
{
    let s0 = FetchStateView::Requested { step: FetchStep::Workspace, url };
    if events.len() > 0 {
        let init = events.drop_last();
        lemma_trace_counts(base, token, url, init);
        let (before, acts) = fetch_trace(base, token, s0, init);
        let (after, action) = fetch_next(base, token, before, events.last());
        assert(fetch_trace(base, token, s0, events) == (after, acts.push(action)));
        assert(acts.push(action).drop_last() =~= acts);
        assert(events.drop_last() == init);
    }
}

impl FetchState {
    /// Whether this state can take the report `e`.
    pub fn accepts(&self, e: &FetchEvent) -> (res: bool)
        ensures
            res == accepts(self@, e@),
    {
        match self {
            FetchState::Requested { .. } => match e {
                FetchEvent::SendFailed | FetchEvent::Status(_) => true,
                _ => false,
            },
            FetchState::Responded { step, .. } => match (step, e) {
                (_, FetchEvent::BodyInvalid) => true,
                (FetchStep::Workspace, FetchEvent::WorkspaceId(_)) => true,
                (FetchStep::StateVersion, FetchEvent::DownloadUrl(_)) => true,
                (FetchStep::Download, FetchEvent::StateReceived) => true,
                _ => false,
            },
            _ => false,
        }
    }
}

/// `a` followed by `b`.
fn joined(a: &str, b: &str) -> (res: String)
    ensures
        res@ == a@ + b@,
{
    let mut s = a.to_owned();
    s.append(b);
    s
}

impl TfcClient {
    /// The API token the client sends.
    pub closed spec fn spec_token(&self) -> Seq<char> {
        self.token@
    }

    /// The base URL of the instance, without trailing slashes.
    pub closed spec fn spec_base_url(&self) -> Seq<char> {
        self.base_url@
    }

    /// The HTTP client that performs the requests.
    pub closed spec fn spec_http(&self) -> reqwest::Client {
        self.http
    }

    /// A client for the instance at `base_url` (trailing slashes dropped)
    /// that sends `token`, given the outcome of building its HTTP client: the
    /// client on success, the build error otherwise.
    pub fn from_http(
        http: Result<reqwest::Client, reqwest::Error>,
        token: &str,
        base_url: &str,
    ) -> (res: Result<Self, ApiError>)
        ensures
            match http {
                Ok(h) => res matches Ok(c) && c.spec_http() == h && c.spec_token() == token@
                    && c.spec_base_url() == trim_end_char(base_url@, '/'),
                Err(e) => res matches Err(ApiError::ClientBuild(f)) && f == e,
            },
    {
        match http {
            Ok(http) => Ok(TfcClient {
                http,
                token: token.to_owned(),
                base_url: trim_end_char_matches(base_url, '/').to_owned(),
            }),
            Err(e) => Err(ApiError::ClientBuild(e)),
        }
    }

    /// A client for the instance at `base_url` (trailing slashes dropped)
    /// that sends `token`. It fails only where the HTTP client cannot be built.
    pub fn new(token: &str, base_url: &str) -> (res: Result<Self, ApiError>)
        ensures
            match res {
                Ok(c) => c.spec_token() == token@ && c.spec_base_url() == trim_end_char(base_url@, '/'),
                Err(e) => e is ClientBuild,
            },
    {
        let http = build_http_client("terraform-settings-mapper/0.1");
        Self::from_http(http, token, base_url)
    }

    /// The HTTP client that performs the requests: the one the client was
    /// built with.
    pub fn http(&self) -> (res: &reqwest::Client)
        ensures
            *res == self.spec_http(),
    {
        &self.http
    }

    /// The request to `url` with this client's headers.
    fn send(&self, url: String) -> (res: FetchAction)
        ensures
            res@ == send_to(url@, self.spec_token()),
    {
        FetchAction::Send {
            url,
            authorization: joined("Bearer ", self.token.as_str()),
            content_type: "application/vnd.api+json".to_owned(),
        }
    }

    /// Start fetching the current state of `org`/`workspace`: first resolve
    /// the workspace.
    pub fn begin_fetch(&self, org: &str, workspace: &str) -> (res: (FetchState, FetchAction))
        ensures
            res.0@ == (FetchStateView::Requested {
                step: FetchStep::Workspace,
                url: workspace_url(self.spec_base_url(), org@, workspace@),
            }),
            res.1@ == send_to(
                workspace_url(self.spec_base_url(), org@, workspace@),
                self.spec_token(),
            ),
    {
        let mut url = joined(self.base_url.as_str(), "/api/v2/organizations/");
        url.append(org);
        url.append("/workspaces/");
        url.append(workspace);
        let action = self.send(url.clone());
        (FetchState::Requested { step: FetchStep::Workspace, url }, action)
    }

    /// Take the report `event` in state `state`: the next state and what to do.
    pub fn advance_fetch(&self, state: FetchState, event: FetchEvent) -> (res: (FetchState, FetchAction))
        requires
            accepts(state@, event@),
        ensures
            (res.0@, res.1@) == fetch_next(self.spec_base_url(), self.spec_token(), state@, event@),
    {
        match state {
            FetchState::Requested { step, url } => match event {
                FetchEvent::Status(code) => if is_success(code) {
                    (FetchState::Responded { step, url }, FetchAction::Decode)
                } else {
                    (
                        FetchState::Failed,
                        FetchAction::Fail(FetchError { step, url, kind: FetchErrorKind::Status(code) }),
                    )
                },
                _ => (
                    FetchState::Failed,
                    FetchAction::Fail(FetchError { step, url, kind: FetchErrorKind::Send }),
                ),
            },
            FetchState::Responded { step, url } => match event {
                FetchEvent::WorkspaceId(id) => {
                    let mut next = joined(self.base_url.as_str(), "/api/v2/workspaces/");
                    next.append(id.as_str());
                    next.append("/current-state-version");
                    let action = self.send(next.clone());
                    (FetchState::Requested { step: FetchStep::StateVersion, url: next }, action)
                },
                FetchEvent::DownloadUrl(d) => {
                    let action = self.send(d.clone());
                    (FetchState::Requested { step: FetchStep::Download, url: d }, action)
                },
                FetchEvent::StateReceived => (FetchState::Finished, FetchAction::Finish),
                _ => (
                    FetchState::Failed,
                    FetchAction::Fail(FetchError { step, url, kind: FetchErrorKind::Body }),
                ),
            },
            _ => (state, FetchAction::Decode),
        }
    }
}

} // verus!
