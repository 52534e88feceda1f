//! The client's view of the server: which session is current, the requests
//! each operation sends, what each reply status means, and how the client
//! picks its session at start-up.

use vstd::prelude::*;
use vstd::string::*;
use vstd::utf8::encode_utf8;
use crate::db::opt_view;
use crate::error::{ClaiError, ClaiErrorView};
use crate::http_utils::{is_success, status_is_success};
use crate::text::{int_decimal, push_int};
use crate::types::{
    ChatRequest, CreateSessionRequest, SaveSessionRequest, SessionResponse, SetModelRequest,
    SetRoleRequest,
};

verus! {

// ---------------------------------------------------------------------------
// Outside helpers
// ---------------------------------------------------------------------------

/// Bytes that percent-encoding leaves as they are: ASCII letters, digits and `-._~`.
pub open spec fn url_safe(b: u8) -> bool {
    (48 <= b && b <= 57) || (65 <= b && b <= 90) || (97 <= b && b <= 122) || b == 45 || b == 46
        || b == 95 || b == 126
}

/// The upper-case hexadecimal digit for `d` in `0..16`.
pub open spec fn hex_upper(d: int) -> char {
    seq!['0', '1', '2', '3', '4', '5', '6', '7', '8', '9', 'A', 'B', 'C', 'D', 'E', 'F'][d]
}

/// The encoding of one byte: itself when safe, else `%` and two upper-case hex digits.
pub open spec fn encode_byte(b: u8) -> Seq<char> {
    if url_safe(b) {
        seq![b as char]
    } else {
        seq!['%', hex_upper(b as int / 16), hex_upper(b as int % 16)]
    }
}

/// Percent-encoding of a byte sequence.
pub open spec fn percent_encode(bytes: Seq<u8>) -> Seq<char>
    decreases bytes.len(),
{
    if bytes.len() == 0 {
        Seq::<char>::empty()
    } else {
        percent_encode(bytes.drop_last()) + encode_byte(bytes.last())
    }
}

/// Calls `urlencoding::encode`, which percent-encodes every byte of the
/// UTF-8 form of `s` except ASCII letters, digits and `-`, `_`, `.`, `~`,
/// writing `%` and two upper-case hex digits (the crate's documentation and
/// its `encode_into` and `to_hex_digit` functions).
#[verifier::external_body]
pub fn url_encode(s: &str) -> (r: String)
    ensures
        r@ == percent_encode(encode_utf8(s@)),
{
    urlencoding::encode(s).into_owned()
}

/// The lower-case hexadecimal digit for `d` in `0..16`.
pub open spec fn hex_lower(d: int) -> char {
    seq!['0', '1', '2', '3', '4', '5', '6', '7', '8', '9', 'a', 'b', 'c', 'd', 'e', 'f'][d]
}

/// The bytes as lower-case hexadecimal, two digits per byte, high digit first.
pub open spec fn hex_of(bytes: Seq<u8>) -> Seq<char>
    decreases bytes.len(),
{
    if bytes.len() == 0 {
        Seq::<char>::empty()
    } else {
        hex_of(bytes.drop_last()) + seq![
            hex_lower(bytes.last() as int / 16),
            hex_lower(bytes.last() as int % 16),
        ]
    }
}

/// Sixteen bytes marked as a random (version 4, RFC 4122 variant) UUID:
/// the high half of byte 6 set to 4, the top two bits of byte 8 set to `10`.
pub open spec fn v4_bytes(bytes: Seq<u8>) -> Seq<u8> {
    bytes.update(6, (bytes[6] & 0x0fu8) | 0x40u8).update(8, (bytes[8] & 0x3fu8) | 0x80u8)
}

/// The hyphenated lower-case rendering of a UUID's sixteen bytes: groups of
/// 4, 2, 2, 2 and 6 bytes joined by hyphens.
pub open spec fn hyphenated(b: Seq<u8>) -> Seq<char> {
    hex_of(b.subrange(0, 4)) + "-"@ + hex_of(b.subrange(4, 6)) + "-"@ + hex_of(b.subrange(6, 8))
        + "-"@ + hex_of(b.subrange(8, 10)) + "-"@ + hex_of(b.subrange(10, 16))
}

/// The name a new session gets from sixteen random bytes: the bytes marked
/// as a version 4 UUID, rendered hyphenated in lower case.
pub open spec fn random_session_name(random: Seq<u8>) -> Seq<char> {
    hyphenated(v4_bytes(random))
}

/// Builds a UUID from random bytes with `uuid::Builder::from_random_bytes`,
/// which sets the version (byte 6 becomes `(b & 0x0f) | 0x40`) and the
/// variant (byte 8 becomes `(b & 0x3f) | 0x80`) and leaves the other bytes,
/// and renders it with `Display`, which writes the hyphenated lower-case form
/// (`format_hyphenated` in the crate's `fmt.rs`). Neither step can fail.
#[verifier::external_body]
fn session_name_from(random: [u8; 16]) -> (r: String)
    ensures
        r@ == random_session_name(random@),
{
    uuid::Builder::from_random_bytes(random).into_uuid().to_string()
}

// ---------------------------------------------------------------------------
// Requests
// ---------------------------------------------------------------------------

/// An HTTP method.
#[derive(PartialEq, Eq, Clone, Copy)]
pub enum Method {
    Get,
    Post,
    Patch,
    Put,
    Delete,
}

/// A request to the server: a method and a URL.
pub struct Call {
    pub method: Method,
    pub url: String,
}

/// The client's session bookkeeping: the server's base URL and the current session.
pub struct SessionManager {
    server_url: String,
    current_session: Option<i32>,
}

/// The spec-level value of a `SessionManager`.
pub struct ManagerView {
    pub server_url: Seq<char>,
    pub current_session: Option<int>,
}

impl View for SessionManager {
    type V = ManagerView;

    closed spec fn view(&self) -> ManagerView {
        ManagerView {
            server_url: self.server_url@,
            current_session: match self.current_session {
                Some(id) => Some(id as int),
                None => None,
            },
        }
    }
}

/// The error for an operation that needs a current session when there is none.
pub open spec fn no_current_session() -> ClaiErrorView {
    ClaiErrorView::Session("No current session set"@)
}

/// The URL of a session by id.
pub open spec fn session_url(base: Seq<char>, id: int) -> Seq<char> {
    base + "/sessions/"@ + int_decimal(id)
}

/// The URL of a session by display name.
pub open spec fn by_name_url(base: Seq<char>, name: Seq<char>) -> Seq<char> {
    base + "/sessions/by-name/"@ + percent_encode(encode_utf8(name))
}

/// The error for a display name the server does not know.
pub open spec fn unknown_name(name: Seq<char>) -> ClaiErrorView {
    ClaiErrorView::Session("Session '"@ + name + "' not found"@)
}

/// The error for any other failed lookup by display name.
pub open spec fn lookup_failed(name: Seq<char>, status_text: Seq<char>) -> ClaiErrorView {
    ClaiErrorView::Server("Failed to get session '"@ + name + "': "@ + status_text)
}

/// The error for a failed operation: what failed and the status.
pub open spec fn failed(what: Seq<char>, status_text: Seq<char>) -> ClaiErrorView {
    ClaiErrorView::Server(what + ": "@ + status_text)
}

/// The view of a call result.
pub open spec fn call_view(r: Result<Call, ClaiError>) -> Result<(Method, Seq<char>), ClaiErrorView> {
    match r {
        Ok(c) => Ok((c.method, c.url@)),
        Err(e) => Err(e@),
    }
}

fn no_current_session_error() -> (e: ClaiError)
    ensures
        e@ == no_current_session(),
{
    ClaiError::session(String::from_str("No current session set"))
}

impl SessionManager {
    /// Bookkeeping for the server at `server_url`, with no current session.
    pub fn new(server_url: String) -> (m: SessionManager)
        ensures
            m@ == (ManagerView { server_url: server_url@, current_session: None }),
    {
        SessionManager { server_url, current_session: None }
    }

    /// The server's base URL.
    pub fn server_url(&self) -> (r: &String)
        ensures
            r@ == self@.server_url,
    {
        &self.server_url
    }

    /// Makes session `session_id` current.
    pub fn set_current_session(&mut self, session_id: i32)
        ensures
            final(self)@ == (ManagerView { current_session: Some(session_id as int), ..old(self)@ }),
    {
        self.current_session = Some(session_id);
    }

    /// The current session, or the session error saying there is none.
    pub fn require_current_session(&self) -> (r: Result<i32, ClaiError>)
        ensures
            match self@.current_session {
                Some(id) => r == Ok::<i32, ClaiError>(id as i32),
                None => r matches Err(e) && e@ == no_current_session(),
            },
    {
        match self.current_session {
            Some(id) => Ok(id),
            None => Err(no_current_session_error()),
        }
    }

    fn url(&self, path: &str) -> (r: String)
        ensures
            r@ == self@.server_url + path@,
    {
        let mut r = self.server_url.clone();
        r.append(path);
        r
    }

    fn url_of_session(&self, id: i32, suffix: &str) -> (r: String)
        ensures
            r@ == session_url(self@.server_url, id as int) + suffix@,
    {
        let mut r = self.url("/sessions/");
        push_int(&mut r, id as i64);
        r.append(suffix);
        r
    }

    /// `GET <server>/health`.
    pub fn health_call(&self) -> (c: Call)
        ensures
            c.method == Method::Get,
            c.url@ == self@.server_url + "/health"@,
    {
        Call { method: Method::Get, url: self.url("/health") }
    }

    /// `GET <server>/sessions/by-name/<encoded name>`.
    pub fn session_by_name_call(&self, session_name: &str) -> (c: Call)
        ensures
            c.method == Method::Get,
            c.url@ == by_name_url(self@.server_url, session_name@),
    {
        let mut url = self.url("/sessions/by-name/");
        let encoded = url_encode(session_name);
        url.append(encoded.as_str());
        Call { method: Method::Get, url }
    }

    /// `DELETE <server>/sessions/by-name/<encoded name>`.
    pub fn delete_session_call(&self, session_name: &str) -> (c: Call)
        ensures
            c.method == Method::Delete,
            c.url@ == by_name_url(self@.server_url, session_name@),
    {
        let mut url = self.url("/sessions/by-name/");
        let encoded = url_encode(session_name);
        url.append(encoded.as_str());
        Call { method: Method::Delete, url }
    }

    /// `GET <server>/sessions/last`.
    pub fn last_session_call(&self) -> (c: Call)
        ensures
            c.method == Method::Get,
            c.url@ == self@.server_url + "/sessions/last"@,
    {
        Call { method: Method::Get, url: self.url("/sessions/last") }
    }

    /// `GET <server>/sessions/<id>`.
    pub fn session_info_call(&self, session_id: i32) -> (c: Call)
        ensures
            c.method == Method::Get,
            c.url@ == session_url(self@.server_url, session_id as int),
    {
        let url = self.url_of_session(session_id, "");
        proof {
            reveal_strlit("");
        }
        assert(url@ =~= session_url(self@.server_url, session_id as int));
        Call { method: Method::Get, url }
    }

    /// `GET <server>/sessions/<current id>`, when there is a current session.
    pub fn current_session_info_call(&self) -> (r: Result<Call, ClaiError>)
        ensures
            match self@.current_session {
                Some(id) => call_view(r) == Ok::<(Method, Seq<char>), ClaiErrorView>(
                    (Method::Get, session_url(self@.server_url, id)),
                ),
                None => call_view(r) == Err::<(Method, Seq<char>), ClaiErrorView>(
                    no_current_session(),
                ),
            },
    {
        let id = self.require_current_session()?;
        Ok(self.session_info_call(id))
    }

    /// `POST <server>/sessions` with no display name and the name that the
    /// sixteen random bytes `random` give (see `random_session_name`).
    pub fn create_session_call(&self, random: [u8; 16]) -> (r: (Call, CreateSessionRequest))
        ensures
            r.0.method == Method::Post,
            r.0.url@ == self@.server_url + "/sessions"@,
            r.1.name@ == random_session_name(random@),
            r.1.display_name is None,
    {
        let request = CreateSessionRequest { name: session_name_from(random), display_name: None };
        (Call { method: Method::Post, url: self.url("/sessions") }, request)
    }

    /// `GET <server>/sessions`.
    pub fn list_sessions_call(&self) -> (c: Call)
        ensures
            c.method == Method::Get,
            c.url@ == self@.server_url + "/sessions"@,
    {
        Call { method: Method::Get, url: self.url("/sessions") }
    }

    /// `GET <server>/models`.
    pub fn models_call(&self) -> (c: Call)
        ensures
            c.method == Method::Get,
            c.url@ == self@.server_url + "/models"@,
    {
        Call { method: Method::Get, url: self.url("/models") }
    }

    /// `PATCH <server>/sessions/<current id>` naming the current session.
    pub fn save_session_call(&self, display_name: &str) -> (r: Result<(Call, SaveSessionRequest), ClaiError>)
        ensures
            match self@.current_session {
                Some(id) => r matches Ok((c, body)) && c.method == Method::Patch && c.url@
                    == session_url(self@.server_url, id) && body.display_name@ == display_name@,
                None => r matches Err(e) && e@ == no_current_session(),
            },
    {
        let id = self.require_current_session()?;
        let url = self.url_of_session(id, "");
        proof {
            reveal_strlit("");
        }
        assert(url@ =~= session_url(self@.server_url, id as int));
        Ok((
            Call { method: Method::Patch, url },
            SaveSessionRequest { display_name: String::from_str(display_name) },
        ))
    }

    /// `PUT <server>/sessions/<current id>/role` setting or clearing the role.
    pub fn set_role_call(&self, role: Option<String>) -> (r: Result<(Call, SetRoleRequest), ClaiError>)
        ensures
            match self@.current_session {
                Some(id) => r matches Ok((c, body)) && c.method == Method::Put && c.url@
                    == session_url(self@.server_url, id) + "/role"@ && opt_view(body.role)
                    == opt_view(role),
                None => r matches Err(e) && e@ == no_current_session(),
            },
    {
        let id = self.require_current_session()?;
        Ok((Call { method: Method::Put, url: self.url_of_session(id, "/role") }, SetRoleRequest { role }))
    }

    /// `PUT <server>/sessions/<current id>/model` setting the model.
    pub fn set_model_call(&self, model: String) -> (r: Result<(Call, SetModelRequest), ClaiError>)
        ensures
            match self@.current_session {
                Some(id) => r matches Ok((c, body)) && c.method == Method::Put && c.url@
                    == session_url(self@.server_url, id) + "/model"@ && body.model@ == model@,
                None => r matches Err(e) && e@ == no_current_session(),
            },
    {
        let id = self.require_current_session()?;
        Ok((
            Call { method: Method::Put, url: self.url_of_session(id, "/model") },
            SetModelRequest { model },
        ))
    }

    /// `POST <server>/sessions/<current id>/chat` with the message.
    pub fn send_message_call(&self, message: &str) -> (r: Result<(Call, ChatRequest), ClaiError>)
        ensures
            match self@.current_session {
                Some(id) => r matches Ok((c, body)) && c.method == Method::Post && c.url@
                    == session_url(self@.server_url, id) + "/chat"@ && body.message@ == message@,
                None => r matches Err(e) && e@ == no_current_session(),
            },
    {
        let id = self.require_current_session()?;
        Ok((
            Call { method: Method::Post, url: self.url_of_session(id, "/chat") },
            ChatRequest { message: String::from_str(message) },
        ))
    }
}

// ---------------------------------------------------------------------------
// Replies
// ---------------------------------------------------------------------------

/// What a reply to a lookup by display name means: success lets the body be
/// read; 404 is the session error for an unknown name; anything else is a
/// server error with the status.
pub fn session_by_name_outcome(session_name: &str, status: u16, status_text: &str) -> (r: Result<
    (),
    ClaiError,
>)
    ensures
        is_success(status) ==> r is Ok,
        status == 404 ==> (r matches Err(e) && e@ == unknown_name(session_name@)),
        !is_success(status) && status != 404 ==> (r matches Err(e) && e@ == lookup_failed(
            session_name@,
            status_text@,
        )),
{
    if status_is_success(status) {
        Ok(())
    } else if status == 404 {
        let mut m = String::from_str("Session '");
        m.append(session_name);
        m.append("' not found");
        Err(ClaiError::session(m))
    } else {
        let mut m = String::from_str("Failed to get session '");
        m.append(session_name);
        m.append("': ");
        m.append(status_text);
        Err(ClaiError::server(m))
    }
}

/// What a reply to a delete by display name means: 404 is the session error
/// for an unknown name; another failure is a server error with the status.
pub fn delete_session_outcome(session_name: &str, status: u16, status_text: &str) -> (r: Result<
    (),
    ClaiError,
>)
    ensures
        status == 404 ==> (r matches Err(e) && e@ == unknown_name(session_name@)),
        status != 404 && !is_success(status) ==> (r matches Err(e) && e@ == failed(
            "Failed to delete session"@,
            status_text@,
        )),
        status != 404 && is_success(status) ==> r is Ok,
{
    if status == 404 {
        let mut m = String::from_str("Session '");
        m.append(session_name);
        m.append("' not found");
        Err(ClaiError::session(m))
    } else if !status_is_success(status) {
        expect_success("Failed to delete session", status, status_text)
    } else {
        Ok(())
    }
}

/// `Ok` for a success status; otherwise a server error saying what failed
/// (such as "Failed to save session") and the status.
pub fn expect_success(what: &str, status: u16, status_text: &str) -> (r: Result<(), ClaiError>)
    ensures
        is_success(status) ==> r is Ok,
        !is_success(status) ==> (r matches Err(e) && e@ == failed(what@, status_text@)),
{
    if status_is_success(status) {
        Ok(())
    } else {
        let mut m = String::from_str(what);
        m.append(": ");
        m.append(status_text);
        Err(ClaiError::server(m))
    }
}

// ---------------------------------------------------------------------------
// Start-up
// ---------------------------------------------------------------------------

/// What start-up asks the server for next.
pub enum InitRequest {
    /// The most recently used session (a new one is created when there is none).
    LastSession,
    /// The session with this id.
    SessionInfo(i32),
    /// A new session.
    CreateSession,
}

/// The answer to a start-up request.
pub enum InitReply {
    /// The most recently used session's id, or why there is none.
    LastSession(Result<i32, ClaiError>),
    /// The details of the session with the given id, or why they could not be read.
    SessionInfo(i32, Result<SessionResponse, ClaiError>),
    /// The id of the session just created, or why it could not be created.
    Created(Result<i32, ClaiError>),
}

/// Where start-up stands.
pub enum InitStep {
    /// Ask the server this next.
    Ask(InitRequest),
    /// Start-up is over: the session chosen and the name to show, or the failure.
    Done(Result<(i32, String), ClaiError>),
}

/// The name shown for session `id` when it has no display name.
pub open spec fn default_session_name(id: int) -> Seq<char> {
    "Session "@ + int_decimal(id)
}

/// The name shown for session `id` when it has no display name.
pub fn default_session_name_for(id: i32) -> (r: String)
    ensures
        r@ == default_session_name(id as int),
{
    let mut r = String::from_str("Session ");
    push_int(&mut r, id as i64);
    r
}

/// The spec-level value of a start-up request.
pub enum InitRequestView {
    LastSession,
    SessionInfo(int),
    CreateSession,
}

/// The spec-level meaning of a start-up step.
pub enum InitOutcome {
    Ask(InitRequestView),
    Chosen(int, Seq<char>),
    Failed(ClaiErrorView),
}

/// The spec-level value of a start-up reply.
pub enum InitReplyView {
    LastSession(Result<int, ClaiErrorView>),
    SessionInfo(int, Result<Option<Seq<char>>, ClaiErrorView>),
    Created(Result<int, ClaiErrorView>),
}

impl View for InitReply {
    type V = InitReplyView;

    open spec fn view(&self) -> InitReplyView {
        match self {
            InitReply::LastSession(Ok(id)) => InitReplyView::LastSession(Ok(*id as int)),
            InitReply::LastSession(Err(e)) => InitReplyView::LastSession(Err(e@)),
            InitReply::SessionInfo(id, Ok(s)) => InitReplyView::SessionInfo(
                *id as int,
                Ok(opt_view(s.display_name)),
            ),
            InitReply::SessionInfo(id, Err(e)) => InitReplyView::SessionInfo(*id as int, Err(e@)),
            InitReply::Created(Ok(id)) => InitReplyView::Created(Ok(*id as int)),
            InitReply::Created(Err(e)) => InitReplyView::Created(Err(e@)),
        }
    }
}

/// The spec-level meaning of an `InitStep`.
pub open spec fn init_outcome(s: InitStep) -> InitOutcome {
    match s {
        InitStep::Ask(InitRequest::LastSession) => InitOutcome::Ask(InitRequestView::LastSession),
        InitStep::Ask(InitRequest::SessionInfo(id)) => InitOutcome::Ask(
            InitRequestView::SessionInfo(id as int),
        ),
        InitStep::Ask(InitRequest::CreateSession) => InitOutcome::Ask(
            InitRequestView::CreateSession,
        ),
        InitStep::Done(Ok((id, name))) => InitOutcome::Chosen(id as int, name@),
        InitStep::Done(Err(e)) => InitOutcome::Failed(e@),
    }
}

/// Start-up: the last session is taken with its display name when its details
/// can be read and it has one, and under its default name otherwise; when
/// there is no last session a new one is created and shown under its default
/// name. The chosen session becomes current.
pub open spec fn init_transition(m: ManagerView, reply: InitReplyView) -> (ManagerView, InitOutcome) {
    match reply {
        InitReplyView::LastSession(Ok(id)) => (m, InitOutcome::Ask(InitRequestView::SessionInfo(id))),
        InitReplyView::LastSession(Err(_)) => (m, InitOutcome::Ask(InitRequestView::CreateSession)),
        InitReplyView::SessionInfo(id, info) => (
            ManagerView { current_session: Some(id), ..m },
            InitOutcome::Chosen(
                id,
                match info {
                    Ok(Some(n)) => n,
                    _ => default_session_name(id),
                },
            ),
        ),
        InitReplyView::Created(Ok(id)) => (
            ManagerView { current_session: Some(id), ..m },
            InitOutcome::Chosen(id, default_session_name(id)),
        ),
        InitReplyView::Created(Err(e)) => (m, InitOutcome::Failed(e)),
    }
}

impl SessionManager {
    /// The first start-up request: the most recently used session.
    pub fn init_start(&self) -> (r: InitRequest)
        ensures
            r is LastSession,
    {
        InitRequest::LastSession
    }

    /// Advances start-up with a reply (see `init_transition`).
    pub fn init_step(&mut self, reply: InitReply) -> (r: InitStep)
        ensures
            (final(self)@, init_outcome(r)) == init_transition(old(self)@, reply@),
    {
        match reply {
            InitReply::LastSession(Ok(id)) => InitStep::Ask(InitRequest::SessionInfo(id)),
            InitReply::LastSession(Err(_)) => InitStep::Ask(InitRequest::CreateSession),
            InitReply::SessionInfo(id, info) => {
                let name = match info {
                    Ok(s) => match s.display_name {
                        Some(n) => n,
                        None => default_session_name_for(id),
                    },
                    Err(_) => default_session_name_for(id),
                };
                self.set_current_session(id);
                InitStep::Done(Ok((id, name)))
            },
            InitReply::Created(Ok(id)) => {
                self.set_current_session(id);
                InitStep::Done(Ok((id, default_session_name_for(id))))
            },
            InitReply::Created(Err(e)) => InitStep::Done(Err(e)),
        }
    }
}

// ---------------------------------------------------------------------------
// Bringing the server up
// ---------------------------------------------------------------------------

/// How many health checks the client makes after starting the server itself.
pub const SERVER_START_CHECKS: u32 = 50;

/// What the client does after a health check.
pub enum StartupAction {
    /// The server answers: go on.
    Ready,
    /// Nothing answers yet: start the server in this process, then check again.
    SpawnServer,
    /// The started server does not answer yet: wait a moment and check again.
    WaitAndRecheck,
    /// The started server never answered.
    Fail(ClaiError),
}

/// The error when the started server never answered.
pub open spec fn server_failed_to_start() -> ClaiErrorView {
    ClaiErrorView::Server("Server failed to start"@)
}

/// What follows a health check. `checks_after_spawn` is `None` for the check
/// made before starting anything, and otherwise counts the checks made since
/// the server was started, this one included.
pub fn startup_step(checks_after_spawn: Option<u32>, healthy: bool) -> (r: StartupAction)
    ensures
        healthy ==> r is Ready,
        !healthy ==> match checks_after_spawn {
            None => r is SpawnServer,
            Some(n) => if n < SERVER_START_CHECKS {
                r is WaitAndRecheck
            } else {
                r matches StartupAction::Fail(e) && e@ == server_failed_to_start()
            },
        },
{
    if healthy {
        return StartupAction::Ready;
    }
    match checks_after_spawn {
        None => StartupAction::SpawnServer,
        Some(n) => if n < SERVER_START_CHECKS {
            StartupAction::WaitAndRecheck
        } else {
            StartupAction::Fail(ClaiError::server(String::from_str("Server failed to start")))
        },
    }
}

} // verus!
