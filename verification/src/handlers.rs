//! What the server does for each request, on the session store: the
//! session endpoints, the health check and the two halves of a chat turn
//! (building the model request, then recording the exchange).

use vstd::prelude::*;
use vstd::string::*;
use crate::config::{string_views, CLAUDE_MAX_TOKENS};
use crate::db::{
    ClaiDb, DbView, MessageView, Session, SessionView, opt_view, session_views, message_views,
};
use crate::db_laws::{law_last_session_is_most_recent, law_latest_message_is_appended, law_lookup_by_name};
use crate::error::{ClaiError, ClaiErrorView, STATUS_OK};
use crate::types::{
    ChatResponse, ClaudeModel, CreateSessionRequest, SaveSessionRequest, SessionResponse, SessionResponseView,
    SetModelRequest, SetRoleRequest,
};

verus! {

/// How a stored session is reported.
pub open spec fn response_of(s: SessionView) -> SessionResponseView {
    SessionResponseView {
        id: s.id,
        name: s.name,
        display_name: s.display_name,
        role: s.role,
        model: s.model,
    }
}

/// How a session result is reported.
pub open spec fn reported(r: Result<SessionView, ClaiErrorView>) -> Result<SessionResponseView, ClaiErrorView> {
    match r {
        Ok(s) => Ok(response_of(s)),
        Err(e) => Err(e),
    }
}

/// The view of a handler's session result.
pub open spec fn response_result(r: Result<SessionResponse, ClaiError>) -> Result<SessionResponseView, ClaiErrorView> {
    match r {
        Ok(s) => Ok(s@),
        Err(e) => Err(e@),
    }
}

/// The report of a stored session.
pub fn session_response(s: Session) -> (r: SessionResponse)
    ensures
        r@ == response_of(s@),
{
    SessionResponse {
        id: s.id,
        name: s.name,
        display_name: s.display_name,
        role: s.role,
        model: s.model,
    }
}

fn report(r: Result<Session, ClaiError>) -> (out: Result<SessionResponse, ClaiError>)
    ensures
        response_result(out) == reported(crate::db::session_result(r)),
{
    match r {
        Ok(s) => Ok(session_response(s)),
        Err(e) => Err(e),
    }
}

fn as_str_opt(o: &Option<String>) -> (r: Option<&str>)
    ensures
        crate::db::opt_str_view(r) == opt_view(*o),
{
    match o {
        Some(s) => Some(s.as_str()),
        None => None,
    }
}

/// The health check always answers 200.
pub fn health() -> (code: u16)
    ensures
        code == STATUS_OK,
{
    STATUS_OK
}

/// Creates a session with the requested name and display name, created at
/// time `now`.
pub fn create_session(db: &mut ClaiDb, payload: CreateSessionRequest, now: i64) -> (r: Result<
    SessionResponse,
    ClaiError,
>)
    ensures
        final(db)@.wf(),
        final(db)@ == old(db)@.create_session(
            payload.name@,
            opt_view(payload.display_name),
            now as int,
        ).0,
        response_result(r) == reported(
            old(db)@.create_session(payload.name@, opt_view(payload.display_name), now as int).1,
        ),
{
    proof {
        use_type_invariant(&*db);
    }
    let display = as_str_opt(&payload.display_name);
    let created = db.create_session(payload.name.as_str(), display, now);
    report(created)
}

/// The most recently used session, whose last-access time is then set to `now`.
pub fn get_last_session(db: &mut ClaiDb, now: i64) -> (r: Result<SessionResponse, ClaiError>)
    ensures
        final(db)@.wf(),
        match old(db)@.get_last_session() {
            Ok(s) => response_result(r) == Ok::<SessionResponseView, ClaiErrorView>(response_of(s))
                && final(db)@ == old(db)@.update_timestamp(s.id, now as int).0,
            Err(e) => response_result(r) == Err::<SessionResponseView, ClaiErrorView>(e) && final(db)@ == old(db)@,
        },
{
    proof {
        use_type_invariant(&*db);
    }
    proof {
        law_last_session_is_most_recent(db@);
    }
    let session = match db.get_last_session() {
        Ok(s) => s,
        Err(e) => return Err(e),
    };
    let _ = db.update_session_timestamp(session.id, now);
    Ok(session_response(session))
}

/// The session with display name `name`, whose last-access time is then set to `now`.
pub fn get_session_by_name(db: &mut ClaiDb, name: &str, now: i64) -> (r: Result<
    SessionResponse,
    ClaiError,
>)
    ensures
        final(db)@.wf(),
        match old(db)@.get_session_by_name(name@) {
            Ok(s) => response_result(r) == Ok::<SessionResponseView, ClaiErrorView>(response_of(s))
                && final(db)@ == old(db)@.update_timestamp(s.id, now as int).0,
            Err(e) => response_result(r) == Err::<SessionResponseView, ClaiErrorView>(e) && final(db)@ == old(db)@,
        },
{
    proof {
        use_type_invariant(&*db);
    }
    proof {
        law_lookup_by_name(db@, name@);
    }
    let session = match db.get_session_by_name(name) {
        Ok(s) => s,
        Err(e) => return Err(e),
    };
    let _ = db.update_session_timestamp(session.id, now);
    Ok(session_response(session))
}

/// The reports of the sessions that have a display name, newest first.
pub fn list_sessions(db: &ClaiDb) -> (r: Vec<SessionResponse>)
    ensures
        r@.map_values(|x: SessionResponse| x@) == db@.list_named_sessions().map_values(
            |s: SessionView| response_of(s),
        ),
{
    proof {
        use_type_invariant(db);
    }
    let sessions = db.list_named_sessions();
    let mut r: Vec<SessionResponse> = Vec::new();
    let mut i: usize = 0;
    while i < sessions.len()
        invariant
            i <= sessions@.len(),
            session_views(sessions@) == db@.list_named_sessions(),
            r@.map_values(|x: SessionResponse| x@) == session_views(sessions@).take(
                i as int,
            ).map_values(|s: SessionView| response_of(s)),
        decreases sessions@.len() - i,
    {
        let ghost before = r@.map_values(|x: SessionResponse| x@);
        let one = session_response(sessions[i].duplicate());
        let ghost ov = one@;
        r.push(one);
        proof {
            let sv = session_views(sessions@);
            assert(sv[i as int] == sessions@[i as int]@);
            assert(r@.map_values(|x: SessionResponse| x@) =~= before.push(ov));
            assert(sv.take(i + 1) =~= sv.take(i as int).push(sv[i as int]));
            assert(sv.take(i + 1).map_values(|s: SessionView| response_of(s)) =~= sv.take(
                i as int,
            ).map_values(|s: SessionView| response_of(s)).push(response_of(sv[i as int])));
        }
        i = i + 1;
    }
    assert(session_views(sessions@).take(sessions@.len() as int) =~= session_views(sessions@));
    r
}

/// The session with id `session_id`.
pub fn get_session_by_id(db: &ClaiDb, session_id: i32) -> (r: Result<SessionResponse, ClaiError>)
    ensures
        response_result(r) == reported(db@.get_session_by_id(session_id as int)),
{
    proof {
        use_type_invariant(db);
    }
    report(db.get_session_by_id(session_id))
}

/// Gives session `session_id` the requested display name.
pub fn save_session(db: &mut ClaiDb, session_id: i32, payload: SaveSessionRequest) -> (r: Result<
    SessionResponse,
    ClaiError,
>)
    ensures
        final(db)@.wf(),
        final(db)@ == old(db)@.update_display_name(session_id as int, payload.display_name@).0,
        response_result(r) == reported(
            old(db)@.update_display_name(session_id as int, payload.display_name@).1,
        ),
{
    proof {
        use_type_invariant(&*db);
    }
    report(db.update_session_display_name(session_id, payload.display_name.as_str()))
}

/// Sets or clears the role of session `session_id`.
pub fn set_role(db: &mut ClaiDb, session_id: i32, payload: SetRoleRequest) -> (r: Result<
    SessionResponse,
    ClaiError,
>)
    ensures
        final(db)@.wf(),
        final(db)@ == old(db)@.update_role(session_id as int, opt_view(payload.role)).0,
        response_result(r) == reported(
            old(db)@.update_role(session_id as int, opt_view(payload.role)).1,
        ),
{
    proof {
        use_type_invariant(&*db);
    }
    let role = as_str_opt(&payload.role);
    report(db.update_session_role(session_id, role))
}

/// Sets the model of session `session_id`.
pub fn set_model(db: &mut ClaiDb, session_id: i32, payload: SetModelRequest) -> (r: Result<
    SessionResponse,
    ClaiError,
>)
    ensures
        final(db)@.wf(),
        final(db)@ == old(db)@.update_model(session_id as int, payload.model@).0,
        response_result(r) == reported(old(db)@.update_model(session_id as int, payload.model@).1),
{
    proof {
        use_type_invariant(&*db);
    }
    report(db.update_session_model(session_id, payload.model.as_str()))
}

/// Deletes the session with display name `name` and its messages.
pub fn delete_session(db: &mut ClaiDb, name: &str) -> (r: Result<(), ClaiError>)
    ensures
        final(db)@.wf(),
        (final(db)@, crate::db::unit_result(r)) == old(db)@.delete_session_by_name(name@),
{
    proof {
        use_type_invariant(&*db);
    }
    db.delete_session_by_name(name)
}

// ---------------------------------------------------------------------------
// Chat
// ---------------------------------------------------------------------------

/// One turn of the conversation as the model API receives it.
pub struct ClaudeMessage {
    pub role: String,
    pub content: String,
}

/// A request to the model API.
pub struct ClaudeRequest {
    pub model: String,
    pub max_tokens: i32,
    pub messages: Vec<ClaudeMessage>,
    pub system: Option<String>,
}

/// The spec-level value of a `ClaudeMessage`: role and content.
pub open spec fn turn_view(m: ClaudeMessage) -> (Seq<char>, Seq<char>) {
    (m.role@, m.content@)
}

/// The turns a stored history gives, in order.
pub open spec fn history_turns(ms: Seq<MessageView>) -> Seq<(Seq<char>, Seq<char>)> {
    ms.map_values(|m: MessageView| (m.role, m.content))
}

/// The system prompt for a session with role `role`.
pub open spec fn system_prompt_for(role: Seq<char>) -> Seq<char> {
    "You are a "@ + role
        + ". Please respond in character and provide expertise relevant to this role."@
}

/// The system prompt a session's role gives, if it has one.
pub open spec fn system_for(role: Option<Seq<char>>) -> Option<Seq<char>> {
    match role {
        Some(r) => Some(system_prompt_for(r)),
        None => None,
    }
}

/// The system prompt for a session with role `role`.
pub fn system_prompt(role: &str) -> (r: String)
    ensures
        r@ == system_prompt_for(role@),
{
    let mut r = String::from_str("You are a ");
    r.append(role);
    r.append(". Please respond in character and provide expertise relevant to this role.");
    r
}

/// The model a session's chat turns go to: the one chosen for the session,
/// else the configured default, if any.
pub open spec fn chat_model(model: Option<Seq<char>>, default_model: Option<Seq<char>>) -> Option<
    Seq<char>,
> {
    match model {
        Some(m) => Some(m),
        None => default_model,
    }
}

/// The error for a chat turn that has no model to go to.
pub open spec fn no_model_error() -> ClaiErrorView {
    ClaiErrorView::Config(
        "No model chosen for this session, none configured and none listed by the model API"@,
    )
}

/// The model the server uses for sessions without one of their own: the
/// configured default, else the first model the model API lists (the API
/// lists its newest model first), if it lists any.
pub open spec fn server_default_model(configured: Option<Seq<char>>, listed: Seq<Seq<char>>) -> Option<
    Seq<char>,
> {
    match configured {
        Some(m) => Some(m),
        None => if listed.len() > 0 {
            Some(listed[0])
        } else {
            None
        },
    }
}

/// The ids of the listed models, in order.
pub open spec fn model_ids(listed: Seq<ClaudeModel>) -> Seq<Seq<char>> {
    listed.map_values(|m: ClaudeModel| m.id@)
}

/// The model the server uses for sessions without one of their own (see
/// `server_default_model`); `listed` is the model API's list.
pub fn default_chat_model(configured: Option<&str>, listed: &Vec<ClaudeModel>) -> (r: Option<String>)
    ensures
        opt_view(r) == server_default_model(crate::db::opt_str_view(configured), model_ids(listed@)),
{
    match configured {
        Some(m) => Some(String::from_str(m)),
        None => if listed.len() > 0 {
            Some(listed[0].id.clone())
        } else {
            None
        },
    }
}

/// The model request for a chat turn in session `session_id`: the session's
/// stored history, oldest first, followed by the new user message, to the
/// session's model (else `default_model`) under the token limit, with the
/// session's role as system prompt.
/// Fails as the id lookup fails when the session is not stored, and with the
/// configuration error `no_model_error` when there is no model to use.
pub fn prepare_chat(db: &ClaiDb, session_id: i32, message: &str, default_model: Option<&str>) -> (r:
    Result<ClaudeRequest, ClaiError>)
    ensures
        match db@.get_session_by_id(session_id as int) {
            Err(e) => r matches Err(re) && re@ == e,
            Ok(s) => match chat_model(s.model, crate::db::opt_str_view(default_model)) {
                None => r matches Err(re) && re@ == no_model_error(),
                Some(model) => r matches Ok(req) && {
                    &&& req.model@ == model
                    &&& req.max_tokens == CLAUDE_MAX_TOKENS
                    &&& req.messages@.map_values(|m: ClaudeMessage| turn_view(m)) == history_turns(
                        db@.session_messages(session_id as int),
                    ).push(("user"@, message@))
                    &&& opt_view(req.system) == system_for(s.role)
                },
            },
        },
{
    proof {
        use_type_invariant(db);
    }
    let session = match db.get_session_by_id(session_id) {
        Ok(s) => s,
        Err(e) => return Err(e),
    };
    let model = match &session.model {
        Some(m) => m.clone(),
        None => match default_model {
            Some(d) => String::from_str(d),
            None => {
                return Err(
                    ClaiError::config(
                        String::from_str(
                            "No model chosen for this session, none configured and none listed by the model API",
                        ),
                    ),
                );
            },
        },
    };
    let stored = db.get_session_messages(session_id);
    let mut messages: Vec<ClaudeMessage> = Vec::new();
    let mut i: usize = 0;
    while i < stored.len()
        invariant
            i <= stored@.len(),
            message_views(stored@) == db@.session_messages(session_id as int),
            messages@.map_values(|m: ClaudeMessage| turn_view(m)) == history_turns(
                message_views(stored@).take(i as int),
            ),
        decreases stored@.len() - i,
    {
        let ghost before = messages@.map_values(|m: ClaudeMessage| turn_view(m));
        let one = ClaudeMessage { role: stored[i].role.clone(), content: stored[i].content.clone() };
        let ghost ov = turn_view(one);
        messages.push(one);
        proof {
            let mv = message_views(stored@);
            assert(mv[i as int] == stored@[i as int]@);
            assert(messages@.map_values(|m: ClaudeMessage| turn_view(m)) =~= before.push(ov));
            assert(mv.take(i + 1) =~= mv.take(i as int).push(mv[i as int]));
            assert(history_turns(mv.take(i + 1)) =~= history_turns(mv.take(i as int)).push(
                (mv[i as int].role, mv[i as int].content),
            ));
        }
        i = i + 1;
    }
    let ghost before = messages@.map_values(|m: ClaudeMessage| turn_view(m));
    let user = ClaudeMessage { role: String::from_str("user"), content: String::from_str(message) };
    let ghost uv = turn_view(user);
    messages.push(user);
    proof {
        assert(message_views(stored@).take(stored@.len() as int) =~= message_views(stored@));
        assert(messages@.map_values(|m: ClaudeMessage| turn_view(m)) =~= before.push(uv));
    }
    let system = match &session.role {
        Some(role) => Some(system_prompt(role.as_str())),
        None => None,
    };
    Ok(ClaudeRequest { model, max_tokens: CLAUDE_MAX_TOKENS, messages, system })
}

/// The texts of a model reply joined into one.
pub open spec fn joined(parts: Seq<Seq<char>>) -> Seq<char>
    decreases parts.len(),
{
    if parts.len() == 0 {
        Seq::<char>::empty()
    } else {
        joined(parts.drop_last()) + parts.last()
    }
}

/// The texts of a model reply joined into one.
pub fn join_texts(parts: &Vec<String>) -> (r: String)
    ensures
        r@ == joined(string_views(parts@)),
{
    let ghost pv = string_views(parts@);
    let mut r = String::new();
    let mut i: usize = 0;
    assert(pv.take(0) =~= Seq::<Seq<char>>::empty());
    while i < parts.len()
        invariant
            i <= parts@.len(),
            pv == string_views(parts@),
            r@ == joined(pv.take(i as int)),
        decreases parts@.len() - i,
    {
        r.append(parts[i].as_str());
        proof {
            assert(pv.take(i + 1).drop_last() =~= pv.take(i as int));
            assert(pv.take(i + 1).last() == parts@[i as int]@);
        }
        i = i + 1;
    }
    assert(pv.take(parts@.len() as int) =~= pv);
    r
}

/// Recording a chat turn at time `now`: the user message, then the reply;
/// the first failure stops it.
pub open spec fn record_exchange(
    db: DbView,
    session_id: int,
    message: Seq<char>,
    reply: Seq<char>,
    now: int,
) -> (DbView, Result<Seq<char>, ClaiErrorView>) {
    let (d1, r1) = db.create_message(session_id, "user"@, message, now);
    match r1 {
        Err(e) => (d1, Err(e)),
        Ok(_) => {
            let (d2, r2) = d1.create_message(session_id, "assistant"@, reply, now);
            match r2 {
                Err(e) => (d2, Err(e)),
                Ok(_) => (d2, Ok(reply)),
            }
        },
    }
}

/// The view of a chat reply result.
pub open spec fn chat_result(r: Result<ChatResponse, ClaiError>) -> Result<Seq<char>, ClaiErrorView> {
    match r {
        Ok(c) => Ok(c.response@),
        Err(e) => Err(e@),
    }
}

/// Records a finished chat turn in session `session_id` at time `now`:
/// stores the user message, then the reply made of the model's texts joined
/// together, and returns that reply.
pub fn finish_chat(
    db: &mut ClaiDb,
    session_id: i32,
    message: &str,
    reply_parts: &Vec<String>,
    now: i64,
) -> (r: Result<ChatResponse, ClaiError>)
    ensures
        final(db)@.wf(),
        (final(db)@, chat_result(r)) == record_exchange(
            old(db)@,
            session_id as int,
            message@,
            joined(string_views(reply_parts@)),
            now as int,
        ),
{
    proof {
        use_type_invariant(&*db);
    }
    let text = join_texts(reply_parts);
    let first = db.create_message(session_id, "user", message, now);
    if let Err(e) = first {
        return Err(e);
    }
    let second = db.create_message(session_id, "assistant", text.as_str(), now);
    if let Err(e) = second {
        return Err(e);
    }
    Ok(ChatResponse { response: text })
}

/// A recorded chat turn continues the conversation: when it is stamped no
/// earlier than the session's earlier messages, the history the next turn
/// sends is the old one followed by the user message and then the reply.
pub proof fn law_chat_turn_extends_history(
    db: DbView,
    session_id: int,
    message: Seq<char>,
    reply: Seq<char>,
    now: int,
)
    requires
        record_exchange(db, session_id, message, reply, now).1 is Ok,
        forall|i: int|
            0 <= i < db.session_messages(session_id).len() ==> #[trigger] db.session_messages(
                session_id,
            )[i].created_at <= now,
    ensures
        history_turns(record_exchange(db, session_id, message, reply, now).0.session_messages(
            session_id,
        )) == history_turns(db.session_messages(session_id)).push(("user"@, message)).push(
            ("assistant"@, reply),
        ),
{
    let (d1, r1) = db.create_message(session_id, "user"@, message, now);
    law_latest_message_is_appended(db, session_id, "user"@, message, now);
    let m1 = r1->Ok_0;
    let h1 = d1.session_messages(session_id);
    assert(h1 == db.session_messages(session_id).push(m1));
    assert forall|i: int| 0 <= i < h1.len() implies #[trigger] h1[i].created_at <= now by {
        if i < db.session_messages(session_id).len() {
            assert(h1[i] == db.session_messages(session_id)[i]);
        }
    }
    let (d2, r2) = d1.create_message(session_id, "assistant"@, reply, now);
    law_latest_message_is_appended(d1, session_id, "assistant"@, reply, now);
    let m2 = r2->Ok_0;
    assert(d2.session_messages(session_id) == h1.push(m2));
    assert(history_turns(h1.push(m2)) =~= history_turns(db.session_messages(session_id)).push(
        ("user"@, message),
    ).push(("assistant"@, reply)));
}

} // verus!
