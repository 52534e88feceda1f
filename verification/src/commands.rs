//! The slash-command interpreter. A command is parsed, then carried out as
//! a conversation with the session bookkeeping: the interpreter names the
//! next request, the caller performs it and hands back the reply, and the
//! interpreter writes what the user sees.

use vstd::prelude::*;
use vstd::string::*;
use crate::error::{ClaiError, ClaiErrorView, error_text};
use crate::terminal::{
    ActionView, TermOutput, TextStyle, error_lines, help_lines, line, session_info_lines, spaced,
    write_command_help, write_error, write_session_info, write_spaced_line,
};
use crate::text::{has_prefix, int_decimal, nat_decimal, push_decimal, push_int, str_eq,
    starts_with, strip_prefix_repeated, trim, trim_start_matches, trim_ws, chars_of};
use crate::types::{ClaudeModel, SessionResponse, SessionResponseView};

verus! {

// ---------------------------------------------------------------------------
// Parsing
// ---------------------------------------------------------------------------

/// `m` is the command `c` alone or `c` followed by a space and more.
pub open spec fn names_command(m: Seq<char>, c: Seq<char>, c_space: Seq<char>) -> bool {
    m == c || has_prefix(m, c_space)
}

/// `m` names one of the slash commands.
pub open spec fn command_valid(m: Seq<char>) -> bool {
    names_command(m, "/clear"@, "/clear "@) || names_command(m, "/new"@, "/new "@) || names_command(
        m,
        "/save"@,
        "/save "@,
    ) || names_command(m, "/delete"@, "/delete "@) || names_command(m, "/list"@, "/list "@)
        || names_command(m, "/resume"@, "/resume "@) || names_command(m, "/role"@, "/role "@)
        || names_command(m, "/model"@, "/model "@)
}

/// The kinds of command the interpreter carries out.
#[derive(PartialEq, Eq, Clone, Copy)]
pub enum CommandKind {
    Clear,
    New,
    Save,
    Delete,
    List,
    Resume,
    Role,
    Model,
}

/// Which command a valid message is taken as, tried in this order.
pub open spec fn dispatch(m: Seq<char>) -> Option<CommandKind> {
    if m == "/clear"@ {
        Some(CommandKind::Clear)
    } else if has_prefix(m, "/new"@) {
        Some(CommandKind::New)
    } else if has_prefix(m, "/save "@) {
        Some(CommandKind::Save)
    } else if has_prefix(m, "/delete "@) {
        Some(CommandKind::Delete)
    } else if m == "/list"@ {
        Some(CommandKind::List)
    } else if has_prefix(m, "/resume "@) {
        Some(CommandKind::Resume)
    } else if has_prefix(m, "/role"@) {
        Some(CommandKind::Role)
    } else if has_prefix(m, "/model"@) {
        Some(CommandKind::Model)
    } else {
        None
    }
}

/// The argument after the command word: every leading repetition of the
/// command and a space removed, then surrounding whitespace.
pub open spec fn argument(m: Seq<char>, prefix: Seq<char>) -> Seq<char> {
    trim_ws(strip_prefix_repeated(m, prefix))
}

/// An ASCII decimal digit.
pub open spec fn is_digit(c: char) -> bool {
    48 <= c as u32 && c as u32 <= 57
}

/// The value of a string of decimal digits.
pub open spec fn digits_value(s: Seq<char>) -> nat
    decreases s.len(),
{
    if s.len() == 0 {
        0
    } else {
        digits_value(s.drop_last()) * 10 + ((s.last() as u32 - 48) as nat)
    }
}

/// A model number: one or more decimal digits whose value fits in 64 bits.
pub open spec fn model_number(s: Seq<char>) -> Option<nat> {
    if s.len() > 0 && (forall|i: int| 0 <= i < s.len() ==> is_digit(#[trigger] s[i]))
        && digits_value(s) <= u64::MAX {
        Some(digits_value(s))
    } else {
        None
    }
}

fn parse_model_number(s: &str) -> (r: Option<u64>)
    ensures
        match model_number(s@) {
            Some(n) => r == Some(n as u64),
            None => r is None,
        },
{
    let v = chars_of(s);
    if v.len() == 0 {
        return None;
    }
    let mut value: u64 = 0;
    let mut i: usize = 0;
    while i < v.len()
        invariant
            v@ == s@,
            i <= v@.len(),
            forall|k: int| 0 <= k < i ==> is_digit(#[trigger] v@[k]),
            value as nat == digits_value(v@.take(i as int)),
        decreases v@.len() - i,
    {
        let c = v[i];
        let u = c as u32;
        if !(48 <= u && u <= 57) {
            assert(!is_digit(s@[i as int]));
            return None;
        }
        let d = (u - 48) as u64;
        assert(v@.take(i + 1).drop_last() =~= v@.take(i as int));
        assert(v@.take(i + 1).last() == c);
        if value > (u64::MAX - d) / 10 {
            proof {
                assert(digits_value(v@.take(i + 1)) == value * 10 + d) by {
                    assert(v@.take(i + 1).last() == c);
                }
                assert(value * 10 + d > u64::MAX) by (nonlinear_arith)
                    requires
                        value > (u64::MAX - d) / 10,
                        d <= 9,
                ;
                // Once the value is too large, taking more digits only adds.
                lemma_prefix_value_bound(v@, i as int + 1);
            }
            return None;
        }
        assert(value * 10 + d <= u64::MAX) by (nonlinear_arith)
            requires
                value <= (u64::MAX - d) / 10,
                d <= 9,
        ;
        value = value * 10 + d;
        i = i + 1;
    }
    assert(v@.take(v@.len() as int) =~= v@);
    Some(value)
}

/// A longer run of digits is worth at least as much as its prefix; if the
/// prefix already exceeds 64 bits, the whole is no model number.
proof fn lemma_prefix_value_bound(s: Seq<char>, k: int)
    requires
        0 < k <= s.len(),
        forall|i: int| 0 <= i < k ==> is_digit(#[trigger] s[i]),
        digits_value(s.take(k)) > u64::MAX,
    ensures
        model_number(s) is None,
    decreases s.len() - k,
{
    if k < s.len() {
        if is_digit(s[k]) {
            assert(s.take(k + 1).drop_last() =~= s.take(k));
            assert(digits_value(s.take(k + 1)) >= digits_value(s.take(k))) by (nonlinear_arith)
                requires
                    digits_value(s.take(k + 1)) == digits_value(s.take(k)) * 10 + ((s.take(k + 1).last() as u32 - 48) as nat),
            ;
            lemma_prefix_value_bound(s, k + 1);
        }
    } else {
        assert(s.take(k) =~= s);
    }
}

// ---------------------------------------------------------------------------
// Requests, replies and the interpreter's state
// ---------------------------------------------------------------------------

/// What the interpreter asks the caller to do.
pub enum CommandRequest {
    ClearScreen,
    CreateSession,
    SaveSession(String),
    DeleteSession(String),
    FindSession(String),
    SetCurrentSession(i32),
    ListSessions,
    SessionInfo,
    SetRole(String),
    AvailableModels,
    SetModel(String),
}

/// The spec-level value of a request.
pub enum RequestView {
    ClearScreen,
    CreateSession,
    SaveSession(Seq<char>),
    DeleteSession(Seq<char>),
    FindSession(Seq<char>),
    SetCurrentSession(int),
    ListSessions,
    SessionInfo,
    SetRole(Seq<char>),
    AvailableModels,
    SetModel(Seq<char>),
}

impl View for CommandRequest {
    type V = RequestView;

    open spec fn view(&self) -> RequestView {
        match self {
            CommandRequest::ClearScreen => RequestView::ClearScreen,
            CommandRequest::CreateSession => RequestView::CreateSession,
            CommandRequest::SaveSession(s) => RequestView::SaveSession(s@),
            CommandRequest::DeleteSession(s) => RequestView::DeleteSession(s@),
            CommandRequest::FindSession(s) => RequestView::FindSession(s@),
            CommandRequest::SetCurrentSession(id) => RequestView::SetCurrentSession(*id as int),
            CommandRequest::ListSessions => RequestView::ListSessions,
            CommandRequest::SessionInfo => RequestView::SessionInfo,
            CommandRequest::SetRole(s) => RequestView::SetRole(s@),
            CommandRequest::AvailableModels => RequestView::AvailableModels,
            CommandRequest::SetModel(s) => RequestView::SetModel(s@),
        }
    }
}

/// The view of an optional request.
pub open spec fn request_view(r: Option<CommandRequest>) -> Option<RequestView> {
    match r {
        Some(q) => Some(q@),
        None => None,
    }
}

/// The caller's answer to a request.
pub enum CommandReply {
    Cleared(Result<(), ClaiError>),
    Created(Result<i32, ClaiError>),
    Saved(Result<(), ClaiError>),
    Deleted(Result<(), ClaiError>),
    Found(Result<i32, ClaiError>),
    CurrentSet,
    Listed(Result<Vec<SessionResponse>, ClaiError>),
    Info(Result<SessionResponse, ClaiError>),
    RoleSet(Result<(), ClaiError>),
    Models(Result<Vec<ClaudeModel>, ClaiError>),
    ModelSet(Result<(), ClaiError>),
}

/// The spec-level value of a model: id and display name.
pub open spec fn model_view(m: ClaudeModel) -> (Seq<char>, Seq<char>) {
    (m.id@, m.display_name@)
}

/// The spec-level value of a reply.
pub enum ReplyView {
    Cleared(Result<(), ClaiErrorView>),
    Created(Result<int, ClaiErrorView>),
    Saved(Result<(), ClaiErrorView>),
    Deleted(Result<(), ClaiErrorView>),
    Found(Result<int, ClaiErrorView>),
    CurrentSet,
    Listed(Result<Seq<SessionResponseView>, ClaiErrorView>),
    Info(Result<SessionResponseView, ClaiErrorView>),
    RoleSet(Result<(), ClaiErrorView>),
    Models(Result<Seq<(Seq<char>, Seq<char>)>, ClaiErrorView>),
    ModelSet(Result<(), ClaiErrorView>),
}

/// The view of a result that carries no value.
pub open spec fn done_view(r: Result<(), ClaiError>) -> Result<(), ClaiErrorView> {
    match r {
        Ok(()) => Ok(()),
        Err(e) => Err(e@),
    }
}

/// The view of an id result.
pub open spec fn id_view(r: Result<i32, ClaiError>) -> Result<int, ClaiErrorView> {
    match r {
        Ok(id) => Ok(id as int),
        Err(e) => Err(e@),
    }
}

impl View for CommandReply {
    type V = ReplyView;

    open spec fn view(&self) -> ReplyView {
        match self {
            CommandReply::Cleared(r) => ReplyView::Cleared(done_view(*r)),
            CommandReply::Created(r) => ReplyView::Created(id_view(*r)),
            CommandReply::Saved(r) => ReplyView::Saved(done_view(*r)),
            CommandReply::Deleted(r) => ReplyView::Deleted(done_view(*r)),
            CommandReply::Found(r) => ReplyView::Found(id_view(*r)),
            CommandReply::CurrentSet => ReplyView::CurrentSet,
            CommandReply::Listed(Ok(v)) => ReplyView::Listed(
                Ok(v@.map_values(|s: SessionResponse| s@)),
            ),
            CommandReply::Listed(Err(e)) => ReplyView::Listed(Err(e@)),
            CommandReply::Info(Ok(s)) => ReplyView::Info(Ok(s@)),
            CommandReply::Info(Err(e)) => ReplyView::Info(Err(e@)),
            CommandReply::RoleSet(r) => ReplyView::RoleSet(done_view(*r)),
            CommandReply::Models(Ok(v)) => ReplyView::Models(
                Ok(v@.map_values(|m: ClaudeModel| model_view(m))),
            ),
            CommandReply::Models(Err(e)) => ReplyView::Models(Err(e@)),
            CommandReply::ModelSet(r) => ReplyView::ModelSet(done_view(*r)),
        }
    }
}

/// What the interpreter is waiting for.
pub enum Pending {
    Clearing,
    CreatingUnnamed,
    CreatingNamed(String),
    SavingNew(String, i32),
    Saving(String),
    Deleting(String),
    Resuming(String),
    Switching,
    Listing,
    ShowingRole,
    SettingRole(String),
    ShowingModel,
    ListingModels,
    PickingModel(u64),
    SettingModel(String),
}

/// The spec-level value of what the interpreter is waiting for.
pub enum PendingView {
    Clearing,
    CreatingUnnamed,
    CreatingNamed(Seq<char>),
    SavingNew(Seq<char>, int),
    Saving(Seq<char>),
    Deleting(Seq<char>),
    Resuming(Seq<char>),
    Switching,
    Listing,
    ShowingRole,
    SettingRole(Seq<char>),
    ShowingModel,
    ListingModels,
    PickingModel(int),
    SettingModel(Seq<char>),
}

impl View for Pending {
    type V = PendingView;

    open spec fn view(&self) -> PendingView {
        match self {
            Pending::Clearing => PendingView::Clearing,
            Pending::CreatingUnnamed => PendingView::CreatingUnnamed,
            Pending::CreatingNamed(s) => PendingView::CreatingNamed(s@),
            Pending::SavingNew(s, id) => PendingView::SavingNew(s@, *id as int),
            Pending::Saving(s) => PendingView::Saving(s@),
            Pending::Deleting(s) => PendingView::Deleting(s@),
            Pending::Resuming(s) => PendingView::Resuming(s@),
            Pending::Switching => PendingView::Switching,
            Pending::Listing => PendingView::Listing,
            Pending::ShowingRole => PendingView::ShowingRole,
            Pending::SettingRole(s) => PendingView::SettingRole(s@),
            Pending::ShowingModel => PendingView::ShowingModel,
            Pending::ListingModels => PendingView::ListingModels,
            Pending::PickingModel(n) => PendingView::PickingModel(*n as int),
            Pending::SettingModel(s) => PendingView::SettingModel(s@),
        }
    }
}

/// The slash-command interpreter.
pub struct CommandHandler {
    pending: Option<Pending>,
}

impl View for CommandHandler {
    type V = Option<PendingView>;

    closed spec fn view(&self) -> Option<PendingView> {
        match self.pending {
            Some(p) => Some(p@),
            None => None,
        }
    }
}

/// One move of the interpreter: what it waits for next, what it asks for,
/// and what it writes.
pub type Move = (Option<PendingView>, Option<RequestView>, Seq<ActionView>);

/// Waiting for nothing and asking for nothing, having written `out`.
pub open spec fn finish(out: Seq<ActionView>) -> Move {
    (None, None, out)
}

/// Asking for `q` and then waiting as `p`.
pub open spec fn ask(p: PendingView, q: RequestView) -> Move {
    (Some(p), Some(q), Seq::<ActionView>::empty())
}

/// The report of a failure: what failed, then the error's text.
pub open spec fn failure(what: Seq<char>, e: ClaiErrorView) -> Seq<ActionView> {
    error_lines(what + error_text(e))
}

/// How a command starts. An unknown command shows the help; `/save`,
/// `/delete` and `/resume` without a name show their usage line; a known
/// command with text it does not take (such as `/list x`) shows the help.
pub open spec fn command_start(m: Seq<char>) -> Move {
    if !command_valid(m) {
        finish(help_lines())
    } else {
        match dispatch(m) {
            Some(CommandKind::Clear) => ask(PendingView::Clearing, RequestView::ClearScreen),
            Some(CommandKind::New) => if m == "/new"@ {
                ask(PendingView::CreatingUnnamed, RequestView::CreateSession)
            } else {
                let a = argument(m, "/new "@);
                if a.len() == 0 {
                    finish(seq![line("Usage: /new <session_name>"@)])
                } else {
                    ask(PendingView::CreatingNamed(a), RequestView::CreateSession)
                }
            },
            Some(CommandKind::Save) => {
                let a = argument(m, "/save "@);
                if a.len() == 0 {
                    finish(seq![line("Usage: /save <session_name>"@)])
                } else {
                    ask(PendingView::Saving(a), RequestView::SaveSession(a))
                }
            },
            Some(CommandKind::Delete) => {
                let a = argument(m, "/delete "@);
                if a.len() == 0 {
                    finish(seq![line("Usage: /delete <session_name>"@)])
                } else {
                    ask(PendingView::Deleting(a), RequestView::DeleteSession(a))
                }
            },
            Some(CommandKind::List) => ask(PendingView::Listing, RequestView::ListSessions),
            Some(CommandKind::Resume) => {
                let a = argument(m, "/resume "@);
                if a.len() == 0 {
                    finish(seq![line("Usage: /resume <session_name>"@)])
                } else {
                    ask(PendingView::Resuming(a), RequestView::FindSession(a))
                }
            },
            Some(CommandKind::Role) => if m == "/role"@ {
                ask(PendingView::ShowingRole, RequestView::SessionInfo)
            } else {
                let a = argument(m, "/role "@);
                if a.len() == 0 {
                    finish(seq![line("Usage: /role <role_name>"@)])
                } else {
                    ask(PendingView::SettingRole(a), RequestView::SetRole(a))
                }
            },
            Some(CommandKind::Model) => if m == "/model"@ {
                ask(PendingView::ShowingModel, RequestView::SessionInfo)
            } else {
                let a = argument(m, "/model "@);
                if a.len() == 0 {
                    finish(seq![line("Usage: /model <number>"@)])
                } else {
                    match model_number(a) {
                        Some(n) => ask(PendingView::PickingModel(n as int), RequestView::AvailableModels),
                        None => ask(PendingView::SettingModel(a), RequestView::SetModel(a)),
                    }
                }
            },
            None => if m == "/save"@ {
                finish(seq![line("Usage: /save <session_name>"@)])
            } else if m == "/delete"@ {
                finish(seq![line("Usage: /delete <session_name>"@)])
            } else if m == "/resume"@ {
                finish(seq![line("Usage: /resume <session_name>"@)])
            } else {
                finish(help_lines())
            },
        }
    }
}

/// The line listing one saved session.
pub open spec fn list_entry(s: SessionResponseView) -> Seq<char> {
    let head = "• "@ + s.display_name->0 + " (ID: "@ + int_decimal(s.id) + ")"@;
    match s.role {
        Some(r) => head + " 🎭 "@ + r,
        None => head,
    }
}

/// The listing lines: one per session that has a display name, in order.
pub open spec fn list_lines(ss: Seq<SessionResponseView>) -> Seq<ActionView>
    decreases ss.len(),
{
    if ss.len() == 0 {
        Seq::<ActionView>::empty()
    } else {
        list_lines(ss.drop_last()) + if ss.last().display_name is Some {
            seq![line(list_entry(ss.last()))]
        } else {
            Seq::<ActionView>::empty()
        }
    }
}

/// The line for model `i` (counted from 1) of the list.
pub open spec fn model_entry(i: int, m: (Seq<char>, Seq<char>)) -> ActionView {
    line("  "@ + nat_decimal((i + 1) as nat) + ". "@ + m.1 + " ("@ + m.0 + ")"@)
}

/// The lines listing the models.
pub open spec fn model_lines(ms: Seq<(Seq<char>, Seq<char>)>) -> Seq<ActionView> {
    Seq::new(ms.len(), |i: int| model_entry(i, ms[i]))
}

/// How the interpreter continues after a reply.
pub open spec fn command_step(p: PendingView, r: ReplyView) -> Move {
    match (p, r) {
        (PendingView::Clearing, ReplyView::Cleared(Ok(()))) => finish(Seq::<ActionView>::empty()),
        (PendingView::Clearing, ReplyView::Cleared(Err(e))) => finish(
            failure("Failed to clear screen: "@, e),
        ),
        (PendingView::CreatingUnnamed, ReplyView::Created(Ok(id))) => finish(
            spaced("✨ Created new session (ID: "@ + int_decimal(id) + ")"@) + session_info_lines(
                id,
                "Session "@ + int_decimal(id),
            ),
        ),
        (PendingView::CreatingUnnamed, ReplyView::Created(Err(e))) => finish(
            failure("Failed to create new session: "@, e),
        ),
        (PendingView::CreatingNamed(n), ReplyView::Created(Ok(id))) => ask(
            PendingView::SavingNew(n, id),
            RequestView::SaveSession(n),
        ),
        (PendingView::CreatingNamed(_), ReplyView::Created(Err(e))) => finish(
            failure("Failed to create new session: "@, e),
        ),
        (PendingView::SavingNew(n, id), ReplyView::Saved(Ok(()))) => finish(
            spaced("✨ Created and saved new session: '"@ + n + "'"@) + session_info_lines(id, n),
        ),
        (PendingView::SavingNew(_, _), ReplyView::Saved(Err(e))) => finish(
            failure("Failed to save new session: "@, e),
        ),
        (PendingView::Saving(n), ReplyView::Saved(Ok(()))) => finish(
            spaced("✅ Session saved as '"@ + n + "'"@),
        ),
        (PendingView::Saving(_), ReplyView::Saved(Err(e))) => finish(
            failure("Failed to save session: "@, e),
        ),
        (PendingView::Deleting(n), ReplyView::Deleted(Ok(()))) => finish(
            spaced("🗑️ Session '"@ + n + "' deleted successfully"@),
        ),
        (PendingView::Deleting(_), ReplyView::Deleted(Err(e))) => finish(
            failure("Failed to delete session: "@, e),
        ),
        (PendingView::Resuming(n), ReplyView::Found(Ok(id))) => (
            Some(PendingView::Switching),
            Some(RequestView::SetCurrentSession(id)),
            spaced("🔄 Switched to session: '"@ + n + "'"@) + session_info_lines(id, n),
        ),
        (PendingView::Resuming(_), ReplyView::Found(Err(e))) => finish(
            failure("Failed to resume session: "@, e),
        ),
        (PendingView::Switching, ReplyView::CurrentSet) => finish(Seq::<ActionView>::empty()),
        (PendingView::Listing, ReplyView::Listed(Ok(ss))) => if ss.len() == 0 {
            finish(seq![line("No saved sessions found."@)])
        } else {
            finish(
                seq![line("📚 Saved Sessions:"@), line("─────────────────"@)] + list_lines(ss),
            )
        },
        (PendingView::Listing, ReplyView::Listed(Err(e))) => finish(
            failure("Failed to list sessions: "@, e),
        ),
        (PendingView::ShowingRole, ReplyView::Info(Ok(s))) => finish(
            seq![
                match s.role {
                    Some(role) => line("🎭 Current role: '"@ + role + "'"@),
                    None => line("🎭 No role set (the model will respond as default assistant)"@),
                },
            ],
        ),
        (PendingView::ShowingRole, ReplyView::Info(Err(e))) => finish(
            failure("Failed to get session info: "@, e),
        ),
        (PendingView::SettingRole(role), ReplyView::RoleSet(Ok(()))) => finish(
            spaced("🎭 Role set to: '"@ + role + "'"@),
        ),
        (PendingView::SettingRole(_), ReplyView::RoleSet(Err(e))) => finish(
            failure("Failed to set role: "@, e),
        ),
        (PendingView::ShowingModel, ReplyView::Info(Ok(s))) => (
            Some(PendingView::ListingModels),
            Some(RequestView::AvailableModels),
            seq![
                match s.model {
                    Some(model) => line("🤖 Current model: '"@ + model + "'"@),
                    None => line("🤖 No model set (using the server's default model)"@),
                },
            ],
        ),
        (PendingView::ShowingModel, ReplyView::Info(Err(e))) => finish(
            failure("Failed to get session info: "@, e),
        ),
        (PendingView::ListingModels, ReplyView::Models(Ok(ms))) => finish(
            seq![line("Available models:"@)] + model_lines(ms),
        ),
        (PendingView::ListingModels, ReplyView::Models(Err(e))) => finish(
            failure("Failed to get models: "@, e),
        ),
        (PendingView::PickingModel(n), ReplyView::Models(Ok(ms))) => if 1 <= n <= ms.len() {
            ask(PendingView::SettingModel(ms[n - 1].0), RequestView::SetModel(ms[n - 1].0))
        } else {
            finish(error_lines("Invalid model number: "@ + nat_decimal(n as nat)))
        },
        (PendingView::PickingModel(_), ReplyView::Models(Err(e))) => finish(
            failure("Failed to get models: "@, e),
        ),
        (PendingView::SettingModel(m), ReplyView::ModelSet(Ok(()))) => finish(
            spaced("🤖 Model set to: '"@ + m + "'"@),
        ),
        (PendingView::SettingModel(_), ReplyView::ModelSet(Err(e))) => finish(
            failure("Failed to set model: "@, e),
        ),
        _ => finish(Seq::<ActionView>::empty()),
    }
}


// ---------------------------------------------------------------------------
// The interpreter
// ---------------------------------------------------------------------------

fn names(m: &str, c: &str, c_space: &str) -> (b: bool)
    ensures
        b == names_command(m@, c@, c_space@),
{
    str_eq(m, c) || starts_with(m, c_space)
}

fn is_valid(m: &str) -> (b: bool)
    ensures
        b == command_valid(m@),
{
    names(m, "/clear", "/clear ") || names(m, "/new", "/new ") || names(m, "/save", "/save ")
        || names(m, "/delete", "/delete ") || names(m, "/list", "/list ") || names(
        m,
        "/resume",
        "/resume ",
    ) || names(m, "/role", "/role ") || names(m, "/model", "/model ")
}

fn dispatch_of(m: &str) -> (r: Option<CommandKind>)
    ensures
        r == dispatch(m@),
{
    if str_eq(m, "/clear") {
        Some(CommandKind::Clear)
    } else if starts_with(m, "/new") {
        Some(CommandKind::New)
    } else if starts_with(m, "/save ") {
        Some(CommandKind::Save)
    } else if starts_with(m, "/delete ") {
        Some(CommandKind::Delete)
    } else if str_eq(m, "/list") {
        Some(CommandKind::List)
    } else if starts_with(m, "/resume ") {
        Some(CommandKind::Resume)
    } else if starts_with(m, "/role") {
        Some(CommandKind::Role)
    } else if starts_with(m, "/model") {
        Some(CommandKind::Model)
    } else {
        None
    }
}

fn argument_of(m: &str, prefix: &str) -> (r: String)
    requires
        prefix@.len() > 0,
    ensures
        r@ == argument(m@, prefix@),
{
    let stripped = trim_start_matches(m, prefix);
    trim(stripped.as_str())
}

fn usage(out: &mut TermOutput, text: &str)
    ensures
        final(out)@ == old(out)@ + seq![line(text@)],
{
    out.write_line(String::from_str(text));
    assert(final(out)@ =~= old(out)@ + seq![line(text@)]);
}

fn report_failure(out: &mut TermOutput, what: &str, e: &ClaiError)
    ensures
        final(out)@ == old(out)@ + failure(what@, e@),
{
    let mut text = String::from_str(what);
    let detail = e.to_text();
    text.append(detail.as_str());
    write_error(out, text);
}

fn quoted(before: &str, name: &str, after: &str) -> (r: String)
    ensures
        r@ == before@ + name@ + after@,
{
    let mut r = String::from_str(before);
    r.append(name);
    r.append(after);
    r
}

fn list_entry_text(s: &SessionResponse) -> (r: String)
    requires
        s.display_name is Some,
    ensures
        r@ == list_entry(s@),
{
    let mut r = String::from_str("• ");
    match &s.display_name {
        Some(d) => r.append(d.as_str()),
        None => {},
    }
    r.append(" (ID: ");
    push_int(&mut r, s.id as i64);
    r.append(")");
    match &s.role {
        Some(role) => {
            r.append(" 🎭 ");
            r.append(role.as_str());
        },
        None => {},
    }
    r
}

fn write_list(out: &mut TermOutput, ss: &Vec<SessionResponse>)
    ensures
        final(out)@ == old(out)@ + list_lines(ss@.map_values(|s: SessionResponse| s@)),
{
    let ghost sv = ss@.map_values(|s: SessionResponse| s@);
    let mut i: usize = 0;
    assert(sv.take(0) =~= Seq::<SessionResponseView>::empty());
    assert(old(out)@ + list_lines(sv.take(0)) =~= old(out)@);
    while i < ss.len()
        invariant
            i <= ss@.len(),
            sv == ss@.map_values(|s: SessionResponse| s@),
            out@ == old(out)@ + list_lines(sv.take(i as int)),
        decreases ss@.len() - i,
    {
        let ghost before = out@;
        proof {
            assert(sv.take(i + 1).drop_last() =~= sv.take(i as int));
            assert(sv.take(i + 1).last() == ss@[i as int]@);
        }
        if ss[i].display_name.is_some() {
            let text = list_entry_text(&ss[i]);
            out.write_line(text);
            assert(out@ =~= old(out)@ + list_lines(sv.take(i + 1)));
        } else {
            assert(out@ =~= old(out)@ + list_lines(sv.take(i + 1)));
        }
        i = i + 1;
    }
    assert(sv.take(ss@.len() as int) =~= sv);
}

fn write_models(out: &mut TermOutput, ms: &Vec<ClaudeModel>)
    ensures
        final(out)@ == old(out)@ + model_lines(ms@.map_values(|m: ClaudeModel| model_view(m))),
{
    let ghost mv = ms@.map_values(|m: ClaudeModel| model_view(m));
    let mut i: usize = 0;
    assert(old(out)@ + model_lines(mv).take(0) =~= old(out)@);
    while i < ms.len()
        invariant
            i <= ms@.len(),
            mv == ms@.map_values(|m: ClaudeModel| model_view(m)),
            out@ == old(out)@ + model_lines(mv).take(i as int),
        decreases ms@.len() - i,
    {
        let mut text = String::from_str("  ");
        push_decimal(&mut text, (i + 1) as u64);
        text.append(". ");
        text.append(ms[i].display_name.as_str());
        text.append(" (");
        text.append(ms[i].id.as_str());
        text.append(")");
        proof {
            assert(mv[i as int] == model_view(ms@[i as int]));
        }
        out.write_line(text);
        assert(model_lines(mv).take(i + 1) =~= model_lines(mv).take(i as int).push(
            model_entry(i as int, mv[i as int]),
        ));
        assert(out@ =~= old(out)@ + model_lines(mv).take(i + 1));
        i = i + 1;
    }
    assert(model_lines(mv).take(ms@.len() as int) =~= model_lines(mv));
}

/// The move after a reply, whatever the interpreter waits for.
pub open spec fn command_after(p: Option<PendingView>, r: ReplyView) -> Move {
    match p {
        Some(p) => command_step(p, r),
        None => finish(Seq::<ActionView>::empty()),
    }
}

impl CommandHandler {
    /// An interpreter waiting for nothing.
    pub fn new() -> (h: CommandHandler)
        ensures
            h@ is None,
    {
        CommandHandler { pending: None }
    }

    /// The interpreter waits for nothing.
    pub fn is_idle(&self) -> (b: bool)
        ensures
            b == (self@ is None),
    {
        self.pending.is_none()
    }

    /// Starts the command `message`: writes what it shows at once and returns
    /// the first request, if any.
    pub fn handle_command(&mut self, message: &str, out: &mut TermOutput) -> (r: Option<CommandRequest>)
        ensures
            final(self)@ == command_start(message@).0,
            request_view(r) == command_start(message@).1,
            final(out)@ == old(out)@ + command_start(message@).2,
    {
        proof {
            reveal_strlit("/new ");
            reveal_strlit("/save ");
            reveal_strlit("/delete ");
            reveal_strlit("/resume ");
            reveal_strlit("/role ");
            reveal_strlit("/model ");
        }
        if !is_valid(message) {
            write_command_help(out);
            self.pending = None;
            return None;
        }
        let kind = dispatch_of(message);
        match kind {
            Some(CommandKind::Clear) => {
                self.pending = Some(Pending::Clearing);
                assert(out@ =~= old(out)@ + Seq::<ActionView>::empty());
                Some(CommandRequest::ClearScreen)
            },
            Some(CommandKind::New) => {
                if str_eq(message, "/new") {
                    self.pending = Some(Pending::CreatingUnnamed);
                    assert(out@ =~= old(out)@ + Seq::<ActionView>::empty());
                    return Some(CommandRequest::CreateSession);
                }
                let a = argument_of(message, "/new ");
                if a.as_str().unicode_len() == 0 {
                    usage(out, "Usage: /new <session_name>");
                    self.pending = None;
                    return None;
                }
                self.pending = Some(Pending::CreatingNamed(a));
                assert(out@ =~= old(out)@ + Seq::<ActionView>::empty());
                Some(CommandRequest::CreateSession)
            },
            Some(CommandKind::Save) => {
                let a = argument_of(message, "/save ");
                if a.as_str().unicode_len() == 0 {
                    usage(out, "Usage: /save <session_name>");
                    self.pending = None;
                    return None;
                }
                self.pending = Some(Pending::Saving(a.clone()));
                assert(out@ =~= old(out)@ + Seq::<ActionView>::empty());
                Some(CommandRequest::SaveSession(a))
            },
            Some(CommandKind::Delete) => {
                let a = argument_of(message, "/delete ");
                if a.as_str().unicode_len() == 0 {
                    usage(out, "Usage: /delete <session_name>");
                    self.pending = None;
                    return None;
                }
                self.pending = Some(Pending::Deleting(a.clone()));
                assert(out@ =~= old(out)@ + Seq::<ActionView>::empty());
                Some(CommandRequest::DeleteSession(a))
            },
            Some(CommandKind::List) => {
                self.pending = Some(Pending::Listing);
                assert(out@ =~= old(out)@ + Seq::<ActionView>::empty());
                Some(CommandRequest::ListSessions)
            },
            Some(CommandKind::Resume) => {
                let a = argument_of(message, "/resume ");
                if a.as_str().unicode_len() == 0 {
                    usage(out, "Usage: /resume <session_name>");
                    self.pending = None;
                    return None;
                }
                self.pending = Some(Pending::Resuming(a.clone()));
                assert(out@ =~= old(out)@ + Seq::<ActionView>::empty());
                Some(CommandRequest::FindSession(a))
            },
            Some(CommandKind::Role) => {
                if str_eq(message, "/role") {
                    self.pending = Some(Pending::ShowingRole);
                    assert(out@ =~= old(out)@ + Seq::<ActionView>::empty());
                    return Some(CommandRequest::SessionInfo);
                }
                let a = argument_of(message, "/role ");
                if a.as_str().unicode_len() == 0 {
                    usage(out, "Usage: /role <role_name>");
                    self.pending = None;
                    return None;
                }
                self.pending = Some(Pending::SettingRole(a.clone()));
                assert(out@ =~= old(out)@ + Seq::<ActionView>::empty());
                Some(CommandRequest::SetRole(a))
            },
            Some(CommandKind::Model) => {
                if str_eq(message, "/model") {
                    self.pending = Some(Pending::ShowingModel);
                    assert(out@ =~= old(out)@ + Seq::<ActionView>::empty());
                    return Some(CommandRequest::SessionInfo);
                }
                let a = argument_of(message, "/model ");
                if a.as_str().unicode_len() == 0 {
                    usage(out, "Usage: /model <number>");
                    self.pending = None;
                    return None;
                }
                assert(out@ =~= old(out)@ + Seq::<ActionView>::empty());
                match parse_model_number(a.as_str()) {
                    Some(n) => {
                        self.pending = Some(Pending::PickingModel(n));
                        Some(CommandRequest::AvailableModels)
                    },
                    None => {
                        self.pending = Some(Pending::SettingModel(a.clone()));
                        Some(CommandRequest::SetModel(a))
                    },
                }
            },
            None => {
                self.pending = None;
                if str_eq(message, "/save") {
                    usage(out, "Usage: /save <session_name>");
                } else if str_eq(message, "/delete") {
                    usage(out, "Usage: /delete <session_name>");
                } else if str_eq(message, "/resume") {
                    usage(out, "Usage: /resume <session_name>");
                } else {
                    write_command_help(out);
                }
                None
            },
        }
    }

    /// Continues the command with the reply to its last request: writes what
    /// the reply shows and returns the next request, if any.
    pub fn on_reply(&mut self, reply: CommandReply, out: &mut TermOutput) -> (r: Option<CommandRequest>)
        ensures
            final(self)@ == command_after(old(self)@, reply@).0,
            request_view(r) == command_after(old(self)@, reply@).1,
            final(out)@ == old(out)@ + command_after(old(self)@, reply@).2,
    {
        let pending = self.pending.take();
        self.pending = None;
        let ghost empty = Seq::<ActionView>::empty();
        match (pending, reply) {
            (Some(Pending::Clearing), CommandReply::Cleared(Ok(()))) => {
                assert(out@ =~= old(out)@ + empty);
                None
            },
            (Some(Pending::Clearing), CommandReply::Cleared(Err(e))) => {
                report_failure(out, "Failed to clear screen: ", &e);
                None
            },
            (Some(Pending::CreatingUnnamed), CommandReply::Created(Ok(id))) => {
                let mut text = String::from_str("✨ Created new session (ID: ");
                push_int(&mut text, id as i64);
                text.append(")");
                write_spaced_line(out, text);
                let mut name = String::from_str("Session ");
                push_int(&mut name, id as i64);
                write_session_info(out, id, name);
                assert(out@ =~= old(out)@ + (spaced(
                    "✨ Created new session (ID: "@ + int_decimal(id as int) + ")"@,
                ) + session_info_lines(id as int, "Session "@ + int_decimal(id as int))));
                None
            },
            (Some(Pending::CreatingUnnamed), CommandReply::Created(Err(e))) => {
                report_failure(out, "Failed to create new session: ", &e);
                None
            },
            (Some(Pending::CreatingNamed(n)), CommandReply::Created(Ok(id))) => {
                self.pending = Some(Pending::SavingNew(n.clone(), id));
                assert(out@ =~= old(out)@ + empty);
                Some(CommandRequest::SaveSession(n))
            },
            (Some(Pending::CreatingNamed(_)), CommandReply::Created(Err(e))) => {
                report_failure(out, "Failed to create new session: ", &e);
                None
            },
            (Some(Pending::SavingNew(n, id)), CommandReply::Saved(Ok(()))) => {
                write_spaced_line(out, quoted("✨ Created and saved new session: '", n.as_str(), "'"));
                write_session_info(out, id, n);
                None
            },
            (Some(Pending::SavingNew(_, _)), CommandReply::Saved(Err(e))) => {
                report_failure(out, "Failed to save new session: ", &e);
                None
            },
            (Some(Pending::Saving(n)), CommandReply::Saved(Ok(()))) => {
                write_spaced_line(out, quoted("✅ Session saved as '", n.as_str(), "'"));
                None
            },
            (Some(Pending::Saving(_)), CommandReply::Saved(Err(e))) => {
                report_failure(out, "Failed to save session: ", &e);
                None
            },
            (Some(Pending::Deleting(n)), CommandReply::Deleted(Ok(()))) => {
                write_spaced_line(out, quoted("🗑️ Session '", n.as_str(), "' deleted successfully"));
                None
            },
            (Some(Pending::Deleting(_)), CommandReply::Deleted(Err(e))) => {
                report_failure(out, "Failed to delete session: ", &e);
                None
            },
            (Some(Pending::Resuming(n)), CommandReply::Found(Ok(id))) => {
                write_spaced_line(out, quoted("🔄 Switched to session: '", n.as_str(), "'"));
                write_session_info(out, id, n);
                self.pending = Some(Pending::Switching);
                Some(CommandRequest::SetCurrentSession(id))
            },
            (Some(Pending::Resuming(_)), CommandReply::Found(Err(e))) => {
                report_failure(out, "Failed to resume session: ", &e);
                None
            },
            (Some(Pending::Switching), CommandReply::CurrentSet) => {
                assert(out@ =~= old(out)@ + empty);
                None
            },
            (Some(Pending::Listing), CommandReply::Listed(Ok(ss))) => {
                if ss.len() == 0 {
                    usage(out, "No saved sessions found.");
                } else {
                    out.write_line(String::from_str("📚 Saved Sessions:"));
                    out.write_line(String::from_str("─────────────────"));
                    let ghost mid = out@;
                    write_list(out, &ss);
                    assert(out@ =~= old(out)@ + (seq![
                        line("📚 Saved Sessions:"@),
                        line("─────────────────"@),
                    ] + list_lines(ss@.map_values(|s: SessionResponse| s@))));
                }
                None
            },
            (Some(Pending::Listing), CommandReply::Listed(Err(e))) => {
                report_failure(out, "Failed to list sessions: ", &e);
                None
            },
            (Some(Pending::ShowingRole), CommandReply::Info(Ok(s))) => {
                match &s.role {
                    Some(role) => out.write_line(quoted("🎭 Current role: '", role.as_str(), "'")),
                    None => out.write_line(
                        String::from_str("🎭 No role set (the model will respond as default assistant)"),
                    ),
                }
                assert(out@ =~= old(out)@ + command_step(PendingView::ShowingRole, reply@).2);
                None
            },
            (Some(Pending::ShowingRole), CommandReply::Info(Err(e))) => {
                report_failure(out, "Failed to get session info: ", &e);
                None
            },
            (Some(Pending::SettingRole(role)), CommandReply::RoleSet(Ok(()))) => {
                write_spaced_line(out, quoted("🎭 Role set to: '", role.as_str(), "'"));
                None
            },
            (Some(Pending::SettingRole(_)), CommandReply::RoleSet(Err(e))) => {
                report_failure(out, "Failed to set role: ", &e);
                None
            },
            (Some(Pending::ShowingModel), CommandReply::Info(Ok(s))) => {
                match &s.model {
                    Some(model) => out.write_line(quoted("🤖 Current model: '", model.as_str(), "'")),
                    None => out.write_line(
                        String::from_str("🤖 No model set (using the server's default model)"),
                    ),
                }
                assert(out@ =~= old(out)@ + command_step(PendingView::ShowingModel, reply@).2);
                self.pending = Some(Pending::ListingModels);
                Some(CommandRequest::AvailableModels)
            },
            (Some(Pending::ShowingModel), CommandReply::Info(Err(e))) => {
                report_failure(out, "Failed to get session info: ", &e);
                None
            },
            (Some(Pending::ListingModels), CommandReply::Models(Ok(ms))) => {
                out.write_line(String::from_str("Available models:"));
                write_models(out, &ms);
                assert(out@ =~= old(out)@ + (seq![line("Available models:"@)] + model_lines(
                    ms@.map_values(|m: ClaudeModel| model_view(m)),
                )));
                None
            },
            (Some(Pending::ListingModels), CommandReply::Models(Err(e))) => {
                report_failure(out, "Failed to get models: ", &e);
                None
            },
            (Some(Pending::PickingModel(n)), CommandReply::Models(Ok(ms))) => {
                let len = ms.len() as u64;
                if 1 <= n && n <= len {
                    let k = (n - 1) as usize;
                    let id = ms[k].id.clone();
                    assert(ms@.map_values(|m: ClaudeModel| model_view(m))[k as int].0 == id@);
                    self.pending = Some(Pending::SettingModel(id.clone()));
                    assert(out@ =~= old(out)@ + empty);
                    Some(CommandRequest::SetModel(id))
                } else {
                    let mut text = String::from_str("Invalid model number: ");
                    push_decimal(&mut text, n);
                    write_error(out, text);
                    None
                }
            },
            (Some(Pending::PickingModel(_)), CommandReply::Models(Err(e))) => {
                report_failure(out, "Failed to get models: ", &e);
                None
            },
            (Some(Pending::SettingModel(m)), CommandReply::ModelSet(Ok(()))) => {
                write_spaced_line(out, quoted("🤖 Model set to: '", m.as_str(), "'"));
                None
            },
            (Some(Pending::SettingModel(_)), CommandReply::ModelSet(Err(e))) => {
                report_failure(out, "Failed to set model: ", &e);
                None
            },
            _ => {
                assert(out@ =~= old(out)@ + empty);
                None
            },
        }
    }
}

/// `/model` shows the session's model: with the session's details in hand it
/// writes one unstyled line, naming the model when the session has one
/// ("🤖 Current model: '<model>'") and the server's default only when it has
/// none, and then asks for the list of models.
pub proof fn law_model_shows_current_model(s: SessionResponseView)
    ensures
        command_after(Some(PendingView::ShowingModel), ReplyView::Info(Ok(s))).0 == Some(
            PendingView::ListingModels,
        ),
        command_after(Some(PendingView::ShowingModel), ReplyView::Info(Ok(s))).1 == Some(
            RequestView::AvailableModels,
        ),
        s.model matches Some(m) ==> command_after(
            Some(PendingView::ShowingModel),
            ReplyView::Info(Ok(s)),
        ).2 == seq![
            ActionView::WriteLine(seq![("🤖 Current model: '"@ + m + "'"@, TextStyle::Plain)]),
        ],
        s.model is None ==> command_after(
            Some(PendingView::ShowingModel),
            ReplyView::Info(Ok(s)),
        ).2 == seq![
            ActionView::WriteLine(
                seq![("🤖 No model set (using the server's default model)"@, TextStyle::Plain)],
            ),
        ],
{
}

/// `/role` alone shows the session's role: with the session's details in hand
/// it writes one unstyled line, naming the role when the session has one
/// ("🎭 Current role: '<role>'") and saying that none is set only when it has
/// none, and the command ends.
pub proof fn law_role_shows_current_role(s: SessionResponseView)
    ensures
        command_after(Some(PendingView::ShowingRole), ReplyView::Info(Ok(s))).0 is None,
        command_after(Some(PendingView::ShowingRole), ReplyView::Info(Ok(s))).1 is None,
        s.role matches Some(role) ==> command_after(
            Some(PendingView::ShowingRole),
            ReplyView::Info(Ok(s)),
        ).2 == seq![
            ActionView::WriteLine(seq![("🎭 Current role: '"@ + role + "'"@, TextStyle::Plain)]),
        ],
        s.role is None ==> command_after(
            Some(PendingView::ShowingRole),
            ReplyView::Info(Ok(s)),
        ).2 == seq![
            ActionView::WriteLine(
                seq![("🎭 No role set (the model will respond as default assistant)"@, TextStyle::Plain)],
            ),
        ],
{
}

} // verus!
