use clai::commands::{CommandHandler, CommandReply, CommandRequest};
use clai::error::ClaiError;
use clai::input::{get_filtered_commands, InputReader, Key};
use clai::repl::{
    classify_input, equal_ignoring_ascii_case, lines, write_goodbye, write_greeting, write_reply,
    write_separator, InputAction,
};
use clai::sessions::{
    default_session_name_for, delete_session_outcome, expect_success, session_by_name_outcome, startup_step, url_encode, InitReply, InitRequest,
    InitStep, Method, SessionManager, StartupAction,
};
use clai::terminal::{
    clear_screen, write_command_help, write_error, write_session_info, write_spaced_line,
    TermAction, TermOutput, TextStyle,
};
use clai::types::{ClaudeModel, SessionResponse};

/// A readable rendering of the actions, one string per action.
fn render(out: &TermOutput) -> Vec<String> {
    out.actions
        .iter()
        .map(|a| match a {
            TermAction::WriteLine(segs) => {
                let text: String = segs.iter().map(|s| s.text.as_str()).collect();
                format!("line:{}", text)
            }
            TermAction::WriteStr(segs) => {
                let text: String = segs.iter().map(|s| s.text.as_str()).collect();
                format!("str:{}", text)
            }
            TermAction::ClearLine => "clear-line".to_string(),
            TermAction::ClearScreen => "clear-screen".to_string(),
            TermAction::MoveCursorUp(n) => format!("up:{}", n),
            TermAction::MoveCursorDown(n) => format!("down:{}", n),
        })
        .collect()
}

fn session(id: i32, display: Option<&str>, role: Option<&str>, model: Option<&str>) -> SessionResponse {
    SessionResponse {
        id,
        name: format!("s{}", id),
        display_name: display.map(|s| s.to_string()),
        role: role.map(|s| s.to_string()),
        model: model.map(|s| s.to_string()),
    }
}

fn model(id: &str, name: &str) -> ClaudeModel {
    ClaudeModel { id: id.to_string(), display_name: name.to_string(), created_at: "2025-01-01".to_string() }
}

fn manager_with_current(id: i32) -> SessionManager {
    let mut m = SessionManager::new("http://localhost:3500".to_string());
    m.set_current_session(id);
    m
}

// ---------------------------------------------------------------------------
// Session bookkeeping and requests
// ---------------------------------------------------------------------------

#[test]
fn names_are_percent_encoded_in_urls() {
    assert_eq!(url_encode("Test Session"), "Test%20Session");
    assert_eq!(url_encode("a-b_c.d~e"), "a-b_c.d~e");
    assert_eq!(url_encode("ä/?"), "%C3%A4%2F%3F");
    let m = SessionManager::new("http://localhost:3500".to_string());
    let c = m.session_by_name_call("To Delete");
    assert!(c.method == Method::Get);
    assert_eq!(c.url, "http://localhost:3500/sessions/by-name/To%20Delete");
    let d = m.delete_session_call("To Delete");
    assert!(d.method == Method::Delete);
    assert_eq!(d.url, c.url);
}

#[test]
fn fresh_session_names_are_v4_uuids_from_the_random_bytes() {
    let m = SessionManager::new("http://h".to_string());
    let bytes: [u8; 16] = [0, 1, 2, 3, 4, 5, 6, 7, 8, 9, 10, 11, 12, 13, 14, 15];
    let (_, req) = m.create_session_call(bytes);
    assert_eq!(req.name, "00010203-0405-4607-8809-0a0b0c0d0e0f");
    let (_, req) = m.create_session_call([0xff; 16]);
    assert_eq!(req.name, "ffffffff-ffff-4fff-bfff-ffffffffffff");
}

#[test]
fn calls_without_a_current_session_fail() {
    let m = SessionManager::new("http://h".to_string());
    let e = m.require_current_session().err().unwrap();
    assert_eq!(e.to_text(), "Session error: No current session set");
    assert_eq!(e.status_code(), 400);
    assert!(m.save_session_call("x").is_err());
    assert!(m.set_role_call(None).is_err());
    assert!(m.set_model_call("m".to_string()).is_err());
    assert!(m.send_message_call("hi").is_err());
    assert!(m.current_session_info_call().is_err());
}

#[test]
fn calls_for_the_current_session() {
    let m = manager_with_current(42);
    assert_eq!(m.require_current_session().ok(), Some(42));
    let (c, body) = m.save_session_call("Work").ok().unwrap();
    assert!(c.method == Method::Patch);
    assert_eq!(c.url, "http://localhost:3500/sessions/42");
    assert_eq!(body.display_name, "Work");
    let (c, body) = m.set_role_call(Some("poet".to_string())).ok().unwrap();
    assert!(c.method == Method::Put);
    assert_eq!(c.url, "http://localhost:3500/sessions/42/role");
    assert_eq!(body.role, Some("poet".to_string()));
    let (c, body) = m.set_model_call("model-x".to_string()).ok().unwrap();
    assert_eq!(c.url, "http://localhost:3500/sessions/42/model");
    assert_eq!(body.model, "model-x");
    let (c, body) = m.send_message_call("hello").ok().unwrap();
    assert!(c.method == Method::Post);
    assert_eq!(c.url, "http://localhost:3500/sessions/42/chat");
    assert_eq!(body.message, "hello");
    assert_eq!(m.current_session_info_call().ok().unwrap().url, "http://localhost:3500/sessions/42");
    assert_eq!(m.session_info_call(-3).url, "http://localhost:3500/sessions/-3");
}

#[test]
fn plain_calls() {
    let m = SessionManager::new("http://h".to_string());
    assert_eq!(m.health_call().url, "http://h/health");
    assert_eq!(m.last_session_call().url, "http://h/sessions/last");
    assert_eq!(m.list_sessions_call().url, "http://h/sessions");
    assert_eq!(m.models_call().url, "http://h/models");
    let (c, req) = m.create_session_call([7; 16]);
    assert!(c.method == Method::Post);
    assert_eq!(c.url, "http://h/sessions");
    assert_eq!(req.name.len(), 36);
    assert_eq!(req.display_name, None);
    assert_eq!(m.server_url(), "http://h");
}

#[test]
fn reply_statuses() {
    assert!(session_by_name_outcome("A", 200, "200 OK").is_ok());
    assert_eq!(
        session_by_name_outcome("A", 404, "404 Not Found").err().unwrap().to_text(),
        "Session error: Session 'A' not found"
    );
    assert_eq!(
        session_by_name_outcome("A", 500, "500 Internal Server Error").err().unwrap().to_text(),
        "Server error: Failed to get session 'A': 500 Internal Server Error"
    );
    assert!(delete_session_outcome("A", 200, "200 OK").is_ok());
    assert_eq!(
        delete_session_outcome("A", 404, "404 Not Found").err().unwrap().to_text(),
        "Session error: Session 'A' not found"
    );
    assert_eq!(
        delete_session_outcome("A", 500, "500 Internal Server Error").err().unwrap().to_text(),
        "Server error: Failed to delete session: 500 Internal Server Error"
    );
    assert!(expect_success("Failed to save session", 204, "204").is_ok());
    assert_eq!(
        expect_success("Failed to save session", 400, "400 Bad Request").err().unwrap().to_text(),
        "Server error: Failed to save session: 400 Bad Request"
    );
}

#[test]
fn startup_takes_the_last_session_with_its_name() {
    let mut m = SessionManager::new("http://h".to_string());
    assert!(matches!(m.init_start(), InitRequest::LastSession));
    let step = m.init_step(InitReply::LastSession(Ok(7)));
    assert!(matches!(step, InitStep::Ask(InitRequest::SessionInfo(7))));
    let step = m.init_step(InitReply::SessionInfo(7, Ok(session(7, Some("Work"), None, None))));
    match step {
        InitStep::Done(Ok((id, name))) => {
            assert_eq!(id, 7);
            assert_eq!(name, "Work");
        }
        _ => panic!("start-up should be over"),
    }
    assert_eq!(m.require_current_session().ok(), Some(7));
}

#[test]
fn startup_names_unnamed_or_unreadable_sessions_by_id() {
    let mut m = SessionManager::new("http://h".to_string());
    match m.init_step(InitReply::SessionInfo(3, Err(ClaiError::Network("down".to_string())))) {
        InitStep::Done(Ok((id, name))) => {
            assert_eq!(id, 3);
            assert_eq!(name, "Session 3");
        }
        _ => panic!("start-up should be over"),
    }
    match m.init_step(InitReply::SessionInfo(4, Ok(session(4, None, None, None)))) {
        InitStep::Done(Ok((_, name))) => assert_eq!(name, "Session 4"),
        _ => panic!("start-up should be over"),
    }
}

#[test]
fn startup_creates_a_session_when_there_is_none() {
    let mut m = SessionManager::new("http://h".to_string());
    let step = m.init_step(InitReply::LastSession(Err(ClaiError::server("404".to_string()))));
    assert!(matches!(step, InitStep::Ask(InitRequest::CreateSession)));
    assert!(m.require_current_session().is_err());
    match m.init_step(InitReply::Created(Ok(11))) {
        InitStep::Done(Ok((id, name))) => {
            assert_eq!(id, 11);
            assert_eq!(name, "Session 11");
        }
        _ => panic!("start-up should be over"),
    }
    assert_eq!(m.require_current_session().ok(), Some(11));
}

#[test]
fn startup_fails_when_creation_fails() {
    let mut m = SessionManager::new("http://h".to_string());
    match m.init_step(InitReply::Created(Err(ClaiError::server("no".to_string())))) {
        InitStep::Done(Err(e)) => assert_eq!(e.to_text(), "Server error: no"),
        _ => panic!("start-up should have failed"),
    }
    assert!(m.require_current_session().is_err());
}

#[test]
fn default_names() {
    assert_eq!(default_session_name_for(5), "Session 5");
    assert_eq!(default_session_name_for(-12), "Session -12");
}

#[test]
fn server_startup_policy() {
    assert!(matches!(startup_step(None, true), StartupAction::Ready));
    assert!(matches!(startup_step(None, false), StartupAction::SpawnServer));
    assert!(matches!(startup_step(Some(1), false), StartupAction::WaitAndRecheck));
    assert!(matches!(startup_step(Some(49), false), StartupAction::WaitAndRecheck));
    assert!(matches!(startup_step(Some(30), true), StartupAction::Ready));
    match startup_step(Some(50), false) {
        StartupAction::Fail(e) => assert_eq!(e.to_text(), "Server error: Server failed to start"),
        _ => panic!("should give up"),
    }
}

// ---------------------------------------------------------------------------
// Commands
// ---------------------------------------------------------------------------

#[test]
fn unknown_command_shows_help() {
    let mut h = CommandHandler::new();
    let mut out = TermOutput::new();
    assert!(h.handle_command("/bogus", &mut out).is_none());
    assert!(h.is_idle());
    let shown = render(&out);
    assert_eq!(shown[1], "line:💡 Available commands:");
    assert_eq!(shown.len(), 11);
    assert_eq!(shown[9], "line:  🤖 /model [number] - View or set the AI model for this session");
}

#[test]
fn commands_missing_their_name_show_usage() {
    let mut h = CommandHandler::new();
    let mut out = TermOutput::new();
    assert!(h.handle_command("/save", &mut out).is_none());
    assert!(h.handle_command("/delete", &mut out).is_none());
    assert!(h.handle_command("/resume", &mut out).is_none());
    assert!(h.is_idle());
    assert_eq!(
        render(&out),
        vec![
            "line:Usage: /save <session_name>",
            "line:Usage: /delete <session_name>",
            "line:Usage: /resume <session_name>",
        ]
    );
    let mut out = TermOutput::new();
    assert!(h.handle_command("/list more", &mut out).is_none());
    assert_eq!(render(&out)[1], "line:💡 Available commands:");
    let mut out = TermOutput::new();
    assert!(h.handle_command("/clear now", &mut out).is_none());
    assert_eq!(render(&out).len(), 11);
}

#[test]
fn clear_command() {
    let mut h = CommandHandler::new();
    let mut out = TermOutput::new();
    assert!(matches!(h.handle_command("/clear", &mut out), Some(CommandRequest::ClearScreen)));
    assert!(h.on_reply(CommandReply::Cleared(Ok(())), &mut out).is_none());
    assert!(out.actions.is_empty());
    h.handle_command("/clear", &mut out);
    h.on_reply(CommandReply::Cleared(Err(ClaiError::Terminal("tty".to_string()))), &mut out);
    assert_eq!(render(&out), vec!["line:", "line:❌ Failed to clear screen: Terminal I/O error: tty", "line:"]);
}

#[test]
fn new_unnamed_session() {
    let mut h = CommandHandler::new();
    let mut out = TermOutput::new();
    assert!(matches!(h.handle_command("/new", &mut out), Some(CommandRequest::CreateSession)));
    assert!(h.on_reply(CommandReply::Created(Ok(9)), &mut out).is_none());
    assert_eq!(
        render(&out),
        vec![
            "line:",
            "line:✨ Created new session (ID: 9)",
            "line:",
            "line:",
            "line:📍 Current session: Session 9 (ID: 9)",
            "line:",
        ]
    );
    assert!(h.is_idle());
}

#[test]
fn new_named_session_creates_then_saves() {
    let mut h = CommandHandler::new();
    let mut out = TermOutput::new();
    assert!(matches!(h.handle_command("/new  Project X ", &mut out), Some(CommandRequest::CreateSession)));
    match h.on_reply(CommandReply::Created(Ok(4)), &mut out) {
        Some(CommandRequest::SaveSession(n)) => assert_eq!(n, "Project X"),
        _ => panic!("should save the new session"),
    }
    assert!(h.on_reply(CommandReply::Saved(Ok(())), &mut out).is_none());
    let shown = render(&out);
    assert_eq!(shown[1], "line:✨ Created and saved new session: 'Project X'");
    assert_eq!(shown[4], "line:📍 Current session: Project X (ID: 4)");
}

#[test]
fn new_with_blank_name_shows_usage() {
    let mut h = CommandHandler::new();
    let mut out = TermOutput::new();
    assert!(h.handle_command("/new    ", &mut out).is_none());
    assert_eq!(render(&out), vec!["line:Usage: /new <session_name>"]);
}

#[test]
fn save_and_delete_commands() {
    let mut h = CommandHandler::new();
    let mut out = TermOutput::new();
    match h.handle_command("/save Notes", &mut out) {
        Some(CommandRequest::SaveSession(n)) => assert_eq!(n, "Notes"),
        _ => panic!("should save"),
    }
    h.on_reply(CommandReply::Saved(Ok(())), &mut out);
    match h.handle_command("/delete Notes", &mut out) {
        Some(CommandRequest::DeleteSession(n)) => assert_eq!(n, "Notes"),
        _ => panic!("should delete"),
    }
    h.on_reply(
        CommandReply::Deleted(Err(ClaiError::session("Session 'Notes' not found".to_string()))),
        &mut out,
    );
    let shown = render(&out);
    assert_eq!(shown[1], "line:✅ Session saved as 'Notes'");
    assert_eq!(
        shown[4],
        "line:❌ Failed to delete session: Session error: Session 'Notes' not found"
    );
}

#[test]
fn argument_drops_repeated_command_words() {
    let mut h = CommandHandler::new();
    let mut out = TermOutput::new();
    match h.handle_command("/save /save x", &mut out) {
        Some(CommandRequest::SaveSession(n)) => assert_eq!(n, "x"),
        _ => panic!("should save"),
    }
}

#[test]
fn resume_switches_session() {
    let mut h = CommandHandler::new();
    let mut out = TermOutput::new();
    match h.handle_command("/resume Work", &mut out) {
        Some(CommandRequest::FindSession(n)) => assert_eq!(n, "Work"),
        _ => panic!("should look the session up"),
    }
    match h.on_reply(CommandReply::Found(Ok(12)), &mut out) {
        Some(CommandRequest::SetCurrentSession(12)) => {}
        _ => panic!("should switch"),
    }
    assert!(h.on_reply(CommandReply::CurrentSet, &mut out).is_none());
    let shown = render(&out);
    assert_eq!(shown[1], "line:🔄 Switched to session: 'Work'");
    assert_eq!(shown[4], "line:📍 Current session: Work (ID: 12)");
}

#[test]
fn list_command() {
    let mut h = CommandHandler::new();
    let mut out = TermOutput::new();
    assert!(matches!(h.handle_command("/list", &mut out), Some(CommandRequest::ListSessions)));
    h.on_reply(
        CommandReply::Listed(Ok(vec![
            session(2, Some("Work"), Some("chef"), None),
            session(3, None, None, None),
            session(1, Some("Home"), None, None),
        ])),
        &mut out,
    );
    assert_eq!(
        render(&out),
        vec![
            "line:📚 Saved Sessions:",
            "line:─────────────────",
            "line:• Work (ID: 2) 🎭 chef",
            "line:• Home (ID: 1)",
        ]
    );
    let mut out = TermOutput::new();
    h.handle_command("/list", &mut out);
    h.on_reply(CommandReply::Listed(Ok(vec![])), &mut out);
    assert_eq!(render(&out), vec!["line:No saved sessions found."]);
}

#[test]
fn role_commands() {
    let mut h = CommandHandler::new();
    let mut out = TermOutput::new();
    assert!(matches!(h.handle_command("/role", &mut out), Some(CommandRequest::SessionInfo)));
    h.on_reply(CommandReply::Info(Ok(session(1, None, None, None))), &mut out);
    assert!(matches!(h.handle_command("/role", &mut out), Some(CommandRequest::SessionInfo)));
    h.on_reply(CommandReply::Info(Ok(session(1, None, Some("chef"), None))), &mut out);
    match h.handle_command("/role  wizard ", &mut out) {
        Some(CommandRequest::SetRole(r)) => assert_eq!(r, "wizard"),
        _ => panic!("should set the role"),
    }
    h.on_reply(CommandReply::RoleSet(Ok(())), &mut out);
    assert_eq!(
        render(&out),
        vec![
            "line:🎭 No role set (the model will respond as default assistant)",
            "line:🎭 Current role: 'chef'",
            "line:",
            "line:🎭 Role set to: 'wizard'",
            "line:",
        ]
    );
}

#[test]
fn model_command_by_number() {
    let mut h = CommandHandler::new();
    let mut out = TermOutput::new();
    assert!(matches!(h.handle_command("/model 2", &mut out), Some(CommandRequest::AvailableModels)));
    let models = vec![model("model-a", "A"), model("model-b", "B")];
    match h.on_reply(CommandReply::Models(Ok(models)), &mut out) {
        Some(CommandRequest::SetModel(m)) => assert_eq!(m, "model-b"),
        _ => panic!("should set the second model"),
    }
    h.on_reply(CommandReply::ModelSet(Ok(())), &mut out);
    assert_eq!(render(&out), vec!["line:", "line:🤖 Model set to: 'model-b'", "line:"]);
}

#[test]
fn model_command_out_of_range_and_by_id() {
    let mut h = CommandHandler::new();
    let mut out = TermOutput::new();
    h.handle_command("/model 3", &mut out);
    assert!(h.on_reply(CommandReply::Models(Ok(vec![model("model-a", "A")])), &mut out).is_none());
    assert_eq!(render(&out), vec!["line:", "line:❌ Invalid model number: 3", "line:"]);
    match h.handle_command("/model model-opus", &mut out) {
        Some(CommandRequest::SetModel(m)) => assert_eq!(m, "model-opus"),
        _ => panic!("should set the model by id"),
    }
    match h.handle_command("/model 99999999999999999999", &mut out) {
        Some(CommandRequest::SetModel(m)) => assert_eq!(m, "99999999999999999999"),
        _ => panic!("a number past 64 bits is taken as an id"),
    }
}

#[test]
fn model_command_alone_shows_current_and_list() {
    let mut h = CommandHandler::new();
    let mut out = TermOutput::new();
    assert!(matches!(h.handle_command("/model", &mut out), Some(CommandRequest::SessionInfo)));
    assert!(matches!(
        h.on_reply(CommandReply::Info(Ok(session(1, None, None, None))), &mut out),
        Some(CommandRequest::AvailableModels)
    ));
    h.on_reply(
        CommandReply::Models(Ok(vec![model("model-a", "Alpha"), model("model-b", "Beta")])),
        &mut out,
    );
    assert_eq!(
        render(&out),
        vec![
            "line:🤖 No model set (using the server's default model)",
            "line:Available models:",
            "line:  1. Alpha (model-a)",
            "line:  2. Beta (model-b)",
        ]
    );
}

#[test]
fn mismatched_reply_is_ignored() {
    let mut h = CommandHandler::new();
    let mut out = TermOutput::new();
    h.handle_command("/list", &mut out);
    assert!(h.on_reply(CommandReply::CurrentSet, &mut out).is_none());
    assert!(h.is_idle());
    assert!(out.actions.is_empty());
}

// ---------------------------------------------------------------------------
// Line editor
// ---------------------------------------------------------------------------

#[test]
fn filtered_commands_by_prefix() {
    assert_eq!(get_filtered_commands("/r"), vec!["/resume".to_string(), "/role".to_string()]);
    assert_eq!(get_filtered_commands("/").len(), 8);
    assert!(get_filtered_commands("/x").is_empty());
    assert_eq!(get_filtered_commands("/model"), vec!["/model".to_string()]);
}

#[test]
fn typing_a_slash_opens_the_dropdown_and_enter_completes() {
    let mut r = InputReader::new();
    for c in "/r".chars() {
        assert!(r.handle_key(Key::Char(c)).is_none());
    }
    assert!(r.show_dropdown);
    assert!(r.handle_key(Key::ArrowDown).is_none());
    assert_eq!(r.selected_index, 1);
    assert!(r.handle_key(Key::ArrowDown).is_none());
    assert_eq!(r.selected_index, 0);
    assert!(r.handle_key(Key::ArrowUp).is_none());
    assert_eq!(r.selected_index, 1);
    assert_eq!(r.handle_key(Key::Enter), Some("/role".to_string()));
}

#[test]
fn escape_and_backspace_close_the_dropdown() {
    let mut r = InputReader::new();
    r.handle_key(Key::Char('/'));
    r.handle_key(Key::ArrowDown);
    r.handle_key(Key::Escape);
    assert!(!r.show_dropdown);
    assert_eq!(r.selected_index, 0);
    assert_eq!(r.handle_key(Key::Enter), Some("/".to_string()));
    let mut r = InputReader::new();
    r.handle_key(Key::Char('/'));
    r.handle_key(Key::Backspace);
    assert!(!r.show_dropdown);
    assert_eq!(r.input, "");
    r.handle_key(Key::Backspace);
    r.handle_key(Key::Other);
    r.handle_key(Key::Char('h'));
    r.handle_key(Key::Char('i'));
    assert!(!r.show_dropdown);
    assert_eq!(r.handle_key(Key::Enter), Some("hi".to_string()));
}

#[test]
fn editor_drawing() {
    let mut r = InputReader::new();
    let mut out = TermOutput::new();
    r.redraw(&mut out);
    assert_eq!(render(&out), vec!["clear-line", "line:", "str:You: "]);
    r.handle_key(Key::Char('/'));
    r.handle_key(Key::Char('m'));
    let mut out = TermOutput::new();
    r.redraw(&mut out);
    assert_eq!(
        render(&out),
        vec!["clear-line", "str:You: /m", "line:", "line:  → /model", "up:1", "up:1"]
    );
    assert_eq!(r.dropdown_lines, 1);
    let mut out = TermOutput::new();
    r.redraw(&mut out);
    assert_eq!(render(&out)[..3].to_vec(), vec!["down:1", "clear-line", "up:1"]);
    let mut out = TermOutput::new();
    r.finalize_input("/model", &mut out);
    assert_eq!(
        render(&out),
        vec!["down:1", "clear-line", "up:1", "down:1", "clear-line", "up:1", "clear-line", "str:You: /model", "line:"]
    );
    let mut out = TermOutput::new();
    r.clear_dropdown(&mut out);
    assert_eq!(r.dropdown_lines, 0);
    r.begin_line();
    assert_eq!(r.input, "");
}

// ---------------------------------------------------------------------------
// Chat loop
// ---------------------------------------------------------------------------

#[test]
fn typed_lines_are_classified() {
    assert!(matches!(classify_input("   "), InputAction::Skip));
    assert!(matches!(classify_input(" EXIT "), InputAction::Exit));
    assert!(matches!(classify_input("Quit"), InputAction::Exit));
    match classify_input("  /list ") {
        InputAction::Command(c) => assert_eq!(c, "/list"),
        _ => panic!("a command"),
    }
    match classify_input(" hello there ") {
        InputAction::Chat(c) => assert_eq!(c, "hello there"),
        _ => panic!("a chat message"),
    }
    match classify_input("exits") {
        InputAction::Chat(c) => assert_eq!(c, "exits"),
        _ => panic!("a chat message"),
    }
    assert!(equal_ignoring_ascii_case("ExIt", "exit"));
    assert!(!equal_ignoring_ascii_case("exi", "exit"));
}

#[test]
fn lines_follow_str_lines() {
    for s in ["", "a", "a\n", "a\r\nb", "a\n\nb\n", "x\r", "\n", "a\rb\n"] {
        let expected: Vec<String> = s.lines().map(|l| l.to_string()).collect();
        assert_eq!(lines(s), expected, "input {:?}", s);
    }
}

#[test]
fn reply_layout() {
    let mut out = TermOutput::new();
    write_reply(&mut out, "Hi\n  \nthere");
    let sep = "───────────────────────────────────────────────────────────────────";
    assert_eq!(
        render(&out),
        vec![
            "line:".to_string(),
            "line:Assistant:".to_string(),
            "line:".to_string(),
            "line:Hi".to_string(),
            "line:".to_string(),
            "line:there".to_string(),
            "line:".to_string(),
            format!("line:{}", sep),
            "line:".to_string(),
        ]
    );
    match &out.actions[1] {
        TermAction::WriteLine(segs) => assert!(segs[0].style == TextStyle::BlueBold),
        _ => panic!("a line"),
    }
}

#[test]
fn screen_pieces() {
    let mut out = TermOutput::new();
    write_greeting(&mut out);
    write_separator(&mut out);
    write_goodbye(&mut out);
    clear_screen(&mut out);
    write_spaced_line(&mut out, "x".to_string());
    write_error(&mut out, "bad".to_string());
    write_session_info(&mut out, 3, "Work".to_string());
    write_command_help(&mut out);
    let shown = render(&out);
    assert_eq!(
        shown[0],
        "line:💬 Chat started! Type exit, quit, or press Ctrl+C to end the conversation."
    );
    assert_eq!(shown[3], "line:Goodbye! 👋");
    assert_eq!(shown[5], "clear-screen");
    assert_eq!(shown[7], "line:x");
    assert_eq!(shown[10], "line:❌ bad");
    assert_eq!(shown[13], "line:📍 Current session: Work (ID: 3)");
    match &out.actions[10] {
        TermAction::WriteLine(segs) => assert!(segs[1].style == TextStyle::Red),
        _ => panic!("a line"),
    }
}

#[test]
fn moving_down_from_the_largest_index_wraps_without_overflow() {
    let mut r = InputReader::new();
    r.handle_key(Key::Char('/'));
    r.handle_key(Key::Char('r'));
    r.selected_index = usize::MAX;
    assert!(r.handle_key(Key::ArrowDown).is_none());
    assert_eq!(r.selected_index, ((usize::MAX as u128 + 1) % 2) as usize);
}
