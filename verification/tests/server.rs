use clai::config::{
    default_allowed_origins, default_database_url, default_server_host,
    default_server_port, default_server_url, Config, DEFAULT_SERVER_PORT,
};
use clai::db::ClaiDb;
use clai::error::{ClaiError, DbError};
use clai::handlers;
use clai::http_utils::HttpUtils;
use clai::search::{
    file_name_matches, find_result_text, lowered_name_matches, should_enter_directory,
};
use clai::types::{
    ClaudeModel, CreateSessionRequest, SaveSessionRequest, SessionResponse, SetModelRequest, SetRoleRequest,
};

fn create(db: &mut ClaiDb, name: &str, display: Option<&str>) -> SessionResponse {
    handlers::create_session(
        db,
        CreateSessionRequest { name: name.to_string(), display_name: display.map(|d| d.to_string()) },
        1_700_000_000_000_000,
    )
    .ok()
    .expect("Failed to create session")
}

fn sample_config(port: u16, origins: &str) -> Config {
    Config {
        clai_server_url: default_server_url(),
        anthropic_api_key: "sk-test-key-for-tests".to_string(),
        database_url: default_database_url(),
        clai_server_host: default_server_host(),
        clai_server_port: port,
        allowed_origins: origins.to_string(),
        default_model: None,
    }
}

// ---------------------------------------------------------------------------
// Handlers
// ---------------------------------------------------------------------------

#[test]
fn health_endpoint_answers_ok() {
    assert_eq!(handlers::health(), 200);
}

#[test]
fn create_session_with_display_name() {
    let mut db = ClaiDb::new();
    let session = create(&mut db, "test_session", Some("Test Session"));
    assert_eq!(session.name, "test_session");
    assert_eq!(session.display_name, Some("Test Session".to_string()));
    assert!(session.id > 0);
}

#[test]
fn create_session_without_display_name() {
    let mut db = ClaiDb::new();
    let session = create(&mut db, "anonymous_session", None);
    assert_eq!(session.name, "anonymous_session");
    assert_eq!(session.display_name, None);
    assert!(session.id > 0);
}

#[test]
fn get_session_by_id_after_create() {
    let mut db = ClaiDb::new();
    let created = create(&mut db, "test_session", Some("Test Session"));
    let fetched = handlers::get_session_by_id(&db, created.id).ok().unwrap();
    assert_eq!(fetched.id, created.id);
    assert_eq!(fetched.name, "test_session");
    assert_eq!(fetched.display_name, Some("Test Session".to_string()));
}

#[test]
fn get_nonexistent_session_by_id_is_404() {
    let db = ClaiDb::new();
    let e = handlers::get_session_by_id(&db, 99999).err().unwrap();
    assert_eq!(e.status_code(), 404);
    assert_eq!(e.to_text(), "Database error: RecordNotFound Error: Session 99999 not found");
}

#[test]
fn last_session_after_two_creates() {
    let mut db = ClaiDb::new();
    create(&mut db, "session1", Some("First Session"));
    let second = create(&mut db, "session2", Some("Second Session"));
    let last = handlers::get_last_session(&mut db, 1_700_000_000_000_000).ok().unwrap();
    assert!(last.id > 0);
    assert!(last.display_name.is_some());
    assert_eq!(last.id, second.id);
}

#[test]
fn last_session_of_empty_store_is_404() {
    let mut db = ClaiDb::new();
    assert_eq!(handlers::get_last_session(&mut db, 1_700_000_000_000_000).err().unwrap().status_code(), 404);
}

#[test]
fn list_sessions_reports_only_named() {
    let mut db = ClaiDb::new();
    create(&mut db, "session1", Some("Named Session 1"));
    create(&mut db, "hidden", None);
    create(&mut db, "session2", Some("Named Session 2"));
    let sessions = handlers::list_sessions(&db);
    assert_eq!(sessions.len(), 2);
    assert!(sessions.iter().all(|s| s.display_name.is_some()));
    let names: Vec<&str> = sessions.iter().filter_map(|s| s.display_name.as_deref()).collect();
    assert!(names.contains(&"Named Session 1"));
    assert!(names.contains(&"Named Session 2"));
}

#[test]
fn save_session_renames() {
    let mut db = ClaiDb::new();
    let session = create(&mut db, "test_session", Some("Original Name"));
    let updated = handlers::save_session(
        &mut db,
        session.id,
        SaveSessionRequest { display_name: "Updated Name".to_string() },
    )
    .ok()
    .unwrap();
    assert_eq!(updated.display_name, Some("Updated Name".to_string()));
    assert_eq!(updated.id, session.id);
}

#[test]
fn set_session_role() {
    let mut db = ClaiDb::new();
    let session = create(&mut db, "test_session", Some("Test Session"));
    let updated = handlers::set_role(
        &mut db,
        session.id,
        SetRoleRequest { role: Some("helpful assistant".to_string()) },
    )
    .ok()
    .unwrap();
    assert_eq!(updated.role, Some("helpful assistant".to_string()));
}

#[test]
fn set_session_model() {
    let mut db = ClaiDb::new();
    let session = create(&mut db, "test_session", Some("Test Session"));
    let updated = handlers::set_model(
        &mut db,
        session.id,
        SetModelRequest { model: "sonnet-3".to_string() },
    )
    .ok()
    .unwrap();
    assert_eq!(updated.model, Some("sonnet-3".to_string()));
}

#[test]
fn get_session_by_display_name() {
    let mut db = ClaiDb::new();
    create(&mut db, "test_session", Some("Test Session"));
    let session = handlers::get_session_by_name(&mut db, "Test Session", 3).ok().unwrap();
    assert_eq!(session.display_name, Some("Test Session".to_string()));
}

#[test]
fn get_nonexistent_session_by_name_is_404() {
    let mut db = ClaiDb::new();
    let e = handlers::get_session_by_name(&mut db, "nonexistent", 3).err().unwrap();
    assert_eq!(e.status_code(), 404);
}

#[test]
fn delete_session_by_display_name() {
    let mut db = ClaiDb::new();
    let session = create(&mut db, "test_session", Some("To Delete"));
    assert!(handlers::delete_session(&mut db, "To Delete").is_ok());
    assert_eq!(handlers::get_session_by_id(&db, session.id).err().unwrap().status_code(), 404);
}

#[test]
fn lookups_touch_the_last_access_time() {
    let mut db = ClaiDb::new();
    let a = db.create_session("a", Some("A"), 1).ok().unwrap();
    db.create_session("b", Some("B"), 2).ok().unwrap();
    handlers::get_session_by_name(&mut db, "A", 3).ok().unwrap();
    assert_eq!(db.get_last_session().ok().unwrap().id, a.id);
}

// ---------------------------------------------------------------------------
// Chat
// ---------------------------------------------------------------------------

#[test]
fn chat_request_carries_history_role_and_model() {
    let mut db = ClaiDb::new();
    let s = db.create_session("s", None, 1).ok().unwrap();
    db.create_message(s.id, "user", "hi", 2).ok().unwrap();
    db.create_message(s.id, "assistant", "hello", 3).ok().unwrap();
    db.update_session_role(s.id, Some("pirate")).ok().unwrap();

    let req = handlers::prepare_chat(&db, s.id, "how are you?", Some("default-model")).ok().unwrap();
    assert_eq!(req.model, "default-model");
    assert_eq!(req.max_tokens, 1000);
    let turns: Vec<(String, String)> =
        req.messages.iter().map(|m| (m.role.clone(), m.content.clone())).collect();
    assert_eq!(
        turns,
        vec![
            ("user".to_string(), "hi".to_string()),
            ("assistant".to_string(), "hello".to_string()),
            ("user".to_string(), "how are you?".to_string()),
        ]
    );
    assert_eq!(
        req.system,
        Some(
            "You are a pirate. Please respond in character and provide expertise relevant to this role."
                .to_string()
        )
    );

    db.update_session_model(s.id, "haiku-3").ok().unwrap();
    let req = handlers::prepare_chat(&db, s.id, "again", Some("default-model")).ok().unwrap();
    assert_eq!(req.model, "haiku-3");
}

#[test]
fn chat_without_role_has_no_system_prompt() {
    let mut db = ClaiDb::new();
    let s = db.create_session("s", None, 1_700_000_000_000_000).ok().unwrap();
    let req = handlers::prepare_chat(&db, s.id, "x", Some("m")).ok().unwrap();
    assert_eq!(req.system, None);
    assert_eq!(req.messages.len(), 1);
}

#[test]
fn chat_without_any_model_is_a_configuration_error() {
    let mut db = ClaiDb::new();
    let s = db.create_session("s", None, 1_700_000_000_000_000).ok().unwrap();
    let e = handlers::prepare_chat(&db, s.id, "x", None).err().unwrap();
    assert_eq!(
        e.to_text(),
        "Configuration error: No model chosen for this session, none configured and none listed by the model API"
    );
    db.update_session_model(s.id, "chosen").ok().unwrap();
    assert_eq!(handlers::prepare_chat(&db, s.id, "x", None).ok().unwrap().model, "chosen");
}

#[test]
fn chat_for_unknown_session_fails_like_lookup() {
    let db = ClaiDb::new();
    let e = handlers::prepare_chat(&db, 5, "x", Some("m")).err().unwrap();
    assert_eq!(e.status_code(), 404);
}

#[test]
fn finished_chat_is_recorded_and_joined() {
    let mut db = ClaiDb::new();
    let s = db.create_session("s", None, 1_700_000_000_000_000).ok().unwrap();
    let parts = vec!["Hel".to_string(), "lo".to_string(), "!".to_string()];
    let reply = handlers::finish_chat(&mut db, s.id, "hi", &parts, 1_700_000_000_000_000).ok().unwrap();
    assert_eq!(reply.response, "Hello!");
    let stored = db.get_session_messages(s.id);
    assert_eq!(stored.len(), 2);
    assert_eq!((stored[0].role.as_str(), stored[0].content.as_str()), ("user", "hi"));
    assert_eq!((stored[1].role.as_str(), stored[1].content.as_str()), ("assistant", "Hello!"));
}

#[test]
fn next_turn_sends_the_recorded_exchange() {
    let mut db = ClaiDb::new();
    let s = db.create_session("s", None, 1_700_000_000_000_000).ok().unwrap();
    handlers::finish_chat(&mut db, s.id, "first question", &vec!["first answer".to_string()], 1_700_000_000_000_000)
        .ok()
        .unwrap();
    let req = handlers::prepare_chat(&db, s.id, "second question", Some("m")).ok().unwrap();
    let turns: Vec<(String, String)> =
        req.messages.iter().map(|m| (m.role.clone(), m.content.clone())).collect();
    assert_eq!(
        turns,
        vec![
            ("user".to_string(), "first question".to_string()),
            ("assistant".to_string(), "first answer".to_string()),
            ("user".to_string(), "second question".to_string()),
        ]
    );
}

#[test]
fn finished_chat_for_unknown_session_stores_nothing() {
    let mut db = ClaiDb::new();
    assert!(handlers::finish_chat(&mut db, 3, "hi", &vec![], 1_700_000_000_000_000).is_err());
    assert_eq!(db.all_messages().len(), 0);
}

#[test]
fn system_prompt_wording() {
    assert_eq!(
        handlers::system_prompt("chef"),
        "You are a chef. Please respond in character and provide expertise relevant to this role."
    );
}

#[test]
fn join_texts_concatenates() {
    assert_eq!(handlers::join_texts(&vec![]), "");
    assert_eq!(handlers::join_texts(&vec!["a".to_string(), "".to_string(), "bc".to_string()]), "abc");
}

// ---------------------------------------------------------------------------
// Errors and statuses
// ---------------------------------------------------------------------------

#[test]
fn error_status_mapping() {
    assert_eq!(ClaiError::Database(DbError::RecordNotFound("x".to_string())).status_code(), 404);
    assert_eq!(ClaiError::Database(DbError::Exec("x".to_string())).status_code(), 500);
    assert_eq!(ClaiError::Network("x".to_string()).status_code(), 502);
    assert_eq!(ClaiError::session("x".to_string()).status_code(), 400);
    assert_eq!(ClaiError::Serialization("x".to_string()).status_code(), 400);
    assert_eq!(ClaiError::server("x".to_string()).status_code(), 500);
    assert_eq!(ClaiError::config("x".to_string()).status_code(), 500);
    assert_eq!(ClaiError::Terminal("x".to_string()).status_code(), 500);
    assert_eq!(ClaiError::McpProtocol("x".to_string()).status_code(), 500);
}

#[test]
fn error_texts() {
    assert_eq!(ClaiError::server("boom".to_string()).to_text(), "Server error: boom");
    assert_eq!(ClaiError::session("s".to_string()).to_text(), "Session error: s");
    assert_eq!(ClaiError::config("c".to_string()).to_text(), "Configuration error: c");
    assert_eq!(ClaiError::Network("n".to_string()).to_text(), "Network error: n");
    assert_eq!(ClaiError::Terminal("t".to_string()).to_text(), "Terminal I/O error: t");
    assert_eq!(ClaiError::Serialization("j".to_string()).to_text(), "Serialization error: j");
    assert_eq!(ClaiError::McpProtocol("m".to_string()).to_text(), "MCP protocol error: m");
    assert_eq!(
        ClaiError::Database(DbError::Exec("e".to_string())).to_text(),
        "Database error: Execution Error: e"
    );
    let copy = ClaiError::server("boom".to_string()).duplicate();
    assert_eq!(copy.to_text(), "Server error: boom");
}

#[test]
fn upstream_status_checks() {
    assert!(HttpUtils::check_response_status("Anthropic API", 200, "200 OK").is_ok());
    assert!(HttpUtils::check_response_status("Anthropic API", 299, "299").is_ok());
    let e = HttpUtils::check_response_status("Anthropic API", 500, "500 Internal Server Error")
        .err()
        .unwrap();
    assert_eq!(e.to_text(), "Server error: Anthropic API returned error status: 500 Internal Server Error");
    assert!(HttpUtils::check_response_status("x", 199, "199").is_err());
    assert!(HttpUtils::check_response_status("x", 300, "300").is_err());
    assert_eq!(HttpUtils::network_error("Anthropic API", "refused".to_string()).status_code(), 502);
    assert_eq!(
        HttpUtils::json_parse_error("Anthropic API models", "bad".to_string()).to_text(),
        "Network error: bad"
    );
}

#[test]
fn load_config_maps_failures() {
    let ok = HttpUtils::load_config(Ok(sample_config(3500, "a"))).ok().unwrap();
    assert_eq!(ok.clai_server_port, 3500);
    let e = HttpUtils::load_config(Err("missing value for field anthropic_api_key".to_string()))
        .err()
        .unwrap();
    assert_eq!(
        e.to_text(),
        "Configuration error: Failed to load configuration: missing value for field anthropic_api_key"
    );
}

// ---------------------------------------------------------------------------
// Configuration
// ---------------------------------------------------------------------------

#[test]
fn configuration_defaults() {
    assert_eq!(default_server_url(), "http://localhost:3500");
    assert_eq!(default_database_url(), "sqlite://clai.db");
    assert_eq!(default_server_host(), "0.0.0.0");
    assert_eq!(default_server_port(), 3500);
    assert_eq!(DEFAULT_SERVER_PORT, 3500);
    assert_eq!(default_allowed_origins(), "http://localhost:5173");
}

#[test]
fn bind_address_joins_host_and_port() {
    assert_eq!(sample_config(3500, "").server_bind_address(), "0.0.0.0:3500");
    let mut c = sample_config(0, "");
    c.clai_server_host = "127.0.0.1".to_string();
    assert_eq!(c.server_bind_address(), "127.0.0.1:0");
    assert_eq!(sample_config(65535, "").server_bind_address(), "0.0.0.0:65535");
}

#[test]
fn allowed_origins_are_split_and_trimmed() {
    let c = sample_config(1, "http://a.test , http://b.test,,  http://c.test ");
    assert_eq!(
        c.allowed_origin_list(),
        vec![
            "http://a.test".to_string(),
            "http://b.test".to_string(),
            "".to_string(),
            "http://c.test".to_string(),
        ]
    );
    assert_eq!(sample_config(1, "").allowed_origin_list(), vec!["".to_string()]);
}

// ---------------------------------------------------------------------------
// File search tool
// ---------------------------------------------------------------------------

#[test]
fn file_names_match_without_case() {
    assert!(file_name_matches("README.md", "readme"));
    assert!(file_name_matches("main.rs", "MAIN"));
    assert!(file_name_matches("Cargo.toml", ""));
    assert!(!file_name_matches("lib.rs", "main"));
    assert!(lowered_name_matches("abcabd", "abd"));
    assert!(!lowered_name_matches("ab", "abc"));
}

#[test]
fn hidden_and_build_directories_are_skipped() {
    assert!(should_enter_directory("src"));
    assert!(!should_enter_directory(".git"));
    assert!(!should_enter_directory("target"));
    assert!(!should_enter_directory("node_modules"));
    assert!(!should_enter_directory("__pycache__"));
    assert!(should_enter_directory("targets"));
}

#[test]
fn find_reports() {
    assert_eq!(find_result_text("zz", &vec![]), "No files found matching 'zz'");
    assert_eq!(
        find_result_text("a", &vec!["/x/a.rs".to_string(), "/y/A.md".to_string()]),
        "Found 2 file(s) matching 'a':\n/x/a.rs\n/y/A.md"
    );
}

#[test]
fn server_default_model_prefers_configuration_then_the_api_list() {
    let listed = vec![
        ClaudeModel { id: "newest".to_string(), display_name: "N".to_string(), created_at: "2025".to_string() },
        ClaudeModel { id: "older".to_string(), display_name: "O".to_string(), created_at: "2024".to_string() },
    ];
    assert_eq!(handlers::default_chat_model(Some("configured"), &listed), Some("configured".to_string()));
    assert_eq!(handlers::default_chat_model(None, &listed), Some("newest".to_string()));
    assert_eq!(handlers::default_chat_model(None, &vec![]), None);
}
