use clai::db::{ClaiDb, Message, Session};
use clai::error::{ClaiError, DbError};

#[test]
fn test_create_session() {
    let mut db = ClaiDb::new();
    let session = db
        .create_session("test_session", Some("Test Session"), 1_700_000_000_000_000)
        .ok()
        .expect("Failed to create session");

    assert_eq!(session.name, "test_session");
    assert_eq!(session.display_name, Some("Test Session".to_string()));
    assert!(session.id > 0);
}

#[test]
fn test_find_session_by_id() {
    let mut db = ClaiDb::new();
    let created_session = db
        .create_session("test_session", Some("Test Session"), 1_700_000_000_000_000)
        .ok()
        .expect("Failed to create session");

    let found_session = db
        .get_session_by_id(created_session.id)
        .ok()
        .expect("Session not found");

    assert_eq!(found_session.name, "test_session");
    assert_eq!(found_session.display_name, Some("Test Session".to_string()));
}

#[test]
fn test_find_session_by_display_name() {
    let mut db = ClaiDb::new();
    let _created_session = db
        .create_session("test_session", Some("Named Session"), 1_700_000_000_000_000)
        .ok()
        .expect("Failed to create session");

    let found_session = db
        .get_session_by_name("Named Session")
        .ok()
        .expect("Session not found");

    assert_eq!(found_session.display_name, Some("Named Session".to_string()));
}

#[test]
fn test_list_named_sessions() {
    let mut db = ClaiDb::new();
    let _unnamed = db
        .create_session("unnamed", None, 1_700_000_000_000_000)
        .ok()
        .expect("Failed to create unnamed session");
    let _named1 = db
        .create_session("named1", Some("Named Session 1"), 1_700_000_000_000_000)
        .ok()
        .expect("Failed to create named session 1");
    let _named2 = db
        .create_session("named2", Some("Named Session 2"), 1_700_000_000_000_000)
        .ok()
        .expect("Failed to create named session 2");

    let named_sessions = db.list_named_sessions();

    assert_eq!(named_sessions.len(), 2);
    assert!(named_sessions.iter().all(|s| s.display_name.is_some()));
}

#[test]
fn test_create_message() {
    let mut db = ClaiDb::new();
    let session = db
        .create_session("test_session", Some("Test Session"), 1_700_000_000_000_000)
        .ok()
        .expect("Failed to create session");

    let message = db
        .create_message(session.id, "user", "Hello, world!", 1_700_000_000_000_000)
        .ok()
        .expect("Failed to create message");

    assert_eq!(message.session_id, session.id);
    assert_eq!(message.role, "user");
    assert_eq!(message.content, "Hello, world!");
    assert!(message.id > 0);
}

#[test]
fn test_get_session_messages() {
    let mut db = ClaiDb::new();
    let session = db
        .create_session("test_session", Some("Test Session"), 1_700_000_000_000_000)
        .ok()
        .expect("Failed to create session");

    let _message1 = db
        .create_message(session.id, "user", "First message", 1_700_000_000_000_000)
        .ok()
        .expect("Failed to create first message");
    let _message2 = db
        .create_message(session.id, "assistant", "Second message", 1_700_000_000_000_000)
        .ok()
        .expect("Failed to create second message");

    let messages = db.get_session_messages(session.id);

    assert_eq!(messages.len(), 2);
    assert_eq!(messages[0].content, "First message");
    assert_eq!(messages[1].content, "Second message");
    assert_eq!(messages[0].role, "user");
    assert_eq!(messages[1].role, "assistant");
}

#[test]
fn test_update_session() {
    let mut db = ClaiDb::new();
    let session = db
        .create_session("test_session", Some("Original Name"), 1_700_000_000_000_000)
        .ok()
        .expect("Failed to create session");

    let _ = db
        .update_session_display_name(session.id, "Updated Name")
        .ok()
        .expect("Failed to update session");
    let updated_session = db
        .update_session_role(session.id, Some("assistant"))
        .ok()
        .expect("Failed to update session");

    assert_eq!(updated_session.display_name, Some("Updated Name".to_string()));
    assert_eq!(updated_session.role, Some("assistant".to_string()));
}

#[test]
fn test_delete_session() {
    let mut db = ClaiDb::new();
    let session = db
        .create_session("test_session", Some("To Delete"), 1_700_000_000_000_000)
        .ok()
        .expect("Failed to create session");

    assert!(db.delete_session_by_name("To Delete").is_ok(), "Failed to delete session");

    let result = db.get_session_by_id(session.id);

    assert!(result.is_err());
}

// ---------------------------------------------------------------------------
// Further cases of the store
// ---------------------------------------------------------------------------

fn not_found_text(e: ClaiError) -> String {
    match e {
        ClaiError::Database(DbError::RecordNotFound(s)) => s,
        _ => panic!("expected a not-found error"),
    }
}

#[test]
fn ids_count_up_from_one_and_timestamps_are_kept() {
    let mut db = ClaiDb::new();
    let a = db.create_session("a", None, 100).ok().unwrap();
    let b = db.create_session("b", Some("B"), 200).ok().unwrap();
    assert_eq!(a.id, 1);
    assert_eq!(b.id, 2);
    assert_eq!(a.created_at, 100);
    assert_eq!(a.updated_at, 100);
    assert_eq!(a.role, None);
    assert_eq!(a.model, None);
}

#[test]
fn unknown_id_is_not_found() {
    let db = ClaiDb::new();
    let e = db.get_session_by_id(7).err().unwrap();
    assert_eq!(e.status_code(), 404);
    assert_eq!(not_found_text(e), "Session 7 not found");
}

#[test]
fn unknown_name_is_not_found() {
    let db = ClaiDb::new();
    let e = db.get_session_by_name("nope").err().unwrap();
    assert_eq!(not_found_text(e), "Session 'nope' not found");
}

#[test]
fn empty_store_has_no_last_session() {
    let db = ClaiDb::new();
    let e = db.get_last_session().err().unwrap();
    assert_eq!(not_found_text(e), "No sessions found");
}

#[test]
fn last_session_is_most_recently_updated() {
    let mut db = ClaiDb::new();
    let a = db.create_session("a", None, 100).ok().unwrap();
    let b = db.create_session("b", None, 200).ok().unwrap();
    assert_eq!(db.get_last_session().ok().unwrap().id, b.id);
    db.update_session_timestamp(a.id, 300).ok().unwrap();
    assert_eq!(db.get_last_session().ok().unwrap().id, a.id);
}

#[test]
fn last_session_tie_goes_to_the_later_row() {
    let mut db = ClaiDb::new();
    db.create_session("a", None, 100).ok().unwrap();
    let b = db.create_session("b", None, 100).ok().unwrap();
    assert_eq!(db.get_last_session().ok().unwrap().id, b.id);
}

#[test]
fn lookup_by_name_takes_the_newest_of_equal_names() {
    let mut db = ClaiDb::new();
    db.create_session("first", Some("Same"), 100).ok().unwrap();
    let second = db.create_session("second", Some("Same"), 200).ok().unwrap();
    db.create_session("third", Some("Other"), 300).ok().unwrap();
    assert_eq!(db.get_session_by_name("Same").ok().unwrap().id, second.id);
}

#[test]
fn named_sessions_are_listed_newest_first() {
    let mut db = ClaiDb::new();
    db.create_session("x", Some("Old"), 100).ok().unwrap();
    db.create_session("y", None, 300).ok().unwrap();
    db.create_session("z", Some("New"), 200).ok().unwrap();
    let names: Vec<Option<String>> =
        db.list_named_sessions().into_iter().map(|s: Session| s.display_name).collect();
    assert_eq!(names, vec![Some("New".to_string()), Some("Old".to_string())]);
}

#[test]
fn updates_of_missing_sessions_fail() {
    let mut db = ClaiDb::new();
    assert_eq!(
        not_found_text(db.update_session_display_name(3, "n").err().unwrap()),
        "Session 3 not found"
    );
    assert!(db.update_session_role(3, None).is_err());
    assert!(db.update_session_model(3, "m").is_err());
    assert!(db.update_session_timestamp(3, 0).is_err());
}

#[test]
fn role_can_be_cleared_and_model_set() {
    let mut db = ClaiDb::new();
    let s = db.create_session("s", None, 1_700_000_000_000_000).ok().unwrap();
    db.update_session_role(s.id, Some("pirate")).ok().unwrap();
    let cleared = db.update_session_role(s.id, None).ok().unwrap();
    assert_eq!(cleared.role, None);
    let m = db.update_session_model(s.id, "model-opus").ok().unwrap();
    assert_eq!(m.model, Some("model-opus".to_string()));
    assert_eq!(db.get_session_by_id(s.id).ok().unwrap().model, Some("model-opus".to_string()));
}

#[test]
fn message_for_missing_session_is_refused() {
    let mut db = ClaiDb::new();
    match db.create_message(9, "user", "hi", 1_700_000_000_000_000).err().unwrap() {
        ClaiError::Database(DbError::Exec(s)) => assert_eq!(s, "FOREIGN KEY constraint failed"),
        _ => panic!("expected an execution error"),
    }
}

#[test]
fn messages_come_back_oldest_first_per_session() {
    let mut db = ClaiDb::new();
    let a = db.create_session("a", None, 1).ok().unwrap();
    let b = db.create_session("b", None, 2).ok().unwrap();
    db.create_message(a.id, "user", "late", 50).ok().unwrap();
    db.create_message(b.id, "user", "other", 10).ok().unwrap();
    db.create_message(a.id, "assistant", "early", 20).ok().unwrap();
    let texts: Vec<String> =
        db.get_session_messages(a.id).into_iter().map(|m: Message| m.content).collect();
    assert_eq!(texts, vec!["early".to_string(), "late".to_string()]);
}

#[test]
fn delete_by_name_removes_the_messages_too() {
    let mut db = ClaiDb::new();
    let s = db.create_session("s", Some("Gone"), 1_700_000_000_000_000).ok().unwrap();
    let t = db.create_session("t", Some("Kept"), 1_700_000_000_000_000).ok().unwrap();
    db.create_message(s.id, "user", "one", 1_700_000_000_000_000).ok().unwrap();
    db.create_message(t.id, "user", "two", 1_700_000_000_000_000).ok().unwrap();
    db.delete_session_by_name("Gone").ok().unwrap();
    assert_eq!(db.get_session_messages(s.id).len(), 0);
    assert_eq!(db.get_session_messages(t.id).len(), 1);
    assert_eq!(db.all_messages().len(), 1);
}

#[test]
fn deleting_an_unknown_name_changes_nothing() {
    let mut db = ClaiDb::new();
    db.create_session("s", Some("Here"), 1_700_000_000_000_000).ok().unwrap();
    let e = db.delete_session_by_name("Elsewhere").err().unwrap();
    assert_eq!(not_found_text(e), "Session 'Elsewhere' not found");
    assert_eq!(db.all_sessions().len(), 1);
}

#[test]
fn cleanup_keeps_named_sessions_and_the_newest() {
    let mut db = ClaiDb::new();
    let old_unnamed = db.create_session("u1", None, 100).ok().unwrap();
    let named = db.create_session("n", Some("Named"), 150).ok().unwrap();
    let newest = db.create_session("u2", None, 200).ok().unwrap();
    db.create_message(old_unnamed.id, "user", "a", 101).ok().unwrap();
    db.create_message(old_unnamed.id, "assistant", "b", 102).ok().unwrap();
    let removed = db.cleanup_old_sessions().ok().unwrap();
    assert_eq!(removed, 3);
    let ids: Vec<i32> = db.all_sessions().into_iter().map(|s: Session| s.id).collect();
    assert_eq!(ids, vec![named.id, newest.id]);
    assert_eq!(db.all_messages().len(), 0);
    assert_eq!(db.cleanup_old_sessions().ok().unwrap(), 0);
}

#[test]
fn cleanup_of_empty_store_removes_nothing() {
    let mut db = ClaiDb::new();
    assert_eq!(db.cleanup_old_sessions().ok().unwrap(), 0);
}

#[test]
fn snapshot_restores_the_same_rows() {
    let mut db = ClaiDb::new();
    let s = db.create_session("s", Some("S"), 5).ok().unwrap();
    db.create_message(s.id, "user", "hello", 6).ok().unwrap();
    let back = ClaiDb::restore(db.all_sessions(), db.all_messages()).unwrap();
    let sessions = back.all_sessions();
    assert_eq!(sessions.len(), 1);
    assert_eq!(sessions[0].display_name, Some("S".to_string()));
    assert_eq!(back.all_messages()[0].content, "hello");
    let mut back = back;
    assert_eq!(back.create_session("t", None, 7).ok().unwrap().id, 2);
}

#[test]
fn restore_refuses_rows_that_do_not_fit() {
    let s = |id: i32| Session {
        id,
        name: "n".to_string(),
        display_name: None,
        created_at: 0,
        updated_at: 0,
        role: None,
        model: None,
    };
    let m = |id: i32, sid: i32| Message {
        id,
        session_id: sid,
        role: "user".to_string(),
        content: "c".to_string(),
        created_at: 0,
    };
    assert!(ClaiDb::restore(vec![s(2), s(1)], vec![]).is_none());
    assert!(ClaiDb::restore(vec![s(0)], vec![]).is_none());
    assert!(ClaiDb::restore(vec![s(1)], vec![m(1, 5)]).is_none());
    assert!(ClaiDb::restore(vec![s(i32::MAX)], vec![]).is_none());
    assert!(ClaiDb::restore(vec![s(1), s(4)], vec![m(3, 4), m(7, 1)]).is_some());
    assert!(ClaiDb::restore(vec![], vec![]).is_some());
}

#[test]
fn identifier_space_can_run_out() {
    let last = Session {
        id: i32::MAX - 1,
        name: "n".to_string(),
        display_name: None,
        created_at: 0,
        updated_at: 0,
        role: None,
        model: None,
    };
    let mut db = ClaiDb::restore(vec![last], vec![]).unwrap();
    match db.create_session("more", None, 1).err().unwrap() {
        ClaiError::Database(DbError::Exec(s)) => assert_eq!(s, "database or disk is full"),
        _ => panic!("expected an execution error"),
    }
    assert_eq!(db.all_sessions().len(), 1);
}
