use agent_host::self_update::{
    commit_session, prepare_plugin_update, record_plugin_update, rollback_session, start_session,
    SessionError, SessionTable,
};

#[test]
fn session_lifecycle() {
    let mut t = SessionTable::new();
    let id = start_session(&mut t, "abc123".to_string());
    assert_eq!(id.len(), 36);
    assert!(t.contains(&id));

    let w = prepare_plugin_update(&t, &id, "system_core/main_loop.lua").ok().unwrap();
    assert_eq!(w.path, "agent_plugins/system_core/main_loop.lua");
    assert_eq!(w.reply, "Updated system_core/main_loop.lua");
    record_plugin_update(&mut t, &id, w.path);

    let plan = commit_session(&t, &id, "improve loop").ok().unwrap();
    assert_eq!(plan.message, format!("improve loop [session:{}]", id));
    assert_eq!(plan.reply, format!("Committed session {}", id));

    let files = rollback_session(&mut t, &id).ok().unwrap();
    assert_eq!(files, vec!["agent_plugins/system_core/main_loop.lua".to_string()]);
    assert!(!t.contains(&id));
}

#[test]
fn updates_outside_system_core_are_refused() {
    let mut t = SessionTable::new();
    let id = start_session(&mut t, "base".to_string());
    match prepare_plugin_update(&t, &id, "skills/x.md") {
        Err(e) => {
            assert!(matches!(e, SessionError::OutsideSystemCore { .. }));
            assert_eq!(e.message(), "Can only modify files under system_core/, got: skills/x.md");
        }
        Ok(_) => panic!("accepted"),
    }
}

#[test]
fn unknown_sessions_are_refused() {
    let mut t = SessionTable::new();
    match prepare_plugin_update(&t, "nope", "system_core/a.lua") {
        Err(e) => assert_eq!(e.message(), "Session not found"),
        Ok(_) => panic!("accepted"),
    }
    assert!(matches!(commit_session(&t, "nope", "m"), Err(SessionError::NotFound)));
    assert!(matches!(rollback_session(&mut t, "nope"), Err(SessionError::NotFound)));
}

#[test]
fn sessions_are_independent() {
    let mut t = SessionTable::new();
    let a = start_session(&mut t, "b".to_string());
    let b = start_session(&mut t, "b".to_string());
    assert_ne!(a, b);
    record_plugin_update(&mut t, &a, "agent_plugins/system_core/x.lua".to_string());
    let fb = rollback_session(&mut t, &b).ok().unwrap();
    assert!(fb.is_empty());
    assert!(t.contains(&a));
    let fa = rollback_session(&mut t, &a).ok().unwrap();
    assert_eq!(fa.len(), 1);
}

#[test]
fn updates_leaving_plugins_are_refused() {
    let mut t = SessionTable::new();
    let id = start_session(&mut t, "base".to_string());
    match prepare_plugin_update(&t, &id, "system_core/../../agent_host/src/main.rs") {
        Err(e) => {
            assert!(matches!(e, SessionError::ParentReference { .. }));
            assert_eq!(
                e.message(),
                "File name must not contain '..', got: system_core/../../agent_host/src/main.rs"
            );
        }
        Ok(_) => panic!("accepted"),
    }
    assert!(prepare_plugin_update(&t, &id, "system_core/main_loop.lua").is_ok());
}
