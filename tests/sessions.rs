use brk::{AgentConfig, PromptSources, Role, Session, SessionError, SessionManager, Timestamp};

fn sources() -> PromptSources {
    PromptSources { agent: "role".to_string(), soul: String::new(), user: String::new() }
}

fn session_at(t: Timestamp) -> Session {
    let mut s = Session::new("abc".to_string(), AgentConfig::default(), &sources(), t);
    s.context_mut().add_user("hi");
    s.context_mut().add_assistant("hello", None);
    s
}

#[test]
fn save_then_load_reproduces_session() {
    let t = Timestamp { secs: 1_700_000_000, nanos: 123_456_789 };
    let s = session_at(t);
    let record = s.to_record();
    let now = Timestamp { secs: 5, nanos: 0 };
    let back = Session::from_record_at(record, now);
    assert_eq!(back.id(), "abc");
    assert_eq!(back.context().system_prompt(), s.context().system_prompt());
    let a: Vec<(Role, String)> = back.context().raw_messages().iter().map(|m| (m.role, m.content.clone())).collect();
    let b: Vec<(Role, String)> = s.context().raw_messages().iter().map(|m| (m.role, m.content.clone())).collect();
    assert_eq!(a, b);
    assert_eq!(back.metadata().created_at, t);
    assert_eq!(back.metadata().updated_at, t);
    assert_eq!(back.metadata().message_count, 2);
}

#[test]
fn record_times_are_rfc3339() {
    let s = session_at(Timestamp { secs: 0, nanos: 0 });
    let r = s.to_record();
    assert_eq!(r.created_at, "1970-01-01T00:00:00+00:00");
    assert_eq!(r.id, "abc");
    assert_eq!(r.messages.len(), 2);
}

#[test]
fn malformed_time_becomes_now() {
    let s = session_at(Timestamp { secs: 1_000, nanos: 0 });
    let mut record = s.to_record();
    record.created_at = "yesterday".to_string();
    let now = Timestamp { secs: 42, nanos: 7 };
    let back = Session::from_record_at(record, now);
    assert_eq!(back.metadata().created_at, now);
    assert_eq!(back.metadata().updated_at, Timestamp { secs: 1_000, nanos: 0 });
}

#[test]
fn new_session_is_empty() {
    let t = Timestamp { secs: 10, nanos: 0 };
    let s = Session::new("id1".to_string(), AgentConfig::default(), &sources(), t);
    assert!(s.context().is_empty());
    assert_eq!(s.context().system_prompt(), "## 角色定义\nrole");
    assert_eq!(s.metadata().message_count, 0);
    assert!(s.metadata().name.is_none());
    assert_eq!(s.metadata().created_at, t);
}

#[test]
fn create_makes_current_and_names() {
    let mut m = SessionManager::new("/tmp/s".to_string());
    let id = m.create(Some("work".to_string()), AgentConfig::default(), &sources()).id().to_string();
    assert_eq!(m.current_session_id(), Some(id.as_str()));
    assert_eq!(m.get(&id).unwrap().metadata().name.as_deref(), Some("work"));
    assert_eq!(id.len(), 36);
    let other = m.create(None, AgentConfig::default(), &sources()).id().to_string();
    assert_ne!(id, other);
    assert_eq!(m.list().len(), 2);
}

#[test]
fn switch_only_to_existing() {
    let mut m = SessionManager::new("/tmp/s".to_string());
    let a = m.create(None, AgentConfig::default(), &sources()).id().to_string();
    let b = m.create(None, AgentConfig::default(), &sources()).id().to_string();
    assert_eq!(m.current_session_id(), Some(b.as_str()));
    assert!(m.switch(&a));
    assert_eq!(m.current_session_id(), Some(a.as_str()));
    assert!(!m.switch("missing"));
    assert_eq!(m.current_session_id(), Some(a.as_str()));
}

#[test]
fn delete_current_clears_it() {
    let mut m = SessionManager::new("/tmp/s".to_string());
    let a = m.create(None, AgentConfig::default(), &sources()).id().to_string();
    assert!(m.delete(&a));
    assert!(m.current_session_id().is_none());
    assert!(m.get(&a).is_none());
    assert!(!m.delete(&a));
    assert!(matches!(m.save_current(), Err(SessionError::NoCurrent)));
    assert_eq!(SessionError::NoCurrent.message(), "没有当前会话");
}

#[test]
fn save_unknown_is_not_found() {
    let m = SessionManager::new("/tmp/s".to_string());
    match m.save("nope") {
        Err(e) => assert_eq!(e.message(), "会话不存在：nope"),
        Ok(_) => panic!("expected an error"),
    }
}

#[test]
fn load_all_skips_unreadable() {
    let s = session_at(Timestamp { secs: 1, nanos: 0 });
    let mut m = SessionManager::new("/tmp/s".to_string());
    m.load_all(vec![("abc".to_string(), Some(s.to_record())), ("bad".to_string(), None)]);
    assert!(m.get("abc").is_some());
    assert!(m.get("bad").is_none());
    assert_eq!(m.list().len(), 1);
    assert!(m.current_session_id().is_none());
    assert_eq!(m.get("abc").unwrap().context().len(), 2);
}

#[test]
fn load_replaces_same_id() {
    let mut m = SessionManager::new("/tmp/s".to_string());
    let s = session_at(Timestamp { secs: 1, nanos: 0 });
    m.load("abc", s.to_record());
    let mut r2 = s.to_record();
    r2.system_prompt = "other".to_string();
    m.load("abc", r2);
    assert_eq!(m.list().len(), 1);
    assert_eq!(m.get("abc").unwrap().context().system_prompt(), "other");
}

#[test]
fn rename_sets_name() {
    let mut m = SessionManager::new("/tmp/s".to_string());
    let id = m.create(None, AgentConfig::default(), &sources()).id().to_string();
    m.get_mut(&id).unwrap().rename("n2");
    assert_eq!(m.current().unwrap().metadata().name.as_deref(), Some("n2"));
}

#[test]
fn resolve_id_exact_then_prefix() {
    let mut m = SessionManager::new("/tmp/s".to_string());
    let s = session_at(Timestamp { secs: 1, nanos: 0 });
    m.load("abc123", s.to_record());
    m.load("abd999", s.to_record());
    assert_eq!(m.resolve_id("abc123").as_deref(), Some("abc123"));
    assert_eq!(m.resolve_id("abd").as_deref(), Some("abd999"));
    assert!(m.resolve_id("zz").is_none());
    assert!(m.resolve_id("ab").is_some());
}

#[test]
fn message_count_follows_history() {
    let mut s = Session::new("c".to_string(), AgentConfig::default(), &sources(), Timestamp { secs: 3, nanos: 0 });
    assert_eq!(s.metadata().message_count, 0);
    s.context_mut().add_user("one");
    assert_eq!(s.metadata().message_count, 1);
    s.context_mut().clear();
    assert_eq!(s.metadata().message_count, 0);
}

#[test]
fn created_session_has_equal_times() {
    let mut m = SessionManager::new("/tmp/s".to_string());
    let s = m.create(Some("named".to_string()), AgentConfig::default(), &sources());
    assert_eq!(s.metadata().created_at, s.metadata().updated_at);
    assert_eq!(s.metadata().name.as_deref(), Some("named"));
}

#[test]
fn load_all_keeps_last_record_and_others() {
    let a = session_at(Timestamp { secs: 1, nanos: 0 });
    let mut first = a.to_record();
    first.system_prompt = "first".to_string();
    let mut second = a.to_record();
    second.system_prompt = "second".to_string();
    let mut m = SessionManager::new("/tmp/s".to_string());
    let kept = m.create(None, AgentConfig::default(), &sources()).id().to_string();
    m.load_all(vec![
        ("abc".to_string(), Some(first)),
        ("abc".to_string(), Some(second)),
        ("abc".to_string(), None),
    ]);
    assert_eq!(m.get("abc").unwrap().context().system_prompt(), "second");
    assert!(m.get(&kept).is_some());
    assert_eq!(m.list().len(), 2);
}
