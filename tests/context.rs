use brk::{Context, Message, PromptSources, Role};

fn history(n: usize) -> Context {
    let mut c = Context::new("prompt".to_string());
    for i in 0..n {
        c.add_user(&format!("m{}", i));
    }
    c
}

fn contents(c: &Context) -> Vec<String> {
    c.raw_messages().iter().map(|m| m.content.clone()).collect()
}

#[test]
fn truncate_keeps_last_messages_in_order() {
    let mut c = history(5);
    c.truncate(2);
    assert_eq!(contents(&c), vec!["m3".to_string(), "m4".to_string()]);
    assert_eq!(c.system_prompt(), "prompt");
}

#[test]
fn truncate_shorter_history_unchanged() {
    let mut c = history(3);
    c.truncate(3);
    assert_eq!(contents(&c), vec!["m0", "m1", "m2"]);
    c.truncate(10);
    assert_eq!(c.len(), 3);
}

#[test]
fn truncate_to_zero_empties() {
    let mut c = history(4);
    c.truncate(0);
    assert!(c.is_empty());
}

#[test]
fn messages_prepend_system_prompt() {
    let mut c = Context::new("sys".to_string());
    c.add_user("hi");
    c.add_assistant("hello", None);
    c.add_tool_result("call_1", "42");
    let all = c.messages();
    assert_eq!(all.len(), 4);
    assert_eq!(all[0].role, Role::System);
    assert_eq!(all[0].content, "sys");
    assert_eq!(all[1].role, Role::User);
    assert_eq!(all[2].role, Role::Assistant);
    assert_eq!(all[3].role, Role::Tool);
    assert_eq!(all[3].tool_call_id.as_deref(), Some("call_1"));
    assert!(all[3].tool_calls.is_none());
    assert_eq!(c.len(), 3);
}

#[test]
fn clear_keeps_system_prompt() {
    let mut c = history(3);
    c.clear();
    assert!(c.is_empty());
    assert_eq!(c.system_prompt(), "prompt");
    assert_eq!(c.messages().len(), 1);
}

#[test]
fn system_prompt_from_fragments_in_order() {
    let mut c = Context::new(String::new());
    let sources = PromptSources {
        agent: "  I help.  ".to_string(),
        soul: String::new(),
        user: "Likes tea\n".to_string(),
    };
    let p = c.load_system_prompt(&sources);
    assert_eq!(p, "## 角色定义\nI help.\n\n## 用户信息\nLikes tea");
    assert_eq!(c.system_prompt(), p);
}

#[test]
fn system_prompt_default_when_all_empty() {
    let mut c = Context::new(String::new());
    let sources = PromptSources { agent: String::new(), soul: String::new(), user: String::new() };
    let p = c.load_system_prompt(&sources);
    assert!(p.starts_with("你是一个有用的助手。"));
    assert!(p.ends_with("不要添加多余的自我介绍。"));
    assert!(!p.is_empty());
}

#[test]
fn role_names_round_trip() {
    for r in [Role::System, Role::User, Role::Assistant, Role::Tool] {
        assert_eq!(Role::from_name(r.name()), Some(r));
    }
    assert_eq!(Role::from_name("robot"), None);
    assert_eq!(Role::User.name(), "user");
}

#[test]
fn plain_message_has_no_calls() {
    let m = Message::plain(Role::Assistant, "ok");
    assert_eq!(m.content, "ok");
    assert!(m.tool_calls.is_none() && m.tool_call_id.is_none());
}
