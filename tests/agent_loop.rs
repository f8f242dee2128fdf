use brk::{
    Agent, AgentConfig, ChatAction, ChatEvent, FunctionCall, LlmClient, Message, PromptSources,
    RetryStep, Role, ToolArguments, ToolCall, ToolRequest,
};

fn config(max_iterations: usize, max_tool_calls: usize) -> AgentConfig {
    AgentConfig {
        model: "m".to_string(),
        base_url: "http://localhost:11434".to_string(),
        max_iterations,
        max_llm_retries: 3,
        max_tool_calls,
    }
}

fn agent(max_iterations: usize, max_tool_calls: usize) -> Agent {
    let sources = PromptSources { agent: "be brief".to_string(), soul: String::new(), user: String::new() };
    Agent::new(config(max_iterations, max_tool_calls), "/tmp/none".to_string(), "/ws".to_string(), Vec::new(), &sources)
}

fn call(id: &str, name: &str, args: &str) -> ToolCall {
    ToolCall {
        id: id.to_string(),
        kind: Some("function".to_string()),
        function: FunctionCall {
            name: name.to_string(),
            index: None,
            arguments: ToolArguments::Object(args.to_string()),
        },
    }
}

fn reply_with_calls(calls: Vec<ToolCall>) -> Message {
    Message { role: Role::Assistant, content: String::new(), tool_calls: Some(calls), tool_call_id: None }
}

fn history(a: &Agent) -> Vec<Message> {
    a.session_manager().current().unwrap().context().raw_messages().to_vec()
}

#[test]
fn scenario_iteration_budget_times_out() {
    let mut a = agent(2, 5);
    let mut action = a.chat("what time is it").unwrap();
    let mut rounds = 0;
    loop {
        action = match action {
            ChatAction::CallModel(t) => {
                assert_eq!(t[0].role, Role::System);
                rounds += 1;
                let id = format!("c{}", rounds);
                a.advance(ChatEvent::ModelReplied(reply_with_calls(vec![call(&id, "get_time", "{}")])))
            }
            ChatAction::RunTool(ToolRequest::GetTime) => a.advance(ChatEvent::ToolFinished(Ok("12:00".to_string()))),
            ChatAction::Finish { answer, save } => {
                assert_eq!(answer, "对话已达到最大处理次数，请简化您的问题或重新开始对话");
                assert!(!save);
                break;
            }
            _ => panic!("unexpected action"),
        };
    }
    assert_eq!(rounds, 2);
    let h = history(&a);
    let roles: Vec<Role> = h.iter().map(|m| m.role).collect();
    assert_eq!(roles, vec![Role::User, Role::Assistant, Role::Tool, Role::Assistant, Role::Tool, Role::Assistant]);
    assert_eq!(h[2].tool_call_id.as_deref(), Some("c1"));
    assert_eq!(h[4].tool_call_id.as_deref(), Some("c2"));
    assert_eq!(h[2].content, "12:00");
}

#[test]
fn scenario_plain_answer_saved_once() {
    let mut a = agent(10, 5);
    let action = a.chat("hello").unwrap();
    assert!(matches!(action, ChatAction::CallModel(_)));
    let mut saves = 0;
    let action = a.advance(ChatEvent::ModelReplied(Message::plain(Role::Assistant, "hi there")));
    match action {
        ChatAction::Finish { answer, save } => {
            assert_eq!(answer, "hi there");
            if save {
                saves += 1;
                assert!(a.save_current_session().is_ok());
            }
        }
        _ => panic!("expected the answer"),
    }
    assert_eq!(saves, 1);
    let h = history(&a);
    assert_eq!(h.len(), 2);
    assert_eq!(h[1].content, "hi there");
    assert!(matches!(a.advance(ChatEvent::ModelFailed("late".to_string())), ChatAction::Unexpected));
}

#[test]
fn scenario_unknown_tool_reported_and_loop_goes_on() {
    let mut a = agent(10, 5);
    a.chat("do foo").unwrap();
    let action = a.advance(ChatEvent::ModelReplied(reply_with_calls(vec![call("x1", "foo", "{}")])));
    assert!(matches!(action, ChatAction::CallModel(_)));
    let h = history(&a);
    let last = h.last().unwrap();
    assert_eq!(last.role, Role::Tool);
    assert_eq!(last.tool_call_id.as_deref(), Some("x1"));
    assert_eq!(last.content, "工具执行失败：未知工具：foo");
    assert!(last.content.contains("foo"));
}

#[test]
fn scenario_backend_down_gives_apology() {
    let mut a = agent(10, 5);
    a.chat("hello").unwrap();
    let client = LlmClient::new(config(10, 5));
    let mut last = None;
    for attempt in 1..=3 {
        match client.after_failure(attempt, "connection refused") {
            RetryStep::Retry { delay_ms } => assert_eq!(delay_ms, 100 * (1u64 << attempt)),
            RetryStep::GiveUp(t) => last = Some(t),
        }
    }
    let reason = last.unwrap();
    assert_eq!(reason, "LLM 调用在 3 次尝试后仍然失败：connection refused");
    match a.advance(ChatEvent::ModelFailed(reason.clone())) {
        ChatAction::Finish { answer, save } => {
            assert!(!answer.is_empty());
            assert_eq!(answer, format!("抱歉，AI 服务暂时不可用：{}", reason));
            assert!(!save);
        }
        _ => panic!("expected the apology"),
    }
    let h = history(&a);
    assert_eq!(h.last().unwrap().role, Role::Assistant);
}

#[test]
fn excess_calls_run_no_tool_and_use_an_iteration() {
    let mut a = agent(2, 1);
    a.chat("go").unwrap();
    let calls = vec![call("a", "get_time", "{}"), call("b", "get_time", "{}")];
    let action = a.advance(ChatEvent::ModelReplied(reply_with_calls(calls.clone())));
    assert!(matches!(action, ChatAction::CallModel(_)));
    let h = history(&a);
    assert_eq!(h.last().unwrap().content, "检测到过多的工具调用 (2个)，可能存在问题");
    assert!(h.iter().all(|m| m.role != Role::Tool));
    let action = a.advance(ChatEvent::ModelReplied(reply_with_calls(calls)));
    match action {
        ChatAction::Finish { answer, .. } => {
            assert_eq!(answer, "对话已达到最大处理次数，请简化您的问题或重新开始对话")
        }
        _ => panic!("expected the timeout"),
    }
}

#[test]
fn answers_follow_calls_in_order() {
    let mut a = agent(5, 5);
    a.chat("files").unwrap();
    let calls = vec![
        call("r1", "fs_read", "{\"path\":\"a.txt\"}"),
        call("r2", "fs_read", "{}"),
        call("r3", "fs_list", "{\"path\":\"/docs\"}"),
    ];
    let action = a.advance(ChatEvent::ModelReplied(reply_with_calls(calls)));
    match action {
        ChatAction::RunTool(ToolRequest::FsRead { path }) => assert_eq!(path, "a.txt"),
        _ => panic!("expected a read"),
    }
    let action = a.advance(ChatEvent::ToolFinished(Err("读取文件失败：a.txt".to_string())));
    match action {
        ChatAction::RunTool(ToolRequest::FsList { path }) => assert_eq!(path, "/docs"),
        _ => panic!("expected a listing"),
    }
    let action = a.advance(ChatEvent::ToolFinished(Ok("x".to_string())));
    assert!(matches!(action, ChatAction::CallModel(_)));
    let h = history(&a);
    let ids: Vec<Option<String>> = h.iter().filter(|m| m.role == Role::Tool).map(|m| m.tool_call_id.clone()).collect();
    assert_eq!(ids, vec![Some("r1".to_string()), Some("r2".to_string()), Some("r3".to_string())]);
    assert_eq!(h[2].content, "工具执行失败：读取文件失败：a.txt");
    assert_eq!(h[3].content, "工具执行失败：缺少 path 参数");
    assert_eq!(h[4].content, "x");
}

#[test]
fn unparsable_arguments_answered_at_once() {
    let mut a = agent(5, 5);
    a.chat("x").unwrap();
    let mut c = call("j1", "fs_read", "");
    c.function.arguments = ToolArguments::Encoded("{not json".to_string());
    let action = a.advance(ChatEvent::ModelReplied(reply_with_calls(vec![c])));
    assert!(matches!(action, ChatAction::CallModel(_)));
    let h = history(&a);
    assert!(h.last().unwrap().content.starts_with("工具参数解析失败："));
}

#[test]
fn encoded_arguments_are_read() {
    let mut a = agent(5, 5);
    a.chat("x").unwrap();
    let mut c = call("e1", "web_search", "");
    c.function.arguments = ToolArguments::Encoded("{\"query\":\"rust\"}".to_string());
    match a.advance(ChatEvent::ModelReplied(reply_with_calls(vec![c]))) {
        ChatAction::RunTool(ToolRequest::WebSearch { query }) => assert_eq!(query, "rust"),
        _ => panic!("expected a search"),
    }
}

#[test]
fn zero_iterations_times_out_at_once() {
    let mut a = agent(0, 5);
    match a.chat("x").unwrap() {
        ChatAction::Finish { answer, save } => {
            assert_eq!(answer, "对话已达到最大处理次数，请简化您的问题或重新开始对话");
            assert!(!save);
        }
        _ => panic!("expected the timeout"),
    }
}

#[test]
fn clear_history_drops_turn() {
    let mut a = agent(5, 5);
    a.chat("x").unwrap();
    a.clear_history();
    assert!(history(&a).is_empty());
    assert!(matches!(a.advance(ChatEvent::ModelFailed("e".to_string())), ChatAction::Unexpected));
}

#[test]
fn empty_call_list_is_the_answer() {
    let mut a = agent(10, 5);
    a.chat("hello").unwrap();
    let reply = Message { role: Role::Assistant, content: "done".to_string(), tool_calls: Some(Vec::new()), tool_call_id: None };
    match a.advance(ChatEvent::ModelReplied(reply)) {
        ChatAction::Finish { answer, save } => {
            assert_eq!(answer, "done");
            assert!(save);
        }
        _ => panic!("expected the answer"),
    }
    let h = history(&a);
    assert_eq!(h.len(), 2);
    assert!(h[1].tool_calls.is_none());
}

#[test]
fn chat_turn_updates_message_count() {
    let mut a = agent(10, 5);
    a.chat("hi").unwrap();
    a.advance(ChatEvent::ModelReplied(Message::plain(Role::Assistant, "yo")));
    assert_eq!(a.session_manager().current().unwrap().metadata().message_count, 2);
}
