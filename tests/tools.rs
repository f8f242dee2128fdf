use brk::{
    backoff_delay_ms, get_tools_static, html_to_text, reply_outcome, AgentConfig, ArgField, CallPlan,
    Config, FsTools, LlmClient, Message, OllamaResponse, Role, ToolError, ToolExecutor, ToolRegistry,
    ToolRequest, WorkspaceConfig, SessionConfig,
};
use brk::{search_digest, SearchItem};
use brk::tools::{parse_tool_request, patch_text, tool_answer_text, PatchError};

fn field(k: &str, v: Option<&str>) -> ArgField {
    ArgField { key: k.to_string(), text: v.map(|s| s.to_string()) }
}

#[test]
fn catalog_lists_seven_tools() {
    let tools = get_tools_static();
    let names: Vec<&str> = tools.iter().map(|t| t.function.name.as_str()).collect();
    assert_eq!(names, vec!["fs_read", "fs_write", "fs_patch", "fs_list", "web_search", "web_fetch", "get_time"]);
    assert!(tools.iter().all(|t| t.kind == "function"));
    assert_eq!(tools[2].function.parameters.required, vec!["path", "old_string", "new_string"]);
    assert!(tools[6].function.parameters.properties.is_empty());
    assert_eq!(ToolExecutor::new("/w".to_string()).get_tools().len(), 7);
    assert_eq!(ToolRegistry::new("/w".to_string()).get_tools().len(), 7);
}

#[test]
fn parse_write_request() {
    let f = vec![field("content", Some("hi")), field("path", Some("a.txt"))];
    match parse_tool_request("fs_write", &f) {
        Ok(ToolRequest::FsWrite { path, content }) => {
            assert_eq!(path, "a.txt");
            assert_eq!(content, "hi");
        }
        _ => panic!("expected a write"),
    }
}

#[test]
fn parse_missing_and_non_string_argument() {
    let f = vec![field("path", Some("a")), field("old_string", None)];
    match parse_tool_request("fs_patch", &f) {
        Err(e) => assert_eq!(e.message(), "缺少 old_string 参数"),
        Ok(_) => panic!("expected an error"),
    }
    match parse_tool_request("fs_list", &[]) {
        Err(ToolError::MissingArgument(p)) => assert_eq!(p, "path"),
        _ => panic!("expected a missing path"),
    }
}

#[test]
fn parse_unknown_tool() {
    match parse_tool_request("foo", &[]) {
        Err(e) => assert_eq!(e.message(), "未知工具：foo"),
        Ok(_) => panic!("expected an error"),
    }
    assert!(matches!(parse_tool_request("get_time", &[]), Ok(ToolRequest::GetTime)));
}

#[test]
fn tool_answer_texts() {
    assert_eq!(tool_answer_text(&Ok("done".to_string())), "done");
    assert_eq!(tool_answer_text(&Err("boom".to_string())), "工具执行失败：boom");
}

#[test]
fn plan_other_json_reads_as_empty_object() {
    let call = brk::ToolCall {
        id: "1".to_string(),
        kind: None,
        function: brk::FunctionCall {
            name: "web_fetch".to_string(),
            index: Some(0),
            arguments: brk::ToolArguments::Other("[1,2]".to_string()),
        },
    };
    match ToolExecutor::new("/w".to_string()).plan(&call) {
        CallPlan::Answer(t) => assert_eq!(t, "工具执行失败：缺少 url 参数"),
        CallPlan::Run(_) => panic!("expected an answer"),
    }
}

#[test]
fn resolve_path_drops_leading_slashes() {
    let fs = FsTools::new("/home/u/ws".to_string());
    assert_eq!(fs.resolve_path("//etc/x").unwrap(), "/home/u/ws/etc/x");
    assert_eq!(fs.resolve_path("a/b").unwrap(), "/home/u/ws/a/b");
    let fs2 = FsTools::new("/root/".to_string());
    assert_eq!(fs2.resolve_path("f").unwrap(), "/root/f");
}

#[test]
fn html_becomes_text() {
    let html = "<html><head><style>p{}</style><script>var a=1;</script></head><body><p>A &amp; B &lt;c&gt;</p>\n\n\n<p>&quot;x&quot; &#39;y&#39;&nbsp;z</p></body></html>";
    assert_eq!(html_to_text(html), "A & B <c>\n\n\"x\" 'y' z");
    assert_eq!(html_to_text("  plain  "), "plain");
}

#[test]
fn backoff_doubles() {
    assert_eq!(backoff_delay_ms(0), 100);
    assert_eq!(backoff_delay_ms(1), 200);
    assert_eq!(backoff_delay_ms(2), 400);
    assert_eq!(backoff_delay_ms(200), u64::MAX);
}

#[test]
fn retry_gives_up_after_last_attempt() {
    let client = LlmClient::new(AgentConfig { max_llm_retries: 2, ..AgentConfig::default() });
    assert!(matches!(client.after_failure(1, "e"), brk::RetryStep::Retry { delay_ms: 200 }));
    match client.after_failure(2, "e") {
        brk::RetryStep::GiveUp(t) => assert_eq!(t, "LLM 调用在 2 次尝试后仍然失败：e"),
        _ => panic!("expected to give up"),
    }
    assert_eq!(client.give_up_text(None), "LLM 调用在 2 次尝试后仍然失败：None");
    assert_eq!(client.endpoint(), "http://localhost:11434/api/chat");
    let req = client.request(Vec::new(), None);
    assert!(!req.stream);
    assert_eq!(req.model, "qwen3:4b-instruct-2507-q4_K_M");
}

#[test]
fn reply_outcomes() {
    let ok = |err: Option<&str>| OllamaResponse {
        message: Message::plain(Role::Assistant, "hi"),
        done: true,
        error: err.map(|s| s.to_string()),
    };
    match reply_outcome(false, "500", "oops", None) {
        Err(e) => assert_eq!(e, "Ollama API 错误：500 - oops"),
        Ok(_) => panic!(),
    }
    match reply_outcome(true, "200", "{", None) {
        Err(e) => assert_eq!(e, "解析 Ollama 响应失败，原始内容：{"),
        Ok(_) => panic!(),
    }
    match reply_outcome(true, "200", "b", Some(ok(Some("model missing")))) {
        Err(e) => assert_eq!(e, "Ollama 错误：model missing"),
        Ok(_) => panic!(),
    }
    match reply_outcome(true, "200", "b", Some(ok(None))) {
        Ok(m) => assert_eq!(m.content, "hi"),
        Err(_) => panic!(),
    }
}

#[test]
fn config_defaults_and_paths() {
    let a = AgentConfig::default();
    assert_eq!((a.max_iterations, a.max_llm_retries, a.max_tool_calls), (10, 3, 5));
    assert_eq!(a.base_url, "http://localhost:11434");
    let w = WorkspaceConfig::under_home("/home/u");
    assert_eq!(w.root, "/home/u/.brk/workspace");
    assert_eq!(w.agent_file, "/home/u/.brk/workspace/AGENT.md");
    assert_eq!(w.user_file, "/home/u/.brk/workspace/USER.md");
    assert_eq!(SessionConfig::under_home("/home/u").storage_path, "/home/u/.brk/sessions");
    assert_eq!(Config::file_under_home("/home/u"), "/home/u/.brk/config.toml");
    let c = Config::default();
    assert!(c.session.auto_save);
    assert!(c.workspace.soul_file.ends_with(".brk/workspace/SOUL.md"));
}

#[test]
fn patch_replaces_single_occurrence() {
    assert_eq!(patch_text("a = 1\nb = 2\n", "b = 2", "b = 3").unwrap(), "a = 1\nb = 3\n");
    match patch_text("abc", "x", "y") {
        Err(e) => {
            assert!(matches!(e, PatchError::NotFound(_)));
            assert_eq!(e.message(), "未找到要替换的内容：x");
        }
        Ok(_) => panic!("expected an error"),
    }
    match patch_text("aXbXc", "X", "Y") {
        Err(e) => {
            assert!(matches!(e, PatchError::Ambiguous(2, _)));
            assert_eq!(e.message(), "内容出现 2 次，无法确定替换位置：X");
        }
        Ok(_) => panic!("expected an error"),
    }
}

#[test]
fn search_digest_shows_summary_and_five_hits() {
    let item = |t: Option<&str>, u: Option<&str>, c: Option<&str>| SearchItem {
        title: t.map(|s| s.to_string()),
        url: u.map(|s| s.to_string()),
        content: c.map(|s| s.to_string()),
    };
    let items = vec![
        item(Some("A"), Some("http://a"), Some("about a")),
        item(None, None, None),
        item(Some("C"), None, None),
        item(Some("D"), None, None),
        item(Some("E"), None, None),
        item(Some("F"), None, None),
    ];
    let out = search_digest(&Some("sum".to_string()), &items);
    assert!(out.starts_with("摘要：sum\n\n1. A\n   URL: http://a\n   about a\n\n2. 无标题\n   URL: 无 URL\n   \n\n"));
    assert!(out.contains("5. E"));
    assert!(!out.contains("6. F"));
    assert_eq!(search_digest(&None, &Vec::new()), "未找到相关结果");
}

#[test]
fn resolve_path_refuses_climbing_out() {
    let fs = FsTools::new("/home/u/ws".to_string());
    match fs.resolve_path("../etc/passwd") {
        Err(e) => assert_eq!(e, "路径超出 workspace 范围：../etc/passwd"),
        Ok(_) => panic!("expected a refusal"),
    }
    assert!(fs.resolve_path("a/../../b").is_err());
    assert!(fs.resolve_path("/..").is_err());
    assert_eq!(fs.resolve_path("a/../b").unwrap(), "/home/u/ws/a/../b");
    assert_eq!(fs.resolve_path("./x/./y").unwrap(), "/home/u/ws/./x/./y");
    assert!(fs.resolve_path("...").is_ok());
}

#[test]
fn catalog_is_the_same_on_every_call() {
    let describe = |tools: Vec<brk::Tool>| -> Vec<(String, String, Vec<String>)> {
        tools
            .into_iter()
            .map(|t| {
                (
                    t.function.name,
                    t.function.description,
                    t.function.parameters.properties.into_iter().map(|p| p.description).collect(),
                )
            })
            .collect()
    };
    let a = describe(get_tools_static());
    let b = describe(ToolExecutor::new("/w".to_string()).get_tools());
    assert_eq!(a, b);
    assert_eq!(a[0].1, "读取 workspace 内的文件内容");
    assert_eq!(a[1].2, vec!["相对于 workspace 的文件路径".to_string(), "文件内容".to_string()]);
}
