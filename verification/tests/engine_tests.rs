use localcoder::engine::{build_assistant_message, build_tool_message, AgentLoop};
use localcoder::json::Json;
use localcoder::types::{AgentResponse, ToolUseCall};

fn echo_call(text: &str) -> ToolUseCall {
    ToolUseCall {
        id: None,
        name: "echo_tool".into(),
        arguments: Json::parse(&format!("{{\"text\":\"{text}\"}}")).unwrap(),
    }
}

fn tool_calls(message: &Json) -> Vec<Json> {
    match message.get("tool_calls") {
        Some(Json::Array(items)) => items.clone(),
        _ => panic!("expected tool calls"),
    }
}

#[test]
fn build_assistant_message_text_only() {
    let msg = build_assistant_message("hello", &vec![]);
    assert_eq!(msg.str_at("role"), Some("assistant"));
    assert_eq!(msg.str_at("content"), Some("hello"));
    assert!(msg.get("tool_calls").is_none());
}

#[test]
fn build_assistant_message_tool_only() {
    let calls = vec![echo_call("hi")];
    let msg = build_assistant_message("", &calls);
    let tool_calls = tool_calls(&msg);
    assert_eq!(msg.str_at("content"), Some(""));
    assert_eq!(tool_calls.len(), 1);
    let function = tool_calls[0].get("function").unwrap();
    assert_eq!(function.str_at("name"), Some("echo_tool"));
    assert_eq!(function.get("arguments").unwrap().str_at("text"), Some("hi"));
}

#[test]
fn build_assistant_message_text_and_tool() {
    let calls = vec![echo_call("world")];
    let msg = build_assistant_message("I'll echo this:", &calls);
    let tool_calls = tool_calls(&msg);
    assert_eq!(msg.str_at("content"), Some("I'll echo this:"));
    assert_eq!(tool_calls.len(), 1);
    assert_eq!(
        tool_calls[0].get("function").unwrap().str_at("name"),
        Some("echo_tool")
    );
}

#[test]
fn tool_message_tells_failure() {
    let done = build_tool_message("read", &Ok("text".to_string()));
    assert_eq!(
        done.to_compact().unwrap(),
        "{\"content\":\"text\",\"is_error\":false,\"role\":\"tool\",\"tool_name\":\"read\"}"
    );
    let failed = build_tool_message("read", &Err("no such file".to_string()));
    assert_eq!(failed.get("is_error"), Some(&Json::Bool(true)));
    assert_eq!(failed.str_at("content"), Some("no such file"));
}

#[test]
fn round_adds_reply_and_results_in_order() {
    let mut messages = vec![Json::parse("{\"role\":\"user\",\"content\":\"go\"}").unwrap()];
    let mut agent = AgentLoop::new();
    assert!(agent.next_call().is_none());
    let reply = AgentResponse {
        text: "working".into(),
        stop_reason: "tool_use".into(),
        tool_uses: vec![echo_call("one"), echo_call("two")],
    };
    assert_eq!(agent.take_reply(&mut messages, reply), None);
    assert_eq!(messages.len(), 2);
    let first = agent.next_call().unwrap();
    assert_eq!(first.arguments.str_at("text"), Some("one"));
    agent.take_outcome(&mut messages, Ok("one".into()));
    assert_eq!(messages.len(), 2);
    assert_eq!(
        agent.next_call().unwrap().arguments.str_at("text"),
        Some("two")
    );
    agent.take_outcome(&mut messages, Err("broken".into()));
    assert!(agent.next_call().is_none());
    assert_eq!(messages.len(), 4);
    assert_eq!(messages[0].str_at("content"), Some("go"));
    assert_eq!(messages[1].str_at("role"), Some("assistant"));
    assert_eq!(messages[2].str_at("content"), Some("one"));
    assert_eq!(messages[3].str_at("content"), Some("broken"));
    let last = AgentResponse {
        text: "done".into(),
        stop_reason: "end_turn".into(),
        tool_uses: vec![],
    };
    assert_eq!(
        agent.take_reply(&mut messages, last),
        Some("done".to_string())
    );
    assert_eq!(messages.len(), 5);
}

#[test]
fn reply_with_other_stop_reason_ends_the_loop() {
    let mut messages = Vec::new();
    let mut agent = AgentLoop::new();
    let reply = AgentResponse {
        text: "cut".into(),
        stop_reason: "length".into(),
        tool_uses: vec![echo_call("x")],
    };
    assert_eq!(agent.take_reply(&mut messages, reply), Some("cut".to_string()));
    assert!(agent.next_call().is_none());
    assert!(messages[0].get("tool_calls").is_some());
}
