use localcoder::json::Json;
use localcoder::net::IpAddress;
use localcoder::server::{parse_server_command, ServerCommand, ServerConfig};
use localcoder::server_flow::{
    handle_ws, ws_reply, ApiError, FlowAction, FlowEvent, MessageFlow, MessageRequest,
    MessageResponse, SessionLocks, WsAction, WsEvent, WsReply, WsRequest,
};

fn request(message: &str, session_id: Option<&str>, style: Option<&str>) -> MessageRequest {
    MessageRequest {
        message: message.to_string(),
        session_id: session_id.map(str::to_string),
        output_style: style.map(str::to_string),
    }
}

#[test]
fn parse_server_command_defaults_to_localhost() {
    assert_eq!(
        parse_server_command("").unwrap(),
        ServerCommand::Start(ServerConfig::default())
    );
}

#[test]
fn parse_server_command_supports_status_and_stop() {
    assert_eq!(
        parse_server_command("status").unwrap(),
        ServerCommand::Status
    );
    assert_eq!(parse_server_command("stop").unwrap(), ServerCommand::Stop);
}

#[test]
fn parse_server_command_parses_socket_addr() {
    assert_eq!(
        parse_server_command("127.0.0.1:4000").unwrap(),
        ServerCommand::Start(ServerConfig {
            host: "127.0.0.1".to_string(),
            port: 4000,
        })
    );
}

#[test]
fn server_commands_ignore_case_and_space() {
    assert_eq!(
        parse_server_command("  StAtUs ").unwrap(),
        ServerCommand::Status
    );
    let error = parse_server_command(" localhost:3000 ").unwrap_err();
    assert_eq!(error.message(), "invalid server address: localhost:3000");
}

#[test]
fn default_config_listens_on_localhost() {
    let config = ServerConfig::default();
    assert_eq!(config.host, "127.0.0.1");
    assert_eq!(config.port, 3000);
    let address = config.socket_addr().unwrap();
    assert_eq!(address.ip, IpAddress::V4(127, 0, 0, 1));
    assert_eq!(address.port, 3000);
}

#[test]
fn configured_address_is_kept() {
    for (text, host, port) in [
        ("0.0.0.0:1", "0.0.0.0", 1),
        ("[::1]:65535", "::1", 65535),
        ("[2001:db8:0:0:1:0:0:1]:80", "2001:db8::1:0:0:1", 80),
        ("[::ffff:10.0.0.1]:8080", "::ffff:10.0.0.1", 8080),
        ("[fe80::1%7]:22", "fe80::1", 22),
    ] {
        let config = ServerConfig::parse(text).unwrap();
        assert_eq!(config.host, host);
        assert_eq!(config.port, port);
        let back = config.socket_addr().unwrap();
        assert_eq!(back.ip.to_text(), host);
        assert_eq!(back.port, port);
    }
}

#[test]
fn host_that_is_no_address_is_refused() {
    let config = ServerConfig {
        host: "localhost".to_string(),
        port: 80,
    };
    assert_eq!(
        config.socket_addr().unwrap_err().message(),
        "invalid server address: localhost:80"
    );
}

#[test]
fn post_message_rejects_empty_body_message() {
    let (_, action) = MessageFlow::begin(&request("   ", None, None));
    match action {
        FlowAction::Refuse { status, message } => {
            assert_eq!(status, 400);
            assert_eq!(message, "message must not be empty");
        }
        _ => panic!("expected a refusal"),
    }
}

fn refused(action: FlowAction<String>) -> (u16, String) {
    match action {
        FlowAction::Refuse { status, message } => (status, message),
        _ => panic!("expected a refusal"),
    }
}

#[test]
fn unknown_session_is_not_found() {
    let (mut flow, action) = MessageFlow::begin(&request("hi", Some(" abc "), None));
    match action {
        FlowAction::LoadSession(id) => assert_eq!(id, "abc"),
        _ => panic!("expected a session to load"),
    }
    let refusal = flow.process_message(FlowEvent::Failed("no session abc".to_string()));
    assert_eq!(refused(refusal), (404, "no session abc".to_string()));
}

#[test]
fn failure_to_create_is_internal() {
    let (mut flow, action) = MessageFlow::begin(&request("hi", Some("  "), None));
    assert!(matches!(action, FlowAction::CreateSession));
    let refusal = flow.process_message(FlowEvent::Failed("disk full".to_string()));
    assert_eq!(refused(refusal), (500, "disk full".to_string()));
}

#[test]
fn unknown_style_is_a_bad_request() {
    let (mut flow, _) = MessageFlow::begin(&request("hi", None, Some(" odd ")));
    flow.process_message(FlowEvent::Session("s1".to_string()));
    assert!(matches!(
        flow.process_message(FlowEvent::Locked),
        FlowAction::BuildClient
    ));
    flow.process_message(FlowEvent::Client("m".to_string()));
    assert!(matches!(flow.process_message(FlowEvent::Done), FlowAction::LoadConfig));
    match flow.process_message(FlowEvent::Config("plain".to_string())) {
        FlowAction::CheckStyle(style) => assert_eq!(style, "odd"),
        _ => panic!("expected a style to check"),
    }
    let refusal = flow.process_message(FlowEvent::StyleKnown(false));
    assert_eq!(refused(refusal), (400, "unknown output style: odd".to_string()));
}

#[test]
fn session_history_goes_on() {
    let stored = vec![
        Json::parse("{\"role\":\"user\",\"content\":\"a\"}").unwrap(),
        Json::parse("{\"role\":\"tool\",\"content\":\"b\"}").unwrap(),
    ];
    let (mut flow, _) = MessageFlow::begin(&request(" next ", Some("s1"), None));
    match flow.process_message(FlowEvent::Session("s1".to_string())) {
        FlowAction::TakeLock(id) => assert_eq!(id, "s1"),
        _ => panic!("expected the lock"),
    }
    assert!(matches!(
        flow.process_message(FlowEvent::Locked),
        FlowAction::LoadMessages
    ));
    assert!(matches!(
        flow.process_message(FlowEvent::Messages(stored)),
        FlowAction::BuildClient
    ));
    flow.process_message(FlowEvent::Client("m".to_string()));
    flow.process_message(FlowEvent::Done);
    flow.process_message(FlowEvent::Config("plain".to_string()));
    match flow.process_message(FlowEvent::StyleKnown(true)) {
        FlowAction::BuildPrompt { visible, style } => {
            assert_eq!(visible, 1);
            assert_eq!(style, "plain");
        }
        _ => panic!("expected the prompt"),
    }
    assert!(matches!(
        flow.process_message(FlowEvent::Done),
        FlowAction::StoreMessage
    ));
    assert_eq!(flow.messages().len(), 3);
    assert_eq!(flow.messages()[2].str_at("content"), Some("next"));
    assert!(matches!(flow.process_message(FlowEvent::Done), FlowAction::RunAgent));
    let mut messages = flow.messages().clone();
    messages.push(Json::parse("{\"role\":\"assistant\",\"content\":\"ok\"}").unwrap());
    assert!(matches!(
        flow.process_message(FlowEvent::Finished {
            reply: "ok".to_string(),
            messages,
        }),
        FlowAction::StoreReplies
    ));
    let replies = flow.replies();
    assert_eq!(replies.len(), 1);
    assert_eq!(replies[0].str_at("content"), Some("ok"));
    match flow.process_message(FlowEvent::Done) {
        FlowAction::Answer {
            session_id,
            reply,
            model,
        } => {
            assert_eq!(session_id, "s1");
            assert_eq!(reply, "ok");
            assert_eq!(model, "m");
        }
        _ => panic!("expected the answer"),
    }
    assert_eq!(flow.session_id(), "s1");
}

#[test]
fn api_errors_have_status_and_body() {
    assert_eq!(ApiError::bad_request("a").status, 400);
    assert_eq!(ApiError::not_found("a").status, 404);
    let error = ApiError::internal("broken");
    assert_eq!(error.status, 500);
    assert_eq!(
        error.body().to_compact().unwrap(),
        "{\"error\":\"broken\"}"
    );
}

fn ws(message_type: &str) -> WsEvent {
    WsEvent::Text(Some(WsRequest {
        message_type: message_type.to_string(),
        message: "hi".to_string(),
        session_id: Some("s".to_string()),
        output_style: None,
    }))
}

#[test]
fn ws_frames_are_told_apart() {
    match handle_ws(WsEvent::Text(None)) {
        WsAction::SendError(message) => assert_eq!(message, "invalid request json"),
        _ => panic!("expected an error"),
    }
    match handle_ws(ws("ping")) {
        WsAction::SendError(message) => {
            assert_eq!(message, "unsupported websocket message type")
        }
        _ => panic!("expected an error"),
    }
    match handle_ws(ws("message")) {
        WsAction::Process(request) => {
            assert_eq!(request.message, "hi");
            assert_eq!(request.session_id, Some("s".to_string()));
            assert_eq!(request.output_style, None);
        }
        _ => panic!("expected a request"),
    }
    assert!(matches!(handle_ws(WsEvent::Ping), WsAction::Pong));
    assert!(matches!(handle_ws(WsEvent::Other), WsAction::Wait));
    assert!(matches!(handle_ws(WsEvent::Close), WsAction::Stop));
    assert!(matches!(handle_ws(WsEvent::Broken), WsAction::Stop));
}

#[test]
fn ws_replies_carry_answer_or_message() {
    let answer = MessageResponse {
        session_id: "s".to_string(),
        reply: "r".to_string(),
        model: "m".to_string(),
    };
    let reply = ws_reply(Ok(answer));
    assert_eq!(reply.message_type(), "assistant");
    match reply {
        WsReply::Assistant(answer) => assert_eq!(answer.reply, "r"),
        WsReply::Error(_) => panic!("expected the answer"),
    }
    let reply = ws_reply(Err(ApiError::not_found("gone")));
    assert_eq!(reply.message_type(), "error");
    match reply {
        WsReply::Error(message) => assert_eq!(message, "gone"),
        WsReply::Assistant(_) => panic!("expected the error"),
    }
}

#[test]
fn sessions_keep_their_locks() {
    let mut locks = SessionLocks::new();
    assert_eq!(locks.session_lock("a"), 0);
    assert_eq!(locks.session_lock("b"), 1);
    assert_eq!(locks.session_lock("a"), 0);
    assert_eq!(locks.session_lock("c"), 2);
}
