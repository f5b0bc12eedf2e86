use localcoder::api::{
    map_message_for_openai, persist_model_to_path, FileContents, LLMClient, LLMSettings,
    OllamaSettings, OpenAISettings, Provider,
};
use localcoder::config::{AppConfig, Theme};
use localcoder::json::Json;
use localcoder::keys::{AppEvent, Key, KeyReader, KeyStep};
use localcoder::markdown::MarkdownRenderer;
use localcoder::net::{read_address, IpAddress};
use localcoder::order::sorted_unique;
use localcoder::repl_commands::{configure_theme, SettingOutcome};
use localcoder::repl_completion::{build_slash_commands, builtin_commands, Skill};
use localcoder::screen::{text_display_width, truncate_for_width, wrap_message_lines};
use localcoder::server_flow::{FlowAction, FlowEvent, MessageFlow, MessageRequest};
use localcoder::slash::command_arg;
use localcoder::text::trimmed;

fn json(text: &str) -> Json {
    Json::parse(text).unwrap()
}

#[test]
fn trimming_twice_changes_nothing() {
    for text in ["", "  a ", "\u{3000}x y\n", "\t"] {
        assert_eq!(trimmed(trimmed(text)), trimmed(text));
    }
}

#[test]
fn order_of_the_list_makes_no_difference() {
    let one: Vec<String> = ["b", "a", "c", "a"].iter().map(|s| s.to_string()).collect();
    let other: Vec<String> = ["c", "a", "b", "b"].iter().map(|s| s.to_string()).collect();
    assert_eq!(sorted_unique(&one), vec!["a", "b", "c"]);
    assert_eq!(sorted_unique(&one), sorted_unique(&other));
}

#[test]
fn a_colon_tells_the_kinds_of_addresses_apart() {
    for text in ["1.2.3.4:5", "[::1]:5", "[::ffff:1.2.3.4]:5"] {
        let ip = read_address(text).unwrap().ip;
        let colon = ip.to_text().contains(':');
        match ip {
            IpAddress::V4(..) => assert!(!colon),
            IpAddress::V6(groups, _) => {
                assert!(colon);
                assert_eq!(groups.len(), 8);
            }
        }
    }
}

#[test]
fn a_line_is_one_command_at_most() {
    for line in ["/plan on", "/plan", "/web x", "/webbing"] {
        let found = ["/plan", "/web", "/webbing", "/server"]
            .iter()
            .filter(|command| command_arg(line, command).is_some())
            .count();
        assert_eq!(found, 1);
    }
}

#[test]
fn skills_come_behind_and_hide_no_command() {
    let skills = vec![
        Skill {
            name: "COMMIT".to_string(),
            description: "x".to_string(),
            argument_hint: None,
        },
        Skill {
            name: "simplify".to_string(),
            description: "y".to_string(),
            argument_hint: Some("[path]".to_string()),
        },
    ];
    let plain = builtin_commands();
    let all = build_slash_commands(Some(&skills));
    assert_eq!(all.len(), plain.len() + 1);
    assert_eq!(&all[..plain.len()], &plain[..]);
    assert_eq!(all[plain.len()].name, "/simplify");
}

#[test]
fn pieces_of_markdown_make_no_difference() {
    let mut whole = MarkdownRenderer::new();
    let mut parts = MarkdownRenderer::new();
    let at_once = whole.take_complete("one\ntwo\nthree");
    let first = parts.take_complete("one\ntw").unwrap();
    let second = parts.take_complete("o\nthree").unwrap();
    assert_eq!(at_once.unwrap(), first + &second);
    assert_eq!(whole.take_rest(), parts.take_rest());
}

#[test]
fn wrapping_loses_nothing_and_fits() {
    let line = "a世界b 🤖 cd";
    for width in 2..12 {
        let pieces = wrap_message_lines(line, width);
        assert_eq!(pieces.concat(), line);
        for piece in pieces {
            assert!(text_display_width(&piece) <= width);
        }
    }
}

#[test]
fn cut_text_fits() {
    for most in 0..12 {
        assert!(truncate_for_width("hello world", most).chars().count() <= most);
    }
}

#[test]
fn reader_starts_over_after_each_key() {
    let mut reader = KeyReader::new();
    let mut read = |bytes: &[u8]| {
        let mut last = KeyStep::More;
        for byte in bytes {
            last = reader.read_event(Some(*byte));
        }
        last
    };
    for _ in 0..2 {
        assert_eq!(read(b"\x1b[A"), KeyStep::Event(AppEvent::Key(Key::Up)));
        assert_eq!(
            read("é".as_bytes()),
            KeyStep::Event(AppEvent::Key(Key::Char('é')))
        );
        assert_eq!(read(b"q"), KeyStep::Event(AppEvent::Key(Key::Char('q'))));
    }
}

#[test]
fn default_ids_of_calls_differ() {
    let message = json(
        "{\"role\":\"assistant\",\"tool_calls\":[{\"function\":{}},{\"function\":{}}]}",
    );
    let mut ids = Vec::new();
    for index in [1, 11, 111] {
        let mapped = map_message_for_openai(index, &message);
        if let Some(Json::Array(calls)) = mapped.get("tool_calls") {
            ids.extend(calls.iter().map(|call| call.str_or_empty("id").to_string()));
        }
    }
    assert_eq!(
        ids,
        vec!["call_1_0", "call_1_1", "call_11_0", "call_11_1", "call_111_0", "call_111_1"]
    );
}

#[test]
fn changed_model_is_used_and_the_rest_is_kept() {
    let known = LLMSettings {
        ollama: Some(OllamaSettings {
            url: "http://o".to_string(),
            model: "m".to_string(),
        }),
        openai: Some(OpenAISettings {
            base_url: "http://b".to_string(),
            api_key: "k".to_string(),
            model: "old".to_string(),
        }),
    };
    let settings = persist_model_to_path(
        "p",
        Some(FileContents::Settings(known)),
        Provider::OpenAI,
        "http://c",
        "new",
    )
    .unwrap();
    assert_eq!(settings.ollama.as_ref().unwrap().model, "m");
    assert_eq!(settings.openai.as_ref().unwrap().api_key, "k");
    let client = LLMClient::from_settings(settings);
    assert_eq!(client.model(), "new");
    assert_eq!(client.base_url(), "http://b");
    assert_eq!(client.authorized_request().unwrap(), Some("k".to_string()));
}

#[test]
fn themes_are_chosen_by_their_names() {
    for theme in [Theme::Default, Theme::Light, Theme::Dark] {
        let mut config = AppConfig {
            theme: Theme::Default,
            output_style: "plain".to_string(),
            tips: false,
        };
        assert_eq!(
            configure_theme(&mut config, Some(theme.name())),
            SettingOutcome::Changed
        );
        assert_eq!(config.theme, theme);
    }
}

fn checked_style(output_style: Option<&str>) -> String {
    let (mut flow, _) = MessageFlow::begin(&MessageRequest {
        message: "hi".to_string(),
        session_id: None,
        output_style: output_style.map(str::to_string),
    });
    flow.process_message(FlowEvent::Session("s".to_string()));
    flow.process_message(FlowEvent::Locked);
    flow.process_message(FlowEvent::Client("m".to_string()));
    flow.process_message(FlowEvent::Done);
    match flow.process_message(FlowEvent::Config("usual".to_string())) {
        FlowAction::CheckStyle(style) => style,
        _ => panic!("expected a style to check"),
    }
}

#[test]
fn style_of_the_configuration_is_used_where_none_is_named() {
    assert_eq!(checked_style(None), "usual");
    assert_eq!(checked_style(Some("  ")), "usual");
    assert_eq!(checked_style(Some(" terse ")), "terse");
}
