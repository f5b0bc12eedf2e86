use localcoder::api::{
    assistant_content_for_openai, call_with_tools_ollama, call_with_tools_openai,
    complete_prompt_ollama, complete_prompt_openai, default_settings_json,
    ensure_settings_file_with, listed_models, load_settings_from_path, map_message_for_openai,
    persist_model_to_path, resolve_settings_path_with, settings_json, stringify_tool_arguments, FileContents,
    HttpOutcome, LLMClient, LLMSettings, OllamaSettings, OpenAIChatResponse, OpenAIChoice,
    OpenAIFunctionCall, OpenAIMessage, OpenAISettings, OpenAIToolCall, Provider, SettingsPlan,
    DEFAULT_OLLAMA_MODEL, DEFAULT_OLLAMA_URL,
};
use localcoder::json::Json;
use localcoder::types::{OllamaChatResponse, OllamaFunctionCall, OllamaMessage, OllamaToolCall};

fn json(text: &str) -> Json {
    Json::parse(text).unwrap()
}

fn ollama(url: &str, model: &str) -> LLMSettings {
    LLMSettings {
        ollama: Some(OllamaSettings {
            url: url.to_string(),
            model: model.to_string(),
        }),
        openai: None,
    }
}

fn openai(base_url: &str, api_key: &str, model: &str) -> LLMSettings {
    LLMSettings {
        ollama: None,
        openai: Some(OpenAISettings {
            base_url: base_url.to_string(),
            api_key: api_key.to_string(),
            model: model.to_string(),
        }),
    }
}

fn status<R>() -> HttpOutcome<R> {
    HttpOutcome::Status {
        status: "404 Not Found".to_string(),
        text: "gone".to_string(),
    }
}

#[test]
fn ensure_settings_file_with_creates_default_settings_in_home() {
    match ensure_settings_file_with(Some("home/.localcoder/settings.json"), false).unwrap() {
        SettingsPlan::Create(path) => assert_eq!(path, "home/.localcoder/settings.json"),
        SettingsPlan::Use(_) => panic!("expected a new file"),
    }
    let settings = json(&default_settings_json());
    let ollama = settings.get("ollama").unwrap();
    assert_eq!(ollama.str_at("url"), Some(DEFAULT_OLLAMA_URL));
    assert_eq!(ollama.str_at("model"), Some(DEFAULT_OLLAMA_MODEL));
}

#[test]
fn ensure_settings_file_with_prefers_existing_home_settings() {
    match ensure_settings_file_with(Some("home/.localcoder/settings.json"), true).unwrap() {
        SettingsPlan::Use(path) => assert_eq!(path, "home/.localcoder/settings.json"),
        SettingsPlan::Create(_) => panic!("expected the file that is there"),
    }
}

#[test]
fn ensure_settings_file_with_needs_a_home() {
    let error = ensure_settings_file_with::<String>(None, false).err().unwrap();
    assert_eq!(error.message(), "$HOME is not set");
}

#[test]
fn resolve_settings_path_with_requires_home_settings() {
    let err = resolve_settings_path_with::<String>(None, false).unwrap_err();
    assert!(err.message().contains("$HOME/.localcoder/settings.json"));
    assert!(resolve_settings_path_with(Some("p"), false).is_err());
    assert_eq!(resolve_settings_path_with(Some("p"), true).unwrap(), "p");
}

#[test]
fn load_settings_from_path_reads_ollama_values() {
    let contents = FileContents::Settings(ollama("http://localhost:11434", "qwen2.5-coder:7b"));
    let settings = load_settings_from_path("setting.json", contents).unwrap();
    let ollama = settings.ollama.unwrap();
    assert_eq!(ollama.url, "http://localhost:11434");
    assert_eq!(ollama.model, "qwen2.5-coder:7b");
}

#[test]
fn load_settings_from_path_prefers_openai_when_present() {
    let mut settings = openai("https://api.openai.com/v1", "sk-test", "gpt-4o-mini");
    settings.ollama = Some(OllamaSettings {
        url: "http://localhost:11434".to_string(),
        model: "qwen2.5-coder:7b".to_string(),
    });
    let settings =
        load_settings_from_path("setting.json", FileContents::Settings(settings)).unwrap();
    let openai = settings.openai.unwrap();
    assert_eq!(openai.base_url, "https://api.openai.com/v1");
    assert_eq!(openai.model, "gpt-4o-mini");
}

#[test]
fn settings_errors_have_their_messages() {
    let load = |contents| {
        load_settings_from_path("p", contents)
            .unwrap_err()
            .message()
    };
    assert_eq!(load(FileContents::Unreadable), "failed to read settings file: p");
    assert_eq!(load(FileContents::Invalid), "invalid settings JSON: p");
    assert_eq!(
        load(FileContents::Settings(LLMSettings {
            ollama: None,
            openai: None
        })),
        "settings must include either openai or ollama"
    );
    let cases = [
        (openai(" ", "k", "m"), "settings.openai.base_url"),
        (openai("u", "", "m"), "settings.openai.api_key"),
        (openai("u", "k", "\t"), "settings.openai.model"),
        (ollama("", "m"), "settings.ollama.url"),
        (ollama("u", " "), "settings.ollama.model"),
    ];
    for (settings, label) in cases {
        assert_eq!(
            load(FileContents::Settings(settings)),
            format!("{label} must not be empty")
        );
    }
}

#[test]
fn from_settings_sets_ollama_defaults() {
    let client = LLMClient::from_settings(ollama("http://localhost:11434/", "qwen2.5-coder:7b"));
    assert_eq!(client.provider(), Provider::Ollama);
    assert_eq!(client.base_url(), "http://localhost:11434");
    assert_eq!(client.model(), "qwen2.5-coder:7b");
    assert_eq!(client.max_tokens(), 4096);
    assert_eq!(client.provider_name(), "Ollama");
}

#[test]
fn from_settings_prefers_openai() {
    let mut settings = openai("https://api.openai.com/v1/", "sk-test", "gpt-4o-mini");
    settings.ollama = Some(OllamaSettings {
        url: "http://localhost:11434".to_string(),
        model: "qwen2.5-coder:7b".to_string(),
    });
    let client = LLMClient::from_settings(settings);
    assert_eq!(client.provider(), Provider::OpenAI);
    assert_eq!(client.base_url(), "https://api.openai.com/v1");
    assert_eq!(client.model(), "gpt-4o-mini");
}

#[test]
fn set_model_updates_model() {
    let mut client = LLMClient::from_settings(ollama("http://localhost:11434", "qwen2.5-coder:7b"));
    client.set_model("llama3.2".to_string());
    assert_eq!(client.model(), "llama3.2");
}

#[test]
fn set_max_tokens_updates_value() {
    let mut client = LLMClient::from_settings(ollama("http://localhost:11434", "qwen2.5-coder:7b"));
    client.set_max_tokens(2048);
    assert_eq!(client.max_tokens(), 2048);
}

#[test]
fn persist_model_to_path_creates_ollama_settings() {
    let settings = persist_model_to_path(
        ".localcoder/settings.json",
        None,
        Provider::Ollama,
        "http://localhost:11434",
        "llama3.2",
    )
    .unwrap();
    let ollama = settings.ollama.unwrap();
    assert_eq!(ollama.url, "http://localhost:11434");
    assert_eq!(ollama.model, "llama3.2");
    assert!(settings.openai.is_none());
}

#[test]
fn persist_model_to_path_updates_openai_model() {
    let known = openai("https://api.openai.com/v1", "sk-test", "gpt-4o-mini");
    let settings = persist_model_to_path(
        ".localcoder/settings.json",
        Some(FileContents::Settings(known)),
        Provider::OpenAI,
        "https://api.openai.com/v1",
        "gpt-4.1-mini",
    )
    .unwrap();
    let openai = settings.openai.unwrap();
    assert_eq!(openai.base_url, "https://api.openai.com/v1");
    assert_eq!(openai.api_key, "sk-test");
    assert_eq!(openai.model, "gpt-4.1-mini");
}

#[test]
fn persist_model_refuses_and_fills_in() {
    let refused = persist_model_to_path("p", None, Provider::Ollama, "u", "  ");
    assert_eq!(refused.unwrap_err().message(), "model must not be empty");
    let unread = persist_model_to_path(
        "p",
        Some(FileContents::Unreadable),
        Provider::Ollama,
        "u",
        "m",
    );
    assert_eq!(unread.unwrap_err().message(), "failed to read settings file: p");
    let settings = persist_model_to_path(
        "p",
        Some(FileContents::Settings(ollama(" ", "old"))),
        Provider::Ollama,
        "http://there",
        " new ",
    )
    .unwrap();
    let changed = settings.ollama.unwrap();
    assert_eq!(changed.url, "http://there");
    assert_eq!(changed.model, "new");
    let added = persist_model_to_path(
        "p",
        Some(FileContents::Settings(ollama("u", "m"))),
        Provider::OpenAI,
        "b",
        "n",
    )
    .unwrap();
    assert_eq!(added.openai.unwrap().api_key, "");
    assert_eq!(added.ollama.unwrap().model, "m");
}

#[test]
fn map_message_for_openai_preserves_tool_call_id() {
    let message = json(
        "{\"role\": \"tool\", \"tool_call_id\": \"call_123\", \"tool_name\": \"read\", \"content\": \"ok\"}",
    );
    let mapped = map_message_for_openai(0, &message);
    assert_eq!(mapped.str_at("role"), Some("tool"));
    assert_eq!(mapped.str_at("tool_call_id"), Some("call_123"));
    assert_eq!(mapped.str_at("content"), Some("ok"));
}

#[test]
fn map_message_tells_results_without_id_as_user_message() {
    let message = json("{\"role\": \"tool\", \"tool_name\": \"read\", \"content\": \"ok\"}");
    let mapped = map_message_for_openai(3, &message);
    assert_eq!(
        mapped.to_compact().unwrap(),
        "{\"content\":\"Tool read returned:\\nok\",\"role\":\"user\"}"
    );
    let unnamed = map_message_for_openai(3, &json("{\"role\": \"tool\"}"));
    assert_eq!(
        unnamed.str_at("content"),
        Some("Tool unknown returned:\n")
    );
}

#[test]
fn map_message_writes_tool_calls() {
    let message = json(
        "{\"role\":\"assistant\",\"content\":\"\",\"tool_calls\":[{\"function\":{\"name\":\"a\",\"arguments\":{\"x\":\"y\"}}},{\"id\":\"z\",\"function\":{\"name\":\"b\",\"arguments\":\"raw\"}}]}",
    );
    let mapped = map_message_for_openai(2, &message);
    assert_eq!(
        mapped.to_compact().unwrap(),
        "{\"content\":null,\"role\":\"assistant\",\"tool_calls\":[{\"function\":{\"arguments\":\"{\\\"x\\\":\\\"y\\\"}\",\"name\":\"a\"},\"id\":\"call_2_0\",\"type\":\"function\"},{\"function\":{\"arguments\":\"raw\",\"name\":\"b\"},\"id\":\"z\",\"type\":\"function\"}]}"
    );
}

#[test]
fn map_message_defaults_to_the_user() {
    let mapped = map_message_for_openai(0, &json("{\"content\": \"x\"}"));
    assert_eq!(mapped.str_at("role"), Some("user"));
    let system = map_message_for_openai(0, &json("{\"role\": \"system\", \"content\": \"x\"}"));
    assert_eq!(system.str_at("role"), Some("system"));
}

#[test]
fn assistant_content_is_null_only_beside_tool_calls() {
    assert_eq!(
        assistant_content_for_openai(&json("{\"content\": \"\", \"tool_calls\": null}")),
        Json::Null
    );
    assert_eq!(
        assistant_content_for_openai(&json("{\"content\": \"\"}")),
        Json::text("")
    );
}

#[test]
fn arguments_come_back() {
    let arguments = json("{\"a\": [\"b\", null, true]}");
    let text = stringify_tool_arguments(&arguments);
    assert_eq!(text, "{\"a\":[\"b\",null,true]}");
    assert_eq!(Json::parse(&text), Some(arguments));
    assert_eq!(stringify_tool_arguments(&Json::text("plain")), "plain");
}

#[test]
fn chat_request_of_ollama() {
    let client = LLMClient::from_settings(ollama("http://h:1/", "m"));
    let messages = vec![json("{\"role\":\"user\",\"content\":\"hi\"}")];
    let request = client.call_with_tools(&messages, &vec![]).unwrap();
    assert_eq!(request.url, "http://h:1/api/chat");
    assert_eq!(request.bearer, None);
    assert_eq!(
        request.body.unwrap().to_compact().unwrap(),
        "{\"messages\":[{\"content\":\"hi\",\"role\":\"user\"}],\"model\":\"m\",\"options\":{\"num_predict\":4096},\"stream\":false}"
    );
    let with_tools = client
        .call_with_tools(&vec![], &vec![Json::text("t")])
        .unwrap();
    assert_eq!(
        with_tools.body.unwrap().to_compact().unwrap(),
        "{\"messages\":[],\"model\":\"m\",\"options\":{\"num_predict\":4096},\"stream\":false,\"tools\":[\"t\"]}"
    );
}

#[test]
fn chat_request_of_openai() {
    let client = LLMClient::from_settings(openai("http://h/v1", "key", "m"));
    let messages = vec![json("{\"role\":\"tool\",\"tool_name\":\"t\",\"content\":\"c\"}")];
    let request = client
        .call_with_tools(&messages, &vec![Json::text("t")])
        .unwrap();
    assert_eq!(request.url, "http://h/v1/chat/completions");
    assert_eq!(request.bearer, Some("key".to_string()));
    assert_eq!(
        request.body.unwrap().to_compact().unwrap(),
        "{\"max_tokens\":4096,\"messages\":[{\"content\":\"Tool t returned:\\nc\",\"role\":\"user\"}],\"model\":\"m\",\"stream\":false,\"tool_choice\":\"auto\",\"tools\":[\"t\"]}"
    );
}

#[test]
fn prompt_and_model_requests() {
    let client = LLMClient::from_settings(openai("http://h/v1", "key", "m"));
    let request = client.complete_prompt("why", 120).unwrap();
    assert_eq!(
        request.body.unwrap().to_compact().unwrap(),
        "{\"max_tokens\":120,\"messages\":[{\"content\":\"why\",\"role\":\"user\"}],\"model\":\"m\",\"stream\":false}"
    );
    let models = client.list_models().unwrap();
    assert_eq!(models.url, "http://h/v1/models");
    assert!(models.body.is_none());
    let tags = LLMClient::from_settings(ollama("http://o", "m"))
        .list_models()
        .unwrap();
    assert_eq!(tags.url, "http://o/api/tags");
    let summary = client.summarize_messages("user: hi").unwrap();
    let text = summary.body.unwrap().to_compact().unwrap();
    assert!(text.contains("对话历史：\\nuser: hi"));
    assert!(text.contains("\"max_tokens\":1024"));
}

#[test]
fn ollama_reply_becomes_agent_response() {
    let reply = call_with_tools_ollama(HttpOutcome::Reply(OllamaChatResponse {
        message: OllamaMessage {
            content: None,
            tool_calls: Some(vec![OllamaToolCall {
                function: OllamaFunctionCall {
                    name: "echo".into(),
                    arguments: json("{\"text\":\"x\"}"),
                },
            }]),
        },
    }))
    .unwrap();
    assert_eq!(reply.text, "");
    assert_eq!(reply.stop_reason, "tool_use");
    assert_eq!(reply.tool_uses[0].name, "echo");
    assert_eq!(reply.tool_uses[0].id, None);
    assert_eq!(reply.tool_uses[0].arguments.str_at("text"), Some("x"));
}

fn openai_reply(content: Option<&str>, arguments: Vec<&str>) -> OpenAIChatResponse {
    OpenAIChatResponse {
        choices: vec![OpenAIChoice {
            message: OpenAIMessage {
                content: content.map(str::to_string),
                tool_calls: Some(
                    arguments
                        .into_iter()
                        .map(|text| OpenAIToolCall {
                            id: "id".into(),
                            function: OpenAIFunctionCall {
                                name: "f".into(),
                                arguments: text.into(),
                            },
                        })
                        .collect(),
                ),
            },
        }],
    }
}

#[test]
fn openai_reply_becomes_agent_response() {
    let reply = call_with_tools_openai(HttpOutcome::Reply(openai_reply(
        Some("ok"),
        vec!["{\"a\":\"b\"}", "{broken"],
    )))
    .unwrap();
    assert_eq!(reply.text, "ok");
    assert_eq!(reply.stop_reason, "tool_use");
    assert_eq!(reply.tool_uses[0].id, Some("id".to_string()));
    assert_eq!(reply.tool_uses[0].arguments.str_at("a"), Some("b"));
    assert_eq!(reply.tool_uses[1].arguments.str_at("_raw"), Some("{broken"));
    let plain = call_with_tools_openai(HttpOutcome::Reply(openai_reply(None, vec![]))).unwrap();
    assert_eq!(plain.stop_reason, "end_turn");
}

#[test]
fn failed_requests_have_their_messages() {
    let message = |outcome| call_with_tools_openai(outcome).unwrap_err().message();
    assert_eq!(message(HttpOutcome::Failed), "OpenAI request failed");
    assert_eq!(
        message(HttpOutcome::Unreadable),
        "failed to parse OpenAI response"
    );
    assert_eq!(message(status()), "OpenAI returned error 404 Not Found: gone");
    assert_eq!(
        message(HttpOutcome::Reply(OpenAIChatResponse { choices: vec![] })),
        "OpenAI returned no choices"
    );
    assert_eq!(
        call_with_tools_ollama(status()).unwrap_err().message(),
        "Ollama returned error 404 Not Found: gone"
    );
    assert_eq!(
        complete_prompt_ollama(HttpOutcome::Failed).unwrap_err().message(),
        "Ollama prompt request failed"
    );
    assert_eq!(
        complete_prompt_openai(HttpOutcome::Unreadable)
            .unwrap_err()
            .message(),
        "failed to parse OpenAI prompt response"
    );
    assert_eq!(
        complete_prompt_openai(HttpOutcome::Reply(openai_reply(Some("hi"), vec![]))).unwrap(),
        "hi"
    );
    assert_eq!(
        listed_models(Provider::Ollama, HttpOutcome::Failed)
            .unwrap_err()
            .message(),
        "failed to fetch Ollama model tags"
    );
}

#[test]
fn models_are_sorted_and_listed_once() {
    let names = ["b", "a", "b", "B", "a:7b"];
    let models = listed_models(
        Provider::OpenAI,
        HttpOutcome::Reply(names.iter().map(|s| s.to_string()).collect()),
    )
    .unwrap();
    assert_eq!(models, vec!["B", "a", "a:7b", "b"]);
}

#[test]
fn blank_ollama_settings_do_not_matter_beside_openai() {
    let mut settings = openai("u", "k", "m");
    settings.ollama = Some(OllamaSettings {
        url: String::new(),
        model: String::new(),
    });
    assert!(load_settings_from_path("p", FileContents::Settings(settings)).is_ok());
}

#[test]
fn written_settings_read_back() {
    let text = settings_json(&openai("http://b", "k\"ey", "m"));
    let read = json(&text);
    assert_eq!(read.get("ollama"), Some(&Json::Null));
    let section = read.get("openai").unwrap();
    assert_eq!(section.str_at("base_url"), Some("http://b"));
    assert_eq!(section.str_at("api_key"), Some("k\"ey"));
    assert_eq!(section.str_at("model"), Some("m"));
    assert_eq!(
        settings_json(&ollama("u", "m")),
        "{\n  \"ollama\": {\n    \"url\": \"u\",\n    \"model\": \"m\"\n  },\n  \"openai\": null\n}"
    );
    assert_eq!(
        text,
        "{\n  \"ollama\": null,\n  \"openai\": {\n    \"base_url\": \"http://b\",\n    \"api_key\": \"k\\\"ey\",\n    \"model\": \"m\"\n  }\n}"
    );
    let mut both = ollama("\u{1F600}\n", "");
    both.openai = openai("", "\u{7}", "é").openai;
    let read = json(&settings_json(&both));
    assert_eq!(read.get("ollama").unwrap().str_at("url"), Some("\u{1F600}\n"));
    assert_eq!(read.get("openai").unwrap().str_at("api_key"), Some("\u{7}"));
    assert!(settings_json(&both).contains("\"url\": \"\u{1F600}\\n\",\n    \"model\": \"\"\n  },"));
}
