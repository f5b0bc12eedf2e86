use localcoder::cli::{
    checked_style, effective_prompt, one_shot, parse_args, parse_command_arg, print_banner,
    prompt_text, saved_memories_line, OneShotAction,
};
use localcoder::repl::ResumeTarget;
use localcoder::slash::parse_slash_skill;

#[test]
fn parse_args_continue() {
    let (resume, prompt) = parse_args(&vec!["--continue".into()]).unwrap();
    assert!(matches!(resume, ResumeTarget::ContinueLatest));
    assert!(prompt.is_empty());
}

#[test]
fn parse_args_resume_with_id() {
    let (resume, prompt) = parse_args(&vec!["--resume".into(), "abc123".into()]).unwrap();
    match resume {
        ResumeTarget::ResumeId(id) => assert_eq!(id, "abc123"),
        _ => panic!("expected ResumeId"),
    }
    assert!(prompt.is_empty());
}

#[test]
fn parse_args_prompt_only() {
    let (resume, prompt) = parse_args(&vec!["hello".into(), "world".into()]).unwrap();
    assert!(matches!(resume, ResumeTarget::New));
    assert_eq!(prompt, vec!["hello", "world"]);
}

#[test]
fn main_parse_slash_skill_extracts_name_and_args() {
    assert_eq!(
        parse_slash_skill("/simplify src/main.rs"),
        Some(("simplify", "src/main.rs"))
    );
}

#[test]
fn main_parse_slash_skill_handles_name_only() {
    assert_eq!(parse_slash_skill("/simplify"), Some(("simplify", "")));
}

#[test]
fn parse_slash_skill_rejects_non_slash_input() {
    assert_eq!(parse_slash_skill("simplify"), None);
}

#[test]
fn parse_command_arg_extracts_argument() {
    assert_eq!(
        parse_command_arg("/web rust async", "/web"),
        Some("rust async")
    );
}

#[test]
fn parse_command_arg_rejects_partial_prefix() {
    assert_eq!(parse_command_arg("/webbing x", "/web"), None);
}

#[test]
fn parse_args_takes_the_last_target_and_keeps_words() {
    let args: Vec<String> = ["a", "--resume", "--continue", "b", "--continue"]
        .iter()
        .map(|s| s.to_string())
        .collect();
    let (resume, prompt) = parse_args(&args).unwrap();
    assert!(matches!(resume, ResumeTarget::ContinueLatest));
    assert_eq!(prompt, vec!["a", "b"]);
    assert_eq!(prompt_text(&prompt), "a b");
}

#[test]
fn parse_args_needs_an_id_behind_resume() {
    let error = parse_args(&vec!["x".into(), "--resume".into()]).unwrap_err();
    assert_eq!(error.message(), "--resume requires a session id");
}

#[test]
fn one_shot_starts_the_server() {
    match one_shot("/server 127.0.0.1:4000").unwrap() {
        OneShotAction::RunServer { host, port } => {
            assert_eq!(host, "127.0.0.1");
            assert_eq!(port, 4000);
        }
        _ => panic!("expected the server"),
    }
    match one_shot("/server").unwrap() {
        OneShotAction::RunServer { host, port } => {
            assert_eq!(host, "127.0.0.1");
            assert_eq!(port, 3000);
        }
        _ => panic!("expected the server"),
    }
}

#[test]
fn one_shot_refuses_other_server_commands() {
    assert_eq!(
        one_shot("/server stop").err().unwrap().message(),
        "one-shot mode only supports /server or /server <host:port>"
    );
    assert_eq!(
        one_shot("/server  nowhere ").err().unwrap().message(),
        "invalid server address: nowhere"
    );
}

#[test]
fn one_shot_tells_commands_apart() {
    assert!(matches!(one_shot(" /plan ").unwrap(), OneShotAction::ShowPlan));
    assert!(matches!(one_shot("/skills").unwrap(), OneShotAction::ListSkills));
    assert!(matches!(
        one_shot("/output-style").unwrap(),
        OneShotAction::ListStyles
    ));
    match one_shot("/output-style  terse ").unwrap() {
        OneShotAction::CheckStyle(name) => assert_eq!(name, "terse"),
        _ => panic!("expected a style"),
    }
    match one_shot("/web rust").unwrap() {
        OneShotAction::WebSearch(query) => assert_eq!(query, "rust"),
        _ => panic!("expected a search"),
    }
    match one_shot("/fetch http://x").unwrap() {
        OneShotAction::WebFetch(url) => assert_eq!(url, "http://x"),
        _ => panic!("expected a fetch"),
    }
}

#[test]
fn one_shot_asks_the_model() {
    match one_shot("  /plan on ").unwrap() {
        OneShotAction::Ask { prompt, skill } => {
            assert_eq!(prompt, "/plan on");
            assert_eq!(skill, Some(("plan".to_string(), "on".to_string())));
        }
        _ => panic!("expected a question"),
    }
    match one_shot(" hello ").unwrap() {
        OneShotAction::Ask { prompt, skill } => {
            assert_eq!(prompt, "hello");
            assert_eq!(skill, None);
        }
        _ => panic!("expected a question"),
    }
}

#[test]
fn unknown_style_is_refused() {
    assert_eq!(checked_style("terse", true).unwrap(), "terse");
    assert_eq!(
        checked_style("x", false).unwrap_err().message(),
        "unknown output style: x"
    );
}

#[test]
fn skill_message_takes_the_place_of_the_prompt() {
    assert_eq!(effective_prompt(" hi ", None), "hi");
    assert_eq!(effective_prompt("/x y", Some("do x")), "do x");
}

#[test]
fn saved_memories_are_listed() {
    assert_eq!(saved_memories_line(&vec![]), None);
    let saved = vec![
        ("user".to_string(), "a".to_string()),
        ("project".to_string(), "b".to_string()),
    ];
    assert_eq!(
        saved_memories_line(&saved).unwrap(),
        "\x1B[1m\x1B[36m🧠 Saved memories:\x1B[39m\x1B[22m [user] a, [project] b"
    );
}

#[test]
fn banner_has_four_lines() {
    let lines = print_banner();
    assert_eq!(lines.len(), 4);
    assert!(lines[1].contains("Localcoder Minimal Version (Rust) - CLI Interface"));
    assert_eq!(lines[3], "");
}
