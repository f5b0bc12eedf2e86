use localcoder::config::{AppConfig, Theme};
use localcoder::prompt_input::{picked_line, PromptSignal};
use localcoder::repl::{
    after_lookup, build_main_prompt_footer_lines, choose_startup_tip_index, failure_line,
    handle_command, init_session, missing_line, print_help, print_startup_intro, start_repl,
    CommandOutcome, ReplAction, ResumeTarget,
};
use localcoder::repl_completion::build_slash_commands;
use localcoder::slash::{command_arg, parse_slash_skill};
use localcoder::types::ConversationHistory;

fn run(command: &str, history: &mut ConversationHistory) -> CommandOutcome {
    handle_command(command, history, "0.1.0")
}

fn action(line: &str) -> ReplAction<String> {
    start_repl(&PromptSignal::Submitted(line.to_string()), true, true)
}

#[test]
fn exit_command_returns_true() {
    let mut h = ConversationHistory::new();
    assert!(run("/exit", &mut h).exit);
}

#[test]
fn quit_command_returns_true() {
    let mut h = ConversationHistory::new();
    assert!(run("/quit", &mut h).exit);
}

#[test]
fn clear_command_empties_history() {
    let mut h = ConversationHistory::new();
    h.add_user_message("hello");
    h.add_assistant_message("hi");
    run("/clear", &mut h);
    assert!(h.is_empty());
}

#[test]
fn clear_command_returns_false() {
    let mut h = ConversationHistory::new();
    assert!(!run("/clear", &mut h).exit);
}

#[test]
fn history_command_preserves_history() {
    let mut h = ConversationHistory::new();
    h.add_user_message("test");
    let result = run("/history", &mut h);
    assert!(!result.exit);
    assert_eq!(h.len(), 1);
    assert_eq!(result.output[1], h.to_json().unwrap());
}

#[test]
fn count_command_preserves_history() {
    let mut h = ConversationHistory::new();
    h.add_user_message("a");
    h.add_assistant_message("b");
    let result = run("/count", &mut h);
    assert!(!result.exit);
    assert_eq!(h.len(), 2);
    assert_eq!(
        result.output,
        vec!["\n\x1B[1m\x1B[36m📊 Message count:\x1B[39m\x1B[22m 2"]
    );
}

#[test]
fn help_command_returns_false() {
    let mut h = ConversationHistory::new();
    assert!(!run("/help", &mut h).exit);
}

#[test]
fn version_command_returns_false() {
    let mut h = ConversationHistory::new();
    let result = run("/version", &mut h);
    assert!(!result.exit);
    assert!(result.output[0].ends_with("\x1B[37m0.1.0\x1B[39m"));
}

#[test]
fn unknown_command_returns_false() {
    let mut h = ConversationHistory::new();
    assert!(!run("/unknown", &mut h).exit);
}

#[test]
fn unknown_command_does_not_modify_history() {
    let mut h = ConversationHistory::new();
    let result = run("/bogus", &mut h);
    assert!(h.is_empty());
    assert!(result.output[0].ends_with(" /bogus"));
    assert_eq!(
        result.output[1],
        "Type \x1B[33m/help\x1B[39m to see available commands"
    );
}

#[test]
fn commands_are_case_insensitive() {
    let mut h = ConversationHistory::new();
    assert!(run("/EXIT", &mut h).exit);
}

#[test]
fn empty_history_is_said_to_be_empty() {
    let mut h = ConversationHistory::new();
    assert_eq!(run("/history", &mut h).output[1], "  \x1B[2m(empty)\x1B[22m");
}

#[test]
fn command_arg_matches_exact_command() {
    assert_eq!(command_arg("/commit", "/commit"), Some(""));
}

#[test]
fn command_arg_extracts_argument() {
    assert_eq!(
        command_arg("/commit feat: add git", "/commit"),
        Some("feat: add git")
    );
}

#[test]
fn command_arg_rejects_prefix_without_separator() {
    assert_eq!(command_arg("/commitment", "/commit"), None);
}

#[test]
fn repl_parse_slash_skill_extracts_name_and_args() {
    assert_eq!(
        parse_slash_skill("/simplify src/lib.rs"),
        Some(("simplify", "src/lib.rs"))
    );
}

#[test]
fn repl_parse_slash_skill_handles_name_only() {
    assert_eq!(parse_slash_skill("/simplify"), Some(("simplify", "")));
}

#[test]
fn slash_alone_is_no_skill() {
    assert_eq!(parse_slash_skill("/"), None);
    assert_eq!(parse_slash_skill("  /x\t y  z "), Some(("x", "y  z")));
    assert_eq!(parse_slash_skill("/ x"), Some(("", "x")));
}

#[test]
fn choose_startup_tip_index_stays_in_range() {
    assert_eq!(choose_startup_tip_index(0, 7), 0);
    assert_eq!(choose_startup_tip_index(1, 7), 0);

    for seed in 0..32 {
        assert!(choose_startup_tip_index(4, seed) < 4);
    }
    assert_eq!(choose_startup_tip_index(4, 7), 3);
}

#[test]
fn status_tells_the_conversation() {
    assert_eq!(init_session(&ResumeTarget::New, None), "new conversation");
    assert_eq!(
        init_session(&ResumeTarget::ContinueLatest, Some("s1")),
        "continued s1"
    );
    assert_eq!(
        init_session(&ResumeTarget::ContinueLatest, None),
        "new conversation (no previous session found)"
    );
    assert_eq!(
        init_session(&ResumeTarget::ResumeId("x".to_string()), None),
        "resumed x"
    );
}

#[test]
fn intro_ends_with_a_tip_where_tips_are_on() {
    let mut config = AppConfig {
        theme: Theme::Dark,
        output_style: "plain".to_string(),
        tips: true,
    };
    let lines = print_startup_intro("new conversation", &config, "http://x", 6);
    assert_eq!(lines.len(), 5);
    assert_eq!(
        lines[1],
        "\x1B[2mui\x1B[22m theme=\x1B[37mdark\x1B[39m output=\x1B[37mplain\x1B[39m"
    );
    assert!(lines[3].contains("/resume switches to a saved conversation"));
    config.tips = false;
    assert_eq!(
        print_startup_intro("new conversation", &config, "http://x", 6).len(),
        3
    );
}

#[test]
fn footer_names_provider_and_model() {
    assert_eq!(
        build_main_prompt_footer_lines("Ollama", "m"),
        vec!["\x1B[2mllm\x1B[22m \x1B[37mOllama\x1B[39m  \x1B[2mmodel\x1B[22m \x1B[37mm\x1B[39m"]
    );
}

#[test]
fn help_lists_all_commands() {
    let lines = print_help();
    assert_eq!(lines.len(), 27);
    assert_eq!(lines[1], "");
    assert_eq!(
        lines[2],
        "  \x1B[33m/exit, /quit\x1B[39m          - Exit the program"
    );
    assert_eq!(
        lines[25],
        "  \x1B[33m/version\x1B[39m          - Show current version"
    );
    assert_eq!(lines[26], "");
}

#[test]
fn lines_are_dispatched() {
    assert!(matches!(action("  "), ReplAction::Ignore));
    assert!(matches!(action(" /resume now"), ReplAction::Resume));
    assert!(matches!(action("/model"), ReplAction::SelectModel));
    assert!(matches!(action("/config"), ReplAction::Config));
    assert!(matches!(action("/compact"), ReplAction::Compact));
    assert!(matches!(action("/diff"), ReplAction::Diff));
    assert!(matches!(action("/review"), ReplAction::Review));
    assert!(matches!(action("/commit"), ReplAction::Commit(None)));
    assert!(matches!(action("/memory"), ReplAction::Memory));
    assert!(matches!(action("/skills"), ReplAction::Skills));
    match action("/commit  feat: x ") {
        ReplAction::Commit(Some(title)) => assert_eq!(title, "feat: x"),
        _ => panic!("expected a commit"),
    }
    match action("/web a b") {
        ReplAction::WebSearch(query) => assert_eq!(query, "a b"),
        _ => panic!("expected a search"),
    }
    match action("/fetch u") {
        ReplAction::WebFetch(url) => assert_eq!(url, "u"),
        _ => panic!("expected a fetch"),
    }
    match action("/server stop") {
        ReplAction::Server(args) => assert_eq!(args, "stop"),
        _ => panic!("expected the server"),
    }
    match action("/output-style") {
        ReplAction::OutputStyle(name) => assert_eq!(name, ""),
        _ => panic!("expected a style"),
    }
    match action("/plan on") {
        ReplAction::Plan(args) => assert_eq!(args, "on"),
        _ => panic!("expected the plan"),
    }
    match action(" explain this ") {
        ReplAction::Turn(text) => assert_eq!(text, "explain this"),
        _ => panic!("expected a message"),
    }
    match action("/simplify a b") {
        ReplAction::LookUpSkill { name, args } => {
            assert_eq!(name, "simplify");
            assert_eq!(args, "a b");
        }
        _ => panic!("expected a skill"),
    }
    assert!(matches!(
        start_repl(&PromptSignal::Interrupted, true, true),
        ReplAction::Quit
    ));
    assert!(matches!(
        start_repl(&PromptSignal::Eof, true, true),
        ReplAction::Quit
    ));
}

#[test]
fn slash_alone_opens_the_menu() {
    for line in ["/", "  / ", "/\n"] {
        assert!(matches!(action(line), ReplAction::PickCommand));
    }
    assert!(matches!(action("//"), ReplAction::LookUpSkill { .. }));
}

#[test]
fn picked_command_goes_into_the_line() {
    let commands = build_slash_commands(None);
    let picked = |chosen: &str| picked_line(&commands, Some(chosen));
    assert_eq!(picked("help"), Some("/help".to_string()));
    assert_eq!(picked("commit"), Some("/commit ".to_string()));
    assert_eq!(picked("web"), Some("/web ".to_string()));
    assert_eq!(picked("nothing"), None);
    assert_eq!(picked_line(&commands, None), None);
}

#[test]
fn help_speaks_of_every_command() {
    let help = print_help().join("\n");
    for command in build_slash_commands(None) {
        assert!(help.contains(&command.name), "{}", command.name);
    }
}

#[test]
fn builtin_commands_come_before_skills() {
    for line in ["/help", "/EXIT", "/clear", "/history", "/count", "/version"] {
        match action(line) {
            ReplAction::Command(command) => assert_eq!(command, line),
            _ => panic!("expected a command"),
        }
    }
}

#[test]
fn without_managers_there_is_nothing_to_ask() {
    let alone = |line: &str| start_repl(&PromptSignal::Submitted(line.to_string()), false, false);
    assert!(missing_line(&alone("/plan"))
        .unwrap()
        .contains("❌ Plan mode is not initialized"));
    assert!(missing_line(&alone("/skills"))
        .unwrap()
        .contains("❌ Skills are not initialized"));
    assert!(missing_line(&alone("/diff")).is_none());
    assert!(matches!(alone("/simplify"), ReplAction::Command(_)));
}

#[test]
fn lookup_decides_about_a_skill() {
    assert!(matches!(
        after_lookup("/x y", "x", "y", Ok(true)),
        ReplAction::RunSkill { .. }
    ));
    match after_lookup(" /x y ", "x", "y", Ok(false)) {
        ReplAction::Command(line) => assert_eq!(line, "/x y"),
        _ => panic!("expected a command"),
    }
    let failed = after_lookup("/x", "x", "", Err("no disk".to_string()));
    match &failed {
        ReplAction::LookUpFailed(error) => assert_eq!(error, "no disk"),
        _ => panic!("expected a failure"),
    }
    assert_eq!(
        failure_line(&failed, "no disk"),
        "\n\x1B[1m\x1B[31m❌ Skill lookup failed:\x1B[39m\x1B[22m no disk"
    );
}

#[test]
fn failures_are_labelled() {
    assert!(failure_line(&action("/diff"), "e").contains("❌ Diff failed:"));
    assert!(failure_line(&action("hello"), "e").contains("❌ Error:"));
    assert!(failure_line(&action("/model"), "e").contains("❌ Failed to update model:"));
}
