use localcoder::commit::{action_line, confirm_options, CommitAction, CommitEvent, CommitFlow};
use localcoder::config::{AppConfig, Theme};
use localcoder::json::Json;
use localcoder::repl_commands::{
    allowed_tools_line, auto_compact_line, chosen_session, compact_line, config_options,
    configure_theme, configure_tips, handle_config_command, handle_diff_command,
    handle_manual_compact, handle_output_style_command, handle_plan_command,
    handle_resume_command, handle_review_command, handle_web_fetch_command,
    handle_web_search_command, model_options, plan_heading, requested_style, session_line,
    session_options, skill_line, stopped_line, theme_options, tips_options, updated_line,
    ConfigAction, PlanAction, ServerAction, ServerControl, SettingOutcome,
};
use localcoder::repl_turn::{TurnAction, TurnEvent, TurnFlow};
use localcoder::types::ConversationHistory;

fn json(text: &str) -> Json {
    Json::parse(text).unwrap()
}

fn config() -> AppConfig {
    AppConfig {
        theme: Theme::Default,
        output_style: "plain".to_string(),
        tips: false,
    }
}

#[test]
fn diff_is_shown_or_said_to_be_missing() {
    assert_eq!(
        handle_diff_command(" \n"),
        "\x1B[33mℹ️ No git changes to show\x1B[39m"
    );
    assert!(handle_diff_command("+x").ends_with("\n+x"));
}

#[test]
fn review_asks_about_the_beginning_of_the_diff() {
    assert_eq!(handle_review_command("  "), None);
    let prompt = handle_review_command(&"d".repeat(12_001)).unwrap();
    assert!(prompt.starts_with("请审查以下代码变更"));
    assert!(prompt.ends_with("d..."));
    assert_eq!(prompt.matches('d').count(), 12_000 + 1);
}

#[test]
fn web_commands_need_an_argument() {
    assert_eq!(
        handle_web_search_command(" "),
        Err("please provide a search query")
    );
    assert_eq!(handle_web_search_command("x"), Ok(()));
    assert_eq!(handle_web_fetch_command(""), Err("please provide a URL"));
}

#[test]
fn plan_words_are_understood() {
    assert_eq!(handle_plan_command(""), PlanAction::Show);
    assert_eq!(handle_plan_command(" ON "), PlanAction::Enter);
    assert_eq!(handle_plan_command("enter"), PlanAction::Enter);
    assert_eq!(handle_plan_command("off"), PlanAction::Exit);
    assert_eq!(handle_plan_command("Exit"), PlanAction::Exit);
    assert_eq!(handle_plan_command("clear"), PlanAction::Clear);
    assert_eq!(handle_plan_command("what"), PlanAction::Unknown);
    assert!(plan_heading(PlanAction::Show).contains("📋 Plan Status:"));
    assert!(plan_heading(PlanAction::Unknown).contains("Unknown /plan option"));
}

#[test]
fn output_style_is_switched_where_known() {
    let mut settings = config();
    assert_eq!(requested_style("  "), None);
    assert_eq!(requested_style(" terse "), Some("terse".to_string()));
    assert_eq!(
        handle_output_style_command(&mut settings, "odd", false),
        Err("unknown output style: odd".to_string())
    );
    assert_eq!(settings.output_style, "plain");
    assert_eq!(
        handle_output_style_command(&mut settings, "terse", true),
        Ok(())
    );
    assert_eq!(settings.output_style, "terse");
    assert_eq!(
        updated_line("✅ Theme updated:", "dark", "/p"),
        "\x1B[32m✅ Theme updated:\x1B[39m dark (/p)"
    );
}

#[test]
fn settings_are_chosen() {
    let mut settings = config();
    assert_eq!(handle_config_command(Some("theme")), ConfigAction::Theme);
    assert_eq!(handle_config_command(Some("tips")), ConfigAction::Tips);
    assert_eq!(handle_config_command(Some("x")), ConfigAction::Unknown);
    assert_eq!(handle_config_command(None), ConfigAction::Cancelled);
    assert_eq!(
        configure_theme(&mut settings, Some("dark")),
        SettingOutcome::Changed
    );
    assert_eq!(settings.theme, Theme::Dark);
    assert_eq!(
        configure_theme(&mut settings, Some("pink")),
        SettingOutcome::Unknown
    );
    assert_eq!(configure_theme(&mut settings, None), SettingOutcome::Cancelled);
    assert_eq!(settings.theme, Theme::Dark);
    assert_eq!(
        configure_tips(&mut settings, Some("on")),
        SettingOutcome::Changed
    );
    assert!(settings.tips);
    assert_eq!(
        configure_tips(&mut settings, Some("maybe")),
        SettingOutcome::Unknown
    );
    assert_eq!(
        configure_tips(&mut settings, Some("off")),
        SettingOutcome::Changed
    );
    assert!(!settings.tips);
    assert_eq!(config_options().len(), 2);
    assert_eq!(theme_options()[2].command, "dark");
    assert_eq!(tips_options()[1].description, "Keep startup quieter");
}

#[test]
fn sessions_are_offered_and_found() {
    let sessions = vec![
        (
            "s1".to_string(),
            Some(vec![json("{\"role\":\"user\",\"content\":\"hello\"}")]),
        ),
        ("s2".to_string(), None),
    ];
    let options = session_options(&sessions);
    assert_eq!(options[0].command, "s1");
    assert_eq!(options[0].description, "hello");
    assert_eq!(options[1].description, "(failed to load)");
    let ids = vec!["s1".to_string(), "s2".to_string()];
    assert_eq!(chosen_session(&ids, "s2"), Ok(1));
    assert_eq!(
        chosen_session(&ids, "s3"),
        Err("selected session not found: s3".to_string())
    );
    assert_eq!(
        session_line("session resumed", "s1"),
        "\x1B[1m\x1B[37msession resumed\x1B[39m\x1B[22m \x1B[37ms1\x1B[39m"
    );
}

#[test]
fn resumed_conversation_is_shown() {
    let mut messages = vec![Json::Null];
    let mut shown = ConversationHistory::new();
    let visible = handle_resume_command(
        &mut messages,
        &mut shown,
        vec![
            json("{\"role\":\"user\",\"content\":\"a\"}"),
            json("{\"role\":\"tool\",\"content\":\"b\"}"),
        ],
    );
    assert_eq!(visible, 1);
    assert_eq!(messages.len(), 2);
    assert_eq!(shown.len(), 1);
}

#[test]
fn compaction_is_taken_over_and_reported() {
    let mut messages = vec![Json::Null, Json::Null];
    assert!(!handle_manual_compact(&mut messages, None));
    assert_eq!(messages.len(), 2);
    assert!(handle_manual_compact(
        &mut messages,
        Some(vec![Json::text("summary")])
    ));
    assert_eq!(messages, vec![Json::text("summary")]);
    assert_eq!(
        compact_line(Some(12)),
        "\x1B[32m✅ Context compacted. Estimated tokens:\x1B[39m 12"
    );
    assert!(compact_line(None).contains("ℹ️ Not enough history to compact yet"));
    assert!(auto_compact_line(3).ends_with(" 3"));
}

#[test]
fn skills_are_announced() {
    assert_eq!(
        skill_line("x", "user", "inline"),
        "\x1B[1m\x1B[36m🧩 Skill:\x1B[39m\x1B[22m \x1B[37mx\x1B[39m \x1B[2m[user / inline]\x1B[22m"
    );
    assert_eq!(allowed_tools_line(&vec![]), None);
    assert!(
        allowed_tools_line(&vec!["a".to_string(), "b".to_string()])
            .unwrap()
            .ends_with(" a, b")
    );
}

#[test]
fn current_model_is_marked() {
    let models = vec!["a".to_string(), "b".to_string()];
    let options = model_options(&models, "b");
    assert_eq!(options[0].description, "Available model");
    assert_eq!(options[1].description, "Current model");
}

#[test]
fn running_server_is_not_started_again() {
    let mut control = ServerControl::new();
    match control.handle_server_command("status").unwrap() {
        ServerAction::Say(line) => assert!(line.contains("ℹ️ Server is not running")),
        _ => panic!("expected a line"),
    }
    match control.handle_server_command("").unwrap() {
        ServerAction::Start(config) => assert_eq!(config.port, 3000),
        _ => panic!("expected a start"),
    }
    assert_eq!(
        control.started("127.0.0.1:3000"),
        "\n\x1B[1m\x1B[32m🌐 Server started at\x1B[39m\x1B[22m http://127.0.0.1:3000"
    );
    match control.handle_server_command("0.0.0.0:80").unwrap() {
        ServerAction::Say(line) => {
            assert!(line.contains("🌐 Server is already running at"));
            assert!(line.ends_with("http://127.0.0.1:3000"));
        }
        _ => panic!("expected a line"),
    }
    assert!(matches!(
        control.handle_server_command("stop").unwrap(),
        ServerAction::Stop
    ));
    assert!(stopped_line().contains("🛑 Server stopped"));
    assert!(matches!(
        control.handle_server_command("stop").unwrap(),
        ServerAction::Say(_)
    ));
    assert_eq!(
        control.handle_server_command("x").err().unwrap().message(),
        "invalid server address: x"
    );
}

#[test]
fn finished_server_is_reaped() {
    let mut control = ServerControl::new();
    assert!(!control.is_over(true));
    control.started("a:1");
    assert!(!control.is_over(false));
    assert!(control.is_over(true));
    assert!(control
        .reaped(Some("crash"))
        .ends_with("⚠️ Background server exited unexpectedly:\x1B[39m\x1B[22m crash"));
    assert!(!control.is_over(true));
    assert!(control.reaped(None).contains("already stopped"));
}

#[test]
fn staged_changes_are_committed_as_they_are() {
    let (mut flow, first) = CommitFlow::begin(None);
    assert!(matches!(first, CommitAction::CheckRepo));
    assert!(matches!(
        flow.handle_commit_command(CommitEvent::Done),
        CommitAction::GetStaged
    ));
    match flow.handle_commit_command(CommitEvent::Diff("+x".to_string())) {
        CommitAction::AskModel(prompt) => assert!(prompt.ends_with("Diff:\n+x")),
        _ => panic!("expected a question"),
    }
    match flow.handle_commit_command(CommitEvent::Reply(" feat: x \nmore".to_string())) {
        CommitAction::Confirm(message) => assert_eq!(message, "feat: x"),
        _ => panic!("expected a suggestion"),
    }
    match flow.handle_commit_command(CommitEvent::Choice(Some("yes".to_string()))) {
        CommitAction::Commit(message) => assert_eq!(message, "feat: x"),
        _ => panic!("expected a commit"),
    }
    let done = flow.handle_commit_command(CommitEvent::Done);
    assert_eq!(
        action_line(&done).unwrap(),
        "\x1B[32m✅ Committed:\x1B[39m \x1B[37mfeat: x\x1B[39m"
    );
}

#[test]
fn working_changes_are_staged_first() {
    let (mut flow, _) = CommitFlow::begin(Some(" fix: y ".to_string()));
    flow.handle_commit_command(CommitEvent::Done);
    assert!(matches!(
        flow.handle_commit_command(CommitEvent::Diff("  ".to_string())),
        CommitAction::GetWorking
    ));
    match flow.handle_commit_command(CommitEvent::Diff("-y".to_string())) {
        CommitAction::Confirm(message) => assert_eq!(message, "fix: y"),
        _ => panic!("expected a suggestion"),
    }
    assert!(matches!(
        flow.handle_commit_command(CommitEvent::Choice(Some("edit".to_string()))),
        CommitAction::Edit(_)
    ));
    assert!(matches!(
        flow.handle_commit_command(CommitEvent::Edited(" fix: z ".to_string())),
        CommitAction::StageAll
    ));
    match flow.handle_commit_command(CommitEvent::Done) {
        CommitAction::Commit(message) => assert_eq!(message, "fix: z"),
        _ => panic!("expected a commit"),
    }
}

#[test]
fn commit_ends_without_changes_or_consent() {
    let (mut flow, _) = CommitFlow::begin(None);
    flow.handle_commit_command(CommitEvent::Done);
    flow.handle_commit_command(CommitEvent::Diff(String::new()));
    assert!(matches!(
        flow.handle_commit_command(CommitEvent::Diff("\n".to_string())),
        CommitAction::Nothing
    ));
    let (mut flow, _) = CommitFlow::begin(Some("t".to_string()));
    flow.handle_commit_command(CommitEvent::Done);
    flow.handle_commit_command(CommitEvent::Diff("d".to_string()));
    assert!(matches!(
        flow.handle_commit_command(CommitEvent::Choice(None)),
        CommitAction::Cancelled
    ));
    let (mut flow, _) = CommitFlow::begin(None);
    flow.handle_commit_command(CommitEvent::Done);
    flow.handle_commit_command(CommitEvent::Diff("d".to_string()));
    match flow.handle_commit_command(CommitEvent::Reply("\nx".to_string())) {
        CommitAction::Fail(message) => {
            assert_eq!(message, "model returned an empty commit message")
        }
        _ => panic!("expected a failure"),
    }
    assert_eq!(confirm_options()[1].command, "edit");
}

#[test]
fn turn_stores_and_shows() {
    let mut messages = Vec::new();
    let mut shown = ConversationHistory::new();
    let (mut flow, first) = TurnFlow::begin(&mut messages, &mut shown, "hi", false);
    assert!(matches!(first, TurnAction::CreateSession));
    assert_eq!(shown.len(), 1);
    assert!(matches!(
        flow.run_user_turn(&mut messages, &mut shown, TurnEvent::Done),
        TurnAction::StoreMessage
    ));
    assert!(matches!(
        flow.run_user_turn(&mut messages, &mut shown, TurnEvent::Done),
        TurnAction::Compact
    ));
    assert!(matches!(
        flow.run_user_turn(&mut messages, &mut shown, TurnEvent::Compacted(None)),
        TurnAction::BuildPrompt
    ));
    assert!(matches!(
        flow.run_user_turn(&mut messages, &mut shown, TurnEvent::Done),
        TurnAction::RunAgent
    ));
    messages.push(json("{\"role\":\"assistant\",\"content\":\"hello\"}"));
    assert!(matches!(
        flow.run_user_turn(&mut messages, &mut shown, TurnEvent::Done),
        TurnAction::StoreReplies
    ));
    assert_eq!(flow.replies(&messages).len(), 1);
    assert_eq!(flow.loop_start(), 1);
    assert!(matches!(
        flow.run_user_turn(&mut messages, &mut shown, TurnEvent::Done),
        TurnAction::SaveMemories
    ));
    assert_eq!(shown.len(), 2);
    assert!(matches!(
        flow.run_user_turn(&mut messages, &mut shown, TurnEvent::Done),
        TurnAction::ClearSkill
    ));
    assert!(matches!(
        flow.run_user_turn(&mut messages, &mut shown, TurnEvent::Done),
        TurnAction::Finish
    ));
}

#[test]
fn failed_turn_shows_what_there_is() {
    let mut messages = Vec::new();
    let mut shown = ConversationHistory::new();
    let (mut flow, first) = TurnFlow::begin(&mut messages, &mut shown, "hi", true);
    assert!(matches!(first, TurnAction::StoreMessage));
    flow.run_user_turn(&mut messages, &mut shown, TurnEvent::Done);
    let compacted = vec![json("{\"role\":\"user\",\"content\":\"summary\"}")];
    assert!(matches!(
        flow.run_user_turn(&mut messages, &mut shown, TurnEvent::Compacted(Some(compacted))),
        TurnAction::StoreAll
    ));
    assert!(matches!(
        flow.run_user_turn(&mut messages, &mut shown, TurnEvent::Done),
        TurnAction::BuildPrompt
    ));
    assert_eq!(shown.get_messages()[0].content, "summary");
    flow.run_user_turn(&mut messages, &mut shown, TurnEvent::Done);
    messages.push(json("{\"role\":\"assistant\",\"content\":\"part\"}"));
    assert!(matches!(
        flow.run_user_turn(
            &mut messages,
            &mut shown,
            TurnEvent::Failed("offline".to_string()),
        ),
        TurnAction::ClearSkill
    ));
    assert_eq!(shown.len(), 2);
    match flow.run_user_turn(&mut messages, &mut shown, TurnEvent::Done) {
        TurnAction::Fail(message) => assert_eq!(message, "offline"),
        _ => panic!("expected a failure"),
    }
}
