use localcoder::repl_completion::{
    build_slash_commands, builtin_commands, matching_commands, skill_to_command,
    ReplCommandSource, Skill,
};

fn skill(name: &str, description: &str, hint: Option<&str>) -> Skill {
    Skill {
        name: name.to_string(),
        description: description.to_string(),
        argument_hint: hint.map(str::to_string),
    }
}

#[test]
fn matching_commands_filters_expected_candidates() {
    let matches = matching_commands(&builtin_commands(), "/co");
    let names = matches
        .into_iter()
        .map(|item| item.name)
        .collect::<Vec<_>>();
    assert_eq!(&names[..3], ["/commit", "/compact", "/config"]);
    assert!(names.contains(&"/count".to_string()));
}

#[test]
fn build_slash_commands_includes_user_invocable_skills() {
    let skills = vec![skill("explain", "Explain a file", Some("<path>"))];
    let commands = build_slash_commands(Some(&skills));
    let explain = commands
        .into_iter()
        .find(|command| command.name == "/explain")
        .unwrap();
    assert_eq!(explain.usage, "/explain <path>");
    assert!(explain.takes_args);
    assert_eq!(explain.source, ReplCommandSource::Skill);
}

#[test]
fn builtin_commands_shadow_same_named_skills() {
    let skills = vec![skill("help", "Shadow builtin", None)];
    let commands = build_slash_commands(Some(&skills));
    assert_eq!(
        commands
            .iter()
            .filter(|command| command.name == "/help")
            .count(),
        1
    );
    assert_eq!(
        commands
            .iter()
            .find(|command| command.name == "/help")
            .unwrap()
            .source,
        ReplCommandSource::Builtin
    );
}

#[test]
fn skills_follow_the_builtin_commands_by_name() {
    let skills = vec![
        skill("zeta", "z", None),
        skill("Alpha", "a", Some("  ")),
        skill("alpha", "b", None),
        skill("HELP", "h", None),
    ];
    let commands = build_slash_commands(Some(&skills));
    assert_eq!(commands.len(), 23);
    assert_eq!(commands[21].name, "/Alpha");
    assert!(!commands[21].takes_args);
    assert_eq!(commands[22].name, "/zeta");
    assert_eq!(build_slash_commands(None).len(), 21);
}

#[test]
fn exact_match_comes_first() {
    let skills = vec![skill("webby", "w", None), skill("we", "w", None)];
    let commands = build_slash_commands(Some(&skills));
    let names = matching_commands(&commands, "/we")
        .into_iter()
        .map(|item| item.name)
        .collect::<Vec<_>>();
    assert_eq!(names, ["/we", "/web", "/webby"]);
    assert!(matching_commands(&commands, "/nothing").is_empty());
}

#[test]
fn hint_is_trimmed_into_the_usage() {
    let command = skill_to_command(&skill("x", "does x", Some(" <y> ")));
    assert_eq!(command.usage, "/x <y>");
    assert_eq!(command.summary, "does x");
    assert!(command.takes_args);
}

#[test]
fn added_commands_ascend_by_name() {
    let skills = vec![
        skill("zeta", "", None),
        skill("Alpha", "", None),
        skill("beta", "", None),
        skill("alpha", "", None),
        skill("EXIT", "", None),
        skill("be", "", None),
    ];
    let names: Vec<String> = build_slash_commands(Some(&skills))
        .into_iter()
        .skip(builtin_commands().len())
        .map(|command| command.name)
        .collect();
    assert_eq!(names, vec!["/Alpha", "/be", "/beta", "/zeta"]);
}
