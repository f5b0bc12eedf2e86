//! The commands of the prompt that need something from outside: what they ask
//! for, and what they make of it.
use vstd::prelude::*;

use crate::config::{theme_name, AppConfig, ConfigView, Theme};
use crate::history::{
    rebuild_display_history, shown_history, shown_history_has_visible_count, visible_count,
    visible_message_count,
};
use crate::json::{values, Json, JsonView};
use crate::number::{decimal, decimal_text};
use crate::prompt_input::{choice_of, choice_views, input_choice, InputChoice};
use crate::screen::{
    last_user_text, preview_of, session_last_user_preview, truncate_preview,
};
use crate::server::{
    parse_server_command, server_command, ServerCommand, ServerCommandView, ServerConfig,
    ServerError,
};
use crate::terminal_style::{styled, Style, StyleExt};
use crate::text::{
    ascii_lower_text, blank, is_blank, join, join_texts, joined, lower_ascii, same_text, texts, trim, trimmed,
};
use crate::types::{opt_text, ConversationHistory};

verus! {

// ---------------------------------------------------------------------------
// Changes
// ---------------------------------------------------------------------------
/// What `/diff` prints: the changes below a heading, or that there are none.
pub fn handle_diff_command(diff: &str) -> (line: String)
    ensures
        line@ == (if is_blank(diff@) {
            styled(Style::Yellow, "ℹ️ No git changes to show"@)
        } else {
            "\n"@ + styled(Style::Bold, styled(Style::Cyan, "📄 Current diff:"@)) + "\n"@ + diff@
        }),
{
    if blank(diff) {
        "ℹ️ No git changes to show".yellow().to_text()
    } else {
        let mut line: String = joined("\n", "📄 Current diff:".cyan().bold().to_text().as_str());
        line.append("\n");
        line.append(diff);
        line
    }
}

/// The question that `/review` puts to the model about some changes: nothing
/// where there are none.
pub open spec fn review_prompt(diff: Seq<char>) -> Option<Seq<char>> {
    if is_blank(diff) {
        None
    } else {
        Some(
            "请审查以下代码变更，重点关注：\n1. 潜在 bug 和行为回归\n2. 安全风险\n3. 测试缺口\n4. 可维护性问题\n\n请先给出 findings，再给出简短总结。\n\n变更内容：\n"@
                + preview_of(diff, 12_000),
        )
    }
}

/// The question that `/review` puts to the model.
pub fn handle_review_command(diff: &str) -> (prompt: Option<String>)
    ensures
        opt_text(prompt) == review_prompt(diff@),
{
    if blank(diff) {
        None
    } else {
        Some(
            joined(
                "请审查以下代码变更，重点关注：\n1. 潜在 bug 和行为回归\n2. 安全风险\n3. 测试缺口\n4. 可维护性问题\n\n请先给出 findings，再给出简短总结。\n\n变更内容：\n",
                truncate_preview(diff, 12_000).as_str(),
            ),
        )
    }
}

// ---------------------------------------------------------------------------
// The web
// ---------------------------------------------------------------------------
/// Whether `/web` and `/fetch` have been given something: if not, what is to be
/// given.
pub fn checked_argument(argument: &str, wanted: &'static str) -> (checked: Result<(), &'static str>)
    ensures
        checked is Ok <==> !is_blank(argument@),
        checked matches Err(message) ==> message@ == wanted@,
{
    if blank(argument) {
        Err(wanted)
    } else {
        Ok(())
    }
}

/// Whether `/web` has been given a query.
pub fn handle_web_search_command(query: &str) -> (checked: Result<(), &'static str>)
    ensures
        checked is Ok <==> !is_blank(query@),
        checked matches Err(message) ==> message@ == "please provide a search query"@,
{
    checked_argument(query, "please provide a search query")
}

/// Whether `/fetch` has been given a place.
pub fn handle_web_fetch_command(url: &str) -> (checked: Result<(), &'static str>)
    ensures
        checked is Ok <==> !is_blank(url@),
        checked matches Err(message) ==> message@ == "please provide a URL"@,
{
    checked_argument(url, "please provide a URL")
}

// ---------------------------------------------------------------------------
// Plans
// ---------------------------------------------------------------------------
/// What `/plan` is to do.
#[derive(Debug, Clone, Copy, PartialEq, Eq, Structural)]
pub enum PlanAction {
    Show,
    Enter,
    Exit,
    Clear,
    Unknown,
}

/// What `/plan` is to do for the given arguments, whatever their case.
pub open spec fn plan_action(args: Seq<char>) -> PlanAction {
    let arg = ascii_lower_text(trim(args));
    if arg.len() == 0 {
        PlanAction::Show
    } else if arg == "on"@ || arg == "enter"@ {
        PlanAction::Enter
    } else if arg == "off"@ || arg == "exit"@ {
        PlanAction::Exit
    } else if arg == "clear"@ {
        PlanAction::Clear
    } else {
        PlanAction::Unknown
    }
}

/// What `/plan` is to do.
pub fn handle_plan_command(args: &str) -> (action: PlanAction)
    ensures
        action == plan_action(args@),
{
    let arg: String = lower_ascii(trimmed(args));
    let word: &str = arg.as_str();
    if word.is_empty() {
        PlanAction::Show
    } else if same_text(word, "on") || same_text(word, "enter") {
        PlanAction::Enter
    } else if same_text(word, "off") || same_text(word, "exit") {
        PlanAction::Exit
    } else if same_text(word, "clear") {
        PlanAction::Clear
    } else {
        PlanAction::Unknown
    }
}

/// What is printed above what the plans say, or in its place.
pub fn plan_heading(action: PlanAction) -> (line: String)
    ensures
        line@ == match action {
            PlanAction::Show => "\n"@ + styled(
                Style::Bold,
                styled(Style::Cyan, "📋 Plan Status:"@),
            ),
            PlanAction::Enter => "\n"@ + styled(
                Style::Bold,
                styled(Style::Cyan, "📋 Plan Mode Enabled"@),
            ),
            PlanAction::Exit => "\n"@ + styled(
                Style::Bold,
                styled(Style::Cyan, "📋 Plan Mode Disabled"@),
            ),
            PlanAction::Clear => "\n"@ + styled(
                Style::Bold,
                styled(Style::Cyan, "📋 Todo List Cleared"@),
            ),
            PlanAction::Unknown => styled(
                Style::Yellow,
                "Unknown /plan option. Use /plan, /plan on, /plan off, or /plan clear"@,
            ),
        },
{
    match action {
        PlanAction::Show => heading("📋 Plan Status:"),
        PlanAction::Enter => heading("📋 Plan Mode Enabled"),
        PlanAction::Exit => heading("📋 Plan Mode Disabled"),
        PlanAction::Clear => heading("📋 Todo List Cleared"),
        PlanAction::Unknown => {
            "Unknown /plan option. Use /plan, /plan on, /plan off, or /plan clear".yellow().to_text()
        },
    }
}

/// A heading, below an empty line.
pub fn heading(text: &str) -> (line: String)
    ensures
        line@ == "\n"@ + styled(Style::Bold, styled(Style::Cyan, text@)),
{
    joined("\n", text.cyan().bold().to_text().as_str())
}

// ---------------------------------------------------------------------------
// Output styles
// ---------------------------------------------------------------------------
/// What `/output-style` is to do: list the styles, or switch to one, where
/// there is such a style.
pub fn requested_style(style_name: &str) -> (name: Option<String>)
    ensures
        opt_text(name) == (if is_blank(style_name@) {
            None
        } else {
            Some(trim(style_name@))
        }),
{
    if blank(style_name) {
        None
    } else {
        Some(trimmed(style_name).to_owned())
    }
}

/// Switches to an output style. It fails where there is no such style.
pub fn handle_output_style_command(
    config: &mut AppConfig,
    style_name: &str,
    known: bool,
) -> (switched: Result<(), String>)
    ensures
        switched is Ok <==> known,
        known ==> final(config)@ == (ConfigView { output_style: style_name@, ..old(config)@ }),
        !known ==> final(config)@ == old(config)@,
        switched matches Err(message) ==> message@ == "unknown output style: "@ + style_name@,
{
    if known {
        config.output_style = style_name.to_owned();
        Ok(())
    } else {
        Err(joined("unknown output style: ", style_name))
    }
}

/// What is printed when a setting was changed and saved.
pub open spec fn updated_text(label: Seq<char>, value: Seq<char>, path: Seq<char>) -> Seq<char> {
    styled(Style::Green, label) + " "@ + value + " ("@ + path + ")"@
}

/// What is printed when a setting was changed and saved at `path`.
pub fn updated_line(label: &str, value: &str, path: &str) -> (line: String)
    ensures
        line@ == updated_text(label@, value@, path@),
{
    let mut line: String = label.green().to_text();
    line.append(" ");
    line.append(value);
    line.append(" (");
    line.append(path);
    line.append(")");
    line
}

// ---------------------------------------------------------------------------
// The menu of settings
// ---------------------------------------------------------------------------
/// What was chosen in the menu of settings.
#[derive(Debug, Clone, Copy, PartialEq, Eq, Structural)]
pub enum ConfigAction {
    Theme,
    Tips,
    Cancelled,
    Unknown,
}

/// What was chosen in the menu of settings, where it was not left.
pub fn handle_config_command(choice: Option<&str>) -> (action: ConfigAction)
    ensures
        action == match choice {
            Some(choice) => if choice@ == "theme"@ {
                ConfigAction::Theme
            } else if choice@ == "tips"@ {
                ConfigAction::Tips
            } else {
                ConfigAction::Unknown
            },
            None => ConfigAction::Cancelled,
        },
{
    match choice {
        Some(choice) => {
            if same_text(choice, "theme") {
                ConfigAction::Theme
            } else if same_text(choice, "tips") {
                ConfigAction::Tips
            } else {
                ConfigAction::Unknown
            }
        },
        None => ConfigAction::Cancelled,
    }
}

/// The choices of the menu of settings.
pub fn config_options() -> (choices: Vec<InputChoice>)
    ensures
        choice_views(choices@) == seq![
            choice_of("theme"@, "Configure UI theme"@),
            choice_of("tips"@, "Toggle startup tips"@),
        ],
{
    let mut choices: Vec<InputChoice> = Vec::new();
    choices.push(input_choice("theme", "Configure UI theme"));
    choices.push(input_choice("tips", "Toggle startup tips"));
    assert(choice_views(choices@) =~= seq![
        choice_of("theme"@, "Configure UI theme"@),
        choice_of("tips"@, "Toggle startup tips"@),
    ]);
    choices
}

/// The choices of themes.
pub fn theme_options() -> (choices: Vec<InputChoice>)
    ensures
        choice_views(choices@) == seq![
            choice_of("default"@, "Standard theme"@),
            choice_of("light"@, "Light terminal palette"@),
            choice_of("dark"@, "Dark terminal palette"@),
        ],
{
    let mut choices: Vec<InputChoice> = Vec::new();
    choices.push(input_choice("default", "Standard theme"));
    choices.push(input_choice("light", "Light terminal palette"));
    choices.push(input_choice("dark", "Dark terminal palette"));
    assert(choice_views(choices@) =~= seq![
        choice_of("default"@, "Standard theme"@),
        choice_of("light"@, "Light terminal palette"@),
        choice_of("dark"@, "Dark terminal palette"@),
    ]);
    choices
}

/// The choices for the tips.
pub fn tips_options() -> (choices: Vec<InputChoice>)
    ensures
        choice_views(choices@) == seq![
            choice_of("on"@, "Show startup tips and help lines"@),
            choice_of("off"@, "Keep startup quieter"@),
        ],
{
    let mut choices: Vec<InputChoice> = Vec::new();
    choices.push(input_choice("on", "Show startup tips and help lines"));
    choices.push(input_choice("off", "Keep startup quieter"));
    assert(choice_views(choices@) =~= seq![
        choice_of("on"@, "Show startup tips and help lines"@),
        choice_of("off"@, "Keep startup quieter"@),
    ]);
    choices
}

/// How a choice of a setting ended.
#[derive(Debug, Clone, Copy, PartialEq, Eq, Structural)]
pub enum SettingOutcome {
    /// The setting was changed and is to be saved.
    Changed,
    /// The menu was left.
    Cancelled,
    /// There is no such choice.
    Unknown,
}

/// The theme of a name.
pub open spec fn theme_named(name: Seq<char>) -> Option<Theme> {
    if name == "default"@ {
        Some(Theme::Default)
    } else if name == "light"@ {
        Some(Theme::Light)
    } else if name == "dark"@ {
        Some(Theme::Dark)
    } else {
        None
    }
}

/// Changes the theme to what was chosen.
pub fn configure_theme(config: &mut AppConfig, choice: Option<&str>) -> (outcome: SettingOutcome)
    ensures
        match choice {
            Some(name) => match theme_named(name@) {
                Some(theme) => outcome == SettingOutcome::Changed && final(config)@ == (ConfigView {
                    theme,
                    ..old(config)@
                }),
                None => outcome == SettingOutcome::Unknown && final(config)@ == old(config)@,
            },
            None => outcome == SettingOutcome::Cancelled && final(config)@ == old(config)@,
        },
{
    match choice {
        Some(name) => {
            if same_text(name, "default") {
                config.theme = Theme::Default;
                SettingOutcome::Changed
            } else if same_text(name, "light") {
                config.theme = Theme::Light;
                SettingOutcome::Changed
            } else if same_text(name, "dark") {
                config.theme = Theme::Dark;
                SettingOutcome::Changed
            } else {
                SettingOutcome::Unknown
            }
        },
        None => SettingOutcome::Cancelled,
    }
}

/// Whether the word turns something on or off.
pub open spec fn switch_named(name: Seq<char>) -> Option<bool> {
    if name == "on"@ {
        Some(true)
    } else if name == "off"@ {
        Some(false)
    } else {
        None
    }
}

/// Turns the tips on or off, as was chosen.
pub fn configure_tips(config: &mut AppConfig, choice: Option<&str>) -> (outcome: SettingOutcome)
    ensures
        match choice {
            Some(name) => match switch_named(name@) {
                Some(tips) => outcome == SettingOutcome::Changed && final(config)@ == (ConfigView {
                    tips,
                    ..old(config)@
                }),
                None => outcome == SettingOutcome::Unknown && final(config)@ == old(config)@,
            },
            None => outcome == SettingOutcome::Cancelled && final(config)@ == old(config)@,
        },
{
    match choice {
        Some(name) => {
            if same_text(name, "on") {
                config.tips = true;
                SettingOutcome::Changed
            } else if same_text(name, "off") {
                config.tips = false;
                SettingOutcome::Changed
            } else {
                SettingOutcome::Unknown
            }
        },
        None => SettingOutcome::Cancelled,
    }
}

/// The name under which a theme is chosen is its name.
pub proof fn theme_names_are_choices(theme: Theme)
    ensures
        theme_named(theme_name(theme)) == Some(theme),
{
    reveal_strlit("default");
    reveal_strlit("light");
    reveal_strlit("dark");
    assert("light"@[0] == 'l' && "dark"@[1] == 'a' && "default"@[1] == 'e');
}

// ---------------------------------------------------------------------------
// Sessions
// ---------------------------------------------------------------------------
/// What is shown of a session beside its id: the last message of the user, in
/// short.
pub open spec fn session_preview(messages: Option<Seq<JsonView>>) -> Seq<char> {
    match messages {
        Some(messages) => preview_of(last_user_text(messages), 48),
        None => "(failed to load)"@,
    }
}

/// The messages of a session, where they could be read.
pub open spec fn loaded(messages: Option<Vec<Json>>) -> Option<Seq<JsonView>> {
    match messages {
        Some(messages) => Some(values(messages@)),
        None => None,
    }
}

/// The choices of sessions to resume.
pub fn session_options(sessions: &Vec<(String, Option<Vec<Json>>)>) -> (choices: Vec<InputChoice>)
    ensures
        choice_views(choices@) == Seq::new(
            sessions@.len(),
            |i: int| choice_of(sessions@[i].0@, session_preview(loaded(sessions@[i].1))),
        ),
{
    let mut choices: Vec<InputChoice> = Vec::new();
    let mut i: usize = 0;
    while i < sessions.len()
        invariant
            i <= sessions.len(),
            choices.len() == i,
            forall|k: int|
                0 <= k < i ==> (#[trigger] choices@[k]).view() == choice_of(
                    sessions@[k].0@,
                    session_preview(loaded(sessions@[k].1)),
                ),
        decreases sessions.len() - i,
    {
        let preview: String = match &sessions[i].1 {
            Some(messages) => session_last_user_preview(messages),
            None => "(failed to load)".to_owned(),
        };
        choices.push(input_choice(sessions[i].0.as_str(), preview.as_str()));
        i += 1;
    }
    assert(choice_views(choices@) =~= Seq::new(
        sessions@.len(),
        |i: int| choice_of(sessions@[i].0@, session_preview(loaded(sessions@[i].1))),
    ));
    choices
}

/// Finds the session that was chosen: the first with this id. It fails where
/// there is none.
pub fn chosen_session(ids: &Vec<String>, chosen: &str) -> (place: Result<usize, String>)
    ensures
        place is Ok <==> texts(ids@).contains(chosen@),
        place matches Ok(place) ==> place < ids.len() && ids@[place as int]@ == chosen@ && forall|
            k: int,
        |
            0 <= k < place ==> #[trigger] ids@[k]@ != chosen@,
        place matches Err(message) ==> message@ == "selected session not found: "@ + chosen@,
{
    let mut i: usize = 0;
    while i < ids.len()
        invariant
            i <= ids.len(),
            forall|k: int| 0 <= k < i ==> #[trigger] ids@[k]@ != chosen@,
        decreases ids.len() - i,
    {
        if same_text(ids[i].as_str(), chosen) {
            assert(texts(ids@)[i as int] == chosen@);
            return Ok(i);
        }
        i += 1;
    }
    proof {
        if texts(ids@).contains(chosen@) {
            let k = choose|k: int| 0 <= k < texts(ids@).len() && texts(ids@)[k] == chosen@;
            assert(ids@[k]@ == chosen@);
        }
    }
    Err(joined("selected session not found: ", chosen))
}

/// What is printed when a session was made or resumed.
pub fn session_line(label: &str, id: &str) -> (line: String)
    ensures
        line@ == styled(Style::Bold, styled(Style::White, label@)) + " "@ + styled(
            Style::White,
            id@,
        ),
{
    let mut line: String = label.white().bold().to_text();
    line.append(" ");
    line.append(id.white().to_text().as_str());
    line
}

/// Takes a compacted conversation over, where it was compacted. The result
/// says whether it was: it is to be stored then, and shown anew.
pub fn handle_manual_compact(messages: &mut Vec<Json>, compacted: Option<Vec<Json>>) -> (changed:
    bool)
    ensures
        changed == compacted is Some,
        values(final(messages)@) == match compacted {
            Some(compacted) => values(compacted@),
            None => values(old(messages)@),
        },
{
    match compacted {
        Some(compacted) => {
            *messages = compacted;
            true
        },
        None => false,
    }
}

/// Takes over the conversation of a session that was resumed, and shows it.
/// The result is how many of its messages were spoken by the user or the
/// assistant.
pub fn handle_resume_command(
    messages: &mut Vec<Json>,
    shown: &mut ConversationHistory,
    resumed: Vec<Json>,
) -> (visible: usize)
    ensures
        values(final(messages)@) == values(resumed@),
        final(shown)@ == shown_history(values(resumed@)),
        visible == visible_count(values(resumed@)),
        visible == final(shown)@.len(),
{
    proof {
        shown_history_has_visible_count(values(resumed@));
    }
    let visible: usize = visible_message_count(&resumed);
    *shown = rebuild_display_history(&resumed);
    *messages = resumed;
    visible
}

/// What is printed of the tools that a skill may use: nothing where all are
/// allowed.
pub fn allowed_tools_line(tools: &Vec<String>) -> (line: Option<String>)
    ensures
        opt_text(line) == (if tools.len() == 0 {
            None
        } else {
            Some(
                styled(Style::Bold, styled(Style::Cyan, "🔒 Allowed tools:"@)) + " "@ + join(
                    texts(tools@),
                    ", "@,
                ),
            )
        }),
{
    if tools.len() == 0 {
        return None;
    }
    let mut line: String = "🔒 Allowed tools:".cyan().bold().to_text();
    line.append(" ");
    line.append(join_texts(tools, ", ").as_str());
    Some(line)
}

/// What is printed after `/compact`: how many tokens the conversation has now,
/// or that it was too short.
pub fn compact_line(tokens: Option<u64>) -> (line: String)
    ensures
        line@ == match tokens {
            Some(tokens) => styled(Style::Green, "✅ Context compacted. Estimated tokens:"@) + " "@
                + decimal(tokens as nat),
            None => styled(Style::Yellow, "ℹ️ Not enough history to compact yet"@),
        },
{
    match tokens {
        Some(tokens) => {
            let mut line: String = "✅ Context compacted. Estimated tokens:".green().to_text();
            line.append(" ");
            line.append(decimal_text(tokens).as_str());
            line
        },
        None => "ℹ️ Not enough history to compact yet".yellow().to_text(),
    }
}

/// What is printed when the conversation was compacted by itself.
pub fn auto_compact_line(tokens: u64) -> (line: String)
    ensures
        line@ == styled(
            Style::Bold,
            styled(Style::Cyan, "⚡ Context compacted automatically. Estimated tokens:"@),
        ) + " "@ + decimal(tokens as nat),
{
    let mut line: String =
        "⚡ Context compacted automatically. Estimated tokens:".cyan().bold().to_text();
    line.append(" ");
    line.append(decimal_text(tokens).as_str());
    line
}

/// What is printed when a skill is called.
pub fn skill_line(name: &str, loaded_from: &str, context: &str) -> (line: String)
    ensures
        line@ == styled(Style::Bold, styled(Style::Cyan, "🧩 Skill:"@)) + " "@ + styled(
            Style::White,
            name@,
        ) + " "@ + styled(Style::Dimmed, "["@ + loaded_from@ + " / "@ + context@ + "]"@),
{
    let mut place: String = joined("[", loaded_from);
    place.append(" / ");
    place.append(context);
    place.append("]");
    let mut line: String = "🧩 Skill:".cyan().bold().to_text();
    line.append(" ");
    line.append(name.white().to_text().as_str());
    line.append(" ");
    line.append(place.dimmed().to_text().as_str());
    line
}

// ---------------------------------------------------------------------------
// Models
// ---------------------------------------------------------------------------
/// The choices of models, the one that is used now marked as such.
pub fn model_options(models: &Vec<String>, current: &str) -> (choices: Vec<InputChoice>)
    ensures
        choice_views(choices@) == Seq::new(
            models@.len(),
            |i: int|
                choice_of(
                    models@[i]@,
                    if models@[i]@ == current@ {
                        "Current model"@
                    } else {
                        "Available model"@
                    },
                ),
        ),
{
    let mut choices: Vec<InputChoice> = Vec::new();
    let mut i: usize = 0;
    while i < models.len()
        invariant
            i <= models.len(),
            choices.len() == i,
            forall|k: int|
                0 <= k < i ==> (#[trigger] choices@[k]).view() == choice_of(
                    models@[k]@,
                    if models@[k]@ == current@ {
                        "Current model"@
                    } else {
                        "Available model"@
                    },
                ),
        decreases models.len() - i,
    {
        let description: &'static str = if same_text(models[i].as_str(), current) {
            "Current model"
        } else {
            "Available model"
        };
        choices.push(input_choice(models[i].as_str(), description));
        i += 1;
    }
    assert(choice_views(choices@) =~= Seq::new(
        models@.len(),
        |i: int|
            choice_of(
                models@[i]@,
                if models@[i]@ == current@ {
                    "Current model"@
                } else {
                    "Available model"@
                },
            ),
    ));
    choices
}

// ---------------------------------------------------------------------------
// The server
// ---------------------------------------------------------------------------
/// What is to be done about the server.
pub enum ServerAction {
    /// Print this line.
    Say(String),
    /// Stop the server.
    Stop,
    /// Start the server.
    Start(ServerConfig),
}

/// What is to be done about the server.
pub enum ServerActionView {
    Say(Seq<char>),
    Stop,
    Start(Seq<char>, nat),
}

impl ServerAction {
    /// What the action is.
    pub open spec fn view(&self) -> ServerActionView {
        match self {
            ServerAction::Say(line) => ServerActionView::Say(line@),
            ServerAction::Stop => ServerActionView::Stop,
            ServerAction::Start(config) => ServerActionView::Start(config@.0, config@.1),
        }
    }
}

/// A line about where the server is.
pub open spec fn place_line(style: Style, label: Seq<char>, address: Seq<char>) -> Seq<char> {
    "\n"@ + styled(Style::Bold, styled(style, label)) + " http://"@ + address
}

/// What is said where no server runs.
pub open spec fn not_running_line() -> Seq<char> {
    "\n"@ + styled(Style::Yellow, "ℹ️ Server is not running"@)
}

/// What is to be done for a command, where a server runs at the given address,
/// or none does. A server that runs is not started again.
pub open spec fn server_action(
    running: Option<Seq<char>>,
    command: ServerCommandView,
) -> ServerActionView {
    match command {
        ServerCommandView::Status => match running {
            Some(address) => ServerActionView::Say(
                place_line(Style::Cyan, "🌐 Server is running at"@, address),
            ),
            None => ServerActionView::Say(not_running_line()),
        },
        ServerCommandView::Stop => match running {
            Some(_) => ServerActionView::Stop,
            None => ServerActionView::Say(not_running_line()),
        },
        ServerCommandView::Start(host, port) => match running {
            Some(address) => ServerActionView::Say(
                place_line(Style::Cyan, "🌐 Server is already running at"@, address),
            ),
            None => ServerActionView::Start(host, port),
        },
    }
}

/// What the prompt knows of the server in the background: where it runs, if it
/// does.
pub struct ServerControl {
    running: Option<String>,
}

fn say_place(label: String, address: &str) -> (line: String)
    ensures
        line@ == "\n"@ + label@ + " http://"@ + address@,
{
    let mut line: String = joined("\n", label.as_str());
    line.append(" http://");
    line.append(address);
    line
}

impl ServerControl {
    /// Where the server runs, if it does.
    pub closed spec fn view(&self) -> Option<Seq<char>> {
        opt_text(self.running)
    }

    /// No server runs.
    pub fn new() -> (control: ServerControl)
        ensures
            control@ is None,
    {
        ServerControl { running: None }
    }

    /// Whether there is a server to be ended because its task is over.
    pub fn is_over(&self, finished: bool) -> (over: bool)
        ensures
            over == (self@ is Some && finished),
    {
        self.running.is_some() && finished
    }

    /// Takes note that a server whose task was over has been ended, and says
    /// so: with the error, where it did not end well.
    pub fn reaped(&mut self, error: Option<&str>) -> (line: String)
        ensures
            final(self)@ is None,
            line@ == match error {
                None => "\n"@ + styled(
                    Style::Yellow,
                    "ℹ️ Previous background server already stopped"@,
                ),
                Some(error) => "\n"@ + styled(
                    Style::Bold,
                    styled(Style::Yellow, "⚠️ Background server exited unexpectedly:"@),
                ) + " "@ + error@,
            },
    {
        self.running = None;
        match error {
            None => joined(
                "\n",
                "ℹ️ Previous background server already stopped".yellow().to_text().as_str(),
            ),
            Some(error) => {
                let mut line: String = joined(
                    "\n",
                    "⚠️ Background server exited unexpectedly:".yellow().bold().to_text().as_str(),
                );
                line.append(" ");
                line.append(error);
                line
            },
        }
    }

    /// Says what is to be done for the arguments of a server command. It fails
    /// where they are no such command. The server that is to be stopped is no
    /// longer known from then on.
    pub fn handle_server_command(&mut self, args: &str) -> (action: Result<
        ServerAction,
        ServerError,
    >)
        ensures
            match server_command(args@) {
                Some(command) => action matches Ok(action) && action@ == server_action(
                    old(self)@,
                    command,
                ) && final(self)@ == (if action@ is Stop {
                    None
                } else {
                    old(self)@
                }),
                None => action matches Err(error) && error.address() == trim(args@)
                    && final(self)@ == old(self)@,
            },
    {
        let command: ServerCommand = match parse_server_command(args) {
            Ok(command) => command,
            Err(error) => {
                return Err(error);
            },
        };
        match command {
            ServerCommand::Status => match &self.running {
                Some(address) => Ok(
                    ServerAction::Say(
                        say_place(
                            "🌐 Server is running at".cyan().bold().to_text(),
                            address.as_str(),
                        ),
                    ),
                ),
                None => Ok(
                    ServerAction::Say(
                        joined("\n", "ℹ️ Server is not running".yellow().to_text().as_str()),
                    ),
                ),
            },
            ServerCommand::Stop => {
                if self.running.is_some() {
                    self.running = None;
                    Ok(ServerAction::Stop)
                } else {
                    Ok(
                        ServerAction::Say(
                            joined("\n", "ℹ️ Server is not running".yellow().to_text().as_str()),
                        ),
                    )
                }
            },
            ServerCommand::Start(config) => match &self.running {
                Some(address) => Ok(
                    ServerAction::Say(
                        say_place(
                            "🌐 Server is already running at".cyan().bold().to_text(),
                            address.as_str(),
                        ),
                    ),
                ),
                None => Ok(ServerAction::Start(config)),
            },
        }
    }

    /// Takes note that the server runs at an address, and says so.
    pub fn started(&mut self, address: &str) -> (line: String)
        ensures
            final(self)@ == Some(address@),
            line@ == place_line(Style::Green, "🌐 Server started at"@, address@),
    {
        self.running = Some(address.to_owned());
        say_place("🌐 Server started at".green().bold().to_text(), address)
    }
}

/// What is printed when the server was stopped.
pub fn stopped_line() -> (line: String)
    ensures
        line@ == "\n"@ + styled(Style::Green, "🛑 Server stopped"@),
{
    joined("\n", "🛑 Server stopped".green().to_text().as_str())
}

/// A server that runs is neither started again nor lost sight of, unless it is
/// to be stopped.
pub proof fn running_server_is_not_started_again(address: Seq<char>, command: ServerCommandView)
    ensures
        !(server_action(Some(address), command) is Start),
        server_action(Some(address), command) is Stop <==> command is Stop,
{
}

} // verus!
