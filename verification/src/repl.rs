//! The interactive prompt: what a line means, and the commands that need
//! nothing from outside.
use vstd::prelude::*;

use crate::config::{theme_name, AppConfig};
use crate::json::opt_view;
use crate::number::{decimal, decimal_text};
use crate::prompt_input::PromptSignal;
use crate::repl_completion::builtin_table;
use crate::screen::{add_empty_line, add_line};
use crate::slash::{argument_of, command_arg, parse_slash_skill, skill_of};
use crate::terminal_style::{styled, Style, StyleExt};
use crate::text::{
    ascii_lower_text, is_ascii_text, is_blank, joined, lower_unicode, same_text, texts, trim,
    trimmed, unicode_lower,
};
use crate::types::{history_json, ConversationHistory};

verus! {

// ---------------------------------------------------------------------------
// Starting
// ---------------------------------------------------------------------------
/// Which conversation the prompt starts with.
#[derive(Debug)]
pub enum ResumeTarget {
    /// A new one.
    New,
    /// The last one, where there is one.
    ContinueLatest,
    /// The one with this id.
    ResumeId(String),
}

impl Clone for ResumeTarget {
    fn clone(&self) -> (copy: ResumeTarget)
        ensures
            copy@ == self@,
    {
        match self {
            ResumeTarget::New => ResumeTarget::New,
            ResumeTarget::ContinueLatest => ResumeTarget::ContinueLatest,
            ResumeTarget::ResumeId(id) => ResumeTarget::ResumeId(id.clone()),
        }
    }
}

/// What a resume target is.
pub enum ResumeView {
    New,
    ContinueLatest,
    ResumeId(Seq<char>),
}

impl ResumeTarget {
    /// What the target is.
    pub open spec fn view(&self) -> ResumeView {
        match self {
            ResumeTarget::New => ResumeView::New,
            ResumeTarget::ContinueLatest => ResumeView::ContinueLatest,
            ResumeTarget::ResumeId(id) => ResumeView::ResumeId(id@),
        }
    }
}

/// What is said of the conversation that the prompt starts with. `latest` is
/// the id of the last one, where one was looked for and found.
pub open spec fn session_status(resume: ResumeView, latest: Option<Seq<char>>) -> Seq<char> {
    match resume {
        ResumeView::New => "new conversation"@,
        ResumeView::ContinueLatest => match latest {
            Some(id) => "continued "@ + id,
            None => "new conversation (no previous session found)"@,
        },
        ResumeView::ResumeId(id) => "resumed "@ + id,
    }
}

/// Says with which conversation the prompt starts.
pub fn init_session(resume: &ResumeTarget, latest: Option<&str>) -> (status: String)
    ensures
        status@ == session_status(resume@, opt_view(latest)),
{
    match resume {
        ResumeTarget::New => "new conversation".to_owned(),
        ResumeTarget::ContinueLatest => match latest {
            Some(id) => joined("continued ", id),
            None => "new conversation (no previous session found)".to_owned(),
        },
        ResumeTarget::ResumeId(id) => joined("resumed ", id.as_str()),
    }
}

/// What is said below the banner, line by line.
pub open spec fn intro_lines(
    status: Seq<char>,
    theme: Seq<char>,
    output_style: Seq<char>,
    endpoint: Seq<char>,
) -> Seq<Seq<char>> {
    seq![
        styled(Style::Dimmed, "session"@) + " "@ + styled(Style::White, status),
        styled(Style::Dimmed, "ui"@) + " theme="@ + styled(Style::White, theme) + " output="@
            + styled(Style::White, output_style),
        styled(Style::Dimmed, "endpoint"@) + " "@ + styled(Style::White, endpoint),
    ]
}

/// What is said below the banner: where things stand, and a tip, unless the
/// settings have no tips. `seed` is a number that differs from start to start.
pub fn print_startup_intro(
    status: &str,
    config: &AppConfig,
    endpoint: &str,
    seed: u64,
) -> (list: Vec<String>)
    ensures
        texts(list@) == intro_lines(
            status@,
            theme_name(config.theme),
            config.output_style@,
            endpoint@,
        ) + (if config.tips {
            seq![tip_line(seed), Seq::empty()]
        } else {
            Seq::empty()
        }),
{
    let mut session: String = "session".dimmed().to_text();
    session.append(" ");
    session.append(status.white().to_text().as_str());
    let mut ui: String = "ui".dimmed().to_text();
    ui.append(" theme=");
    ui.append(config.theme.name().white().to_text().as_str());
    ui.append(" output=");
    ui.append(config.output_style.white().to_text().as_str());
    let mut place: String = "endpoint".dimmed().to_text();
    place.append(" ");
    place.append(endpoint.white().to_text().as_str());
    let mut list: Vec<String> = Vec::new();
    assert(texts(list@) =~= Seq::<Seq<char>>::empty());
    add_line(&mut list, session);
    add_line(&mut list, ui);
    add_line(&mut list, place);
    let ghost intro = intro_lines(
        status@,
        theme_name(config.theme),
        config.output_style@,
        endpoint@,
    );
    assert(texts(list@) =~= intro);
    if config.tips {
        add_line(&mut list, print_startup_tip(seed));
        add_empty_line(&mut list);
        assert(texts(list@) =~= intro + seq![tip_line(seed), Seq::empty()]);
    } else {
        assert(intro + Seq::<Seq<char>>::empty() =~= intro);
    }
    list
}

/// The tips of which one is shown at the start.
pub open spec fn startup_tips() -> Seq<Seq<char>> {
    seq![
        "Enter submits the current message"@,
        "Type / to open slash commands"@,
        "/resume switches to a saved conversation"@,
        "/help shows all commands"@,
    ]
}

/// The place of the tip to show, out of `len`, for a number that differs from
/// start to start.
pub fn choose_startup_tip_index(len: usize, seed: u64) -> (index: usize)
    ensures
        len <= 1 ==> index == 0,
        len > 1 ==> index < len,
        len > 1 ==> index == (seed as usize) % len,
{
    if len <= 1 {
        return 0;
    }
    (seed as usize) % len
}

/// The line with the tip for a number that differs from start to start.
pub open spec fn tip_line(seed: u64) -> Seq<char> {
    styled(Style::Dimmed, "tip"@) + " "@ + styled(
        Style::White,
        startup_tips()[((seed as usize) % 4) as int],
    )
}

/// The tip that is shown at the start, for a number that differs from start to
/// start.
pub fn print_startup_tip(seed: u64) -> (line: String)
    ensures
        line@ == tip_line(seed),
{
    let index: usize = choose_startup_tip_index(4, seed);
    let tip: &'static str = if index == 0 {
        "Enter submits the current message"
    } else if index == 1 {
        "Type / to open slash commands"
    } else if index == 2 {
        "/resume switches to a saved conversation"
    } else {
        "/help shows all commands"
    };
    let mut line: String = "tip".dimmed().to_text();
    line.append(" ");
    line.append(tip.white().to_text().as_str());
    line
}

/// The line below the input: the provider and the model.
pub fn build_main_prompt_footer_lines(provider: &str, model: &str) -> (list: Vec<String>)
    ensures
        texts(list@) == seq![
            styled(Style::Dimmed, "llm"@) + " "@ + styled(Style::White, provider@) + "  "@
                + styled(Style::Dimmed, "model"@) + " "@ + styled(Style::White, model@),
        ],
{
    let mut line: String = "llm".dimmed().to_text();
    line.append(" ");
    line.append(provider.white().to_text().as_str());
    line.append("  ");
    line.append("model".dimmed().to_text().as_str());
    line.append(" ");
    line.append(model.white().to_text().as_str());
    let ghost shown = line@;
    let mut list: Vec<String> = Vec::new();
    list.push(line);
    assert(texts(list@) =~= seq![shown]);
    list
}

// ---------------------------------------------------------------------------
// What a line means
// ---------------------------------------------------------------------------
/// What is to be done about a line, over a type of text.
pub enum ReplAction<T> {
    /// Nothing: the line is blank.
    Ignore,
    /// The prompt ends.
    Quit,
    /// Let the user pick a command, which is then put into the line.
    PickCommand,
    Resume,
    SelectModel,
    Config,
    Compact,
    Diff,
    Review,
    /// Commit, under this title where one is given.
    Commit(Option<T>),
    Memory,
    OutputStyle(T),
    WebSearch(T),
    WebFetch(T),
    Server(T),
    Plan(T),
    /// There are no plans to speak of.
    NoPlans,
    Skills,
    /// There are no skills to speak of.
    NoSkills,
    /// Find out whether there is such a skill; if not, the line is a command.
    LookUpSkill { name: T, args: T },
    /// Call the skill.
    RunSkill { name: T, args: T },
    /// Whether there is such a skill could not be found out.
    LookUpFailed(T),
    /// A command that needs nothing from outside.
    Command(T),
    /// A message for the model.
    Turn(T),
}

/// The characters of an action's texts.
pub open spec fn action_view(action: ReplAction<String>) -> ReplAction<Seq<char>> {
    match action {
        ReplAction::Ignore => ReplAction::Ignore,
        ReplAction::Quit => ReplAction::Quit,
        ReplAction::PickCommand => ReplAction::PickCommand,
        ReplAction::Resume => ReplAction::Resume,
        ReplAction::SelectModel => ReplAction::SelectModel,
        ReplAction::Config => ReplAction::Config,
        ReplAction::Compact => ReplAction::Compact,
        ReplAction::Diff => ReplAction::Diff,
        ReplAction::Review => ReplAction::Review,
        ReplAction::Commit(None) => ReplAction::Commit(None),
        ReplAction::Commit(Some(title)) => ReplAction::Commit(Some(title@)),
        ReplAction::Memory => ReplAction::Memory,
        ReplAction::OutputStyle(name) => ReplAction::OutputStyle(name@),
        ReplAction::WebSearch(query) => ReplAction::WebSearch(query@),
        ReplAction::WebFetch(url) => ReplAction::WebFetch(url@),
        ReplAction::Server(args) => ReplAction::Server(args@),
        ReplAction::Plan(args) => ReplAction::Plan(args@),
        ReplAction::NoPlans => ReplAction::NoPlans,
        ReplAction::Skills => ReplAction::Skills,
        ReplAction::NoSkills => ReplAction::NoSkills,
        ReplAction::LookUpSkill { name, args } => ReplAction::LookUpSkill {
            name: name@,
            args: args@,
        },
        ReplAction::RunSkill { name, args } => ReplAction::RunSkill { name: name@, args: args@ },
        ReplAction::LookUpFailed(error) => ReplAction::LookUpFailed(error@),
        ReplAction::Command(line) => ReplAction::Command(line@),
        ReplAction::Turn(line) => ReplAction::Turn(line@),
    }
}

/// Whether a line in lower case is one of the commands that need nothing from
/// outside.
pub open spec fn is_plain_command(lower: Seq<char>) -> bool {
    ||| lower == "/exit"@
    ||| lower == "/quit"@
    ||| lower == "/clear"@
    ||| lower == "/history"@
    ||| lower == "/help"@
    ||| lower == "/count"@
    ||| lower == "/version"@
}

/// What a line that begins with a slash means. A slash alone asks for the menu
/// of commands. A command that is built in is looked for before a skill.
pub open spec fn slash_action(line: Seq<char>, plans: bool, skills: bool) -> ReplAction<
    Seq<char>,
> {
    if line == "/"@ {
        ReplAction::PickCommand
    } else if argument_of(line, "/resume"@) is Some {
        ReplAction::Resume
    } else if argument_of(line, "/model"@) is Some {
        ReplAction::SelectModel
    } else if argument_of(line, "/config"@) is Some {
        ReplAction::Config
    } else if argument_of(line, "/compact"@) is Some {
        ReplAction::Compact
    } else if argument_of(line, "/diff"@) is Some {
        ReplAction::Diff
    } else if argument_of(line, "/review"@) is Some {
        ReplAction::Review
    } else if argument_of(line, "/commit"@) is Some {
        let title = argument_of(line, "/commit"@)->0;
        ReplAction::Commit(
            if title.len() == 0 {
                None
            } else {
                Some(title)
            },
        )
    } else if argument_of(line, "/memory"@) is Some {
        ReplAction::Memory
    } else if argument_of(line, "/output-style"@) is Some {
        ReplAction::OutputStyle(argument_of(line, "/output-style"@)->0)
    } else if argument_of(line, "/web"@) is Some {
        ReplAction::WebSearch(argument_of(line, "/web"@)->0)
    } else if argument_of(line, "/fetch"@) is Some {
        ReplAction::WebFetch(argument_of(line, "/fetch"@)->0)
    } else if argument_of(line, "/server"@) is Some {
        ReplAction::Server(argument_of(line, "/server"@)->0)
    } else if argument_of(line, "/plan"@) is Some {
        if plans {
            ReplAction::Plan(argument_of(line, "/plan"@)->0)
        } else {
            ReplAction::NoPlans
        }
    } else if argument_of(line, "/skills"@) is Some {
        if skills {
            ReplAction::Skills
        } else {
            ReplAction::NoSkills
        }
    } else if is_plain_command(unicode_lower(line)) {
        ReplAction::Command(line)
    } else {
        match skill_of(line) {
            Some((name, args)) if skills => ReplAction::LookUpSkill { name, args },
            _ => ReplAction::Command(line),
        }
    }
}

/// What a line means. `plans` and `skills` say whether there are such things.
pub open spec fn line_action(input: Seq<char>, plans: bool, skills: bool) -> ReplAction<Seq<char>> {
    let line = trim(input);
    if line.len() == 0 {
        ReplAction::Ignore
    } else if line[0] == '/' {
        slash_action(line, plans, skills)
    } else {
        ReplAction::Turn(line)
    }
}

/// Whether the line is the command.
fn is_command(line: &str, command: &str) -> (found: bool)
    ensures
        found == (argument_of(line@, command@) is Some),
{
    command_arg(line, command).is_some()
}

fn plain_command(lower: &str) -> (found: bool)
    ensures
        found == is_plain_command(lower@),
{
    same_text(lower, "/exit") || same_text(lower, "/quit") || same_text(lower, "/clear")
        || same_text(lower, "/history") || same_text(lower, "/help") || same_text(lower, "/count")
        || same_text(lower, "/version")
}

fn slash_line_action(line: &str, plans: bool, skills: bool) -> (action: ReplAction<String>)
    ensures
        action_view(action) == slash_action(line@, plans, skills),
        is_ascii_text(line@) ==> unicode_lower(line@) == ascii_lower_text(line@),
{
    let lower: String = lower_unicode(line);
    if same_text(line, "/") {
        return ReplAction::PickCommand;
    }
    if is_command(line, "/resume") {
        return ReplAction::Resume;
    }
    if is_command(line, "/model") {
        return ReplAction::SelectModel;
    }
    if is_command(line, "/config") {
        return ReplAction::Config;
    }
    if is_command(line, "/compact") {
        return ReplAction::Compact;
    }
    if is_command(line, "/diff") {
        return ReplAction::Diff;
    }
    if is_command(line, "/review") {
        return ReplAction::Review;
    }
    if let Some(title) = command_arg(line, "/commit") {
        return ReplAction::Commit(
            if title.is_empty() {
                None
            } else {
                Some(title.to_owned())
            },
        );
    }
    if is_command(line, "/memory") {
        return ReplAction::Memory;
    }
    if let Some(name) = command_arg(line, "/output-style") {
        return ReplAction::OutputStyle(name.to_owned());
    }
    if let Some(query) = command_arg(line, "/web") {
        return ReplAction::WebSearch(query.to_owned());
    }
    if let Some(url) = command_arg(line, "/fetch") {
        return ReplAction::WebFetch(url.to_owned());
    }
    if let Some(args) = command_arg(line, "/server") {
        return ReplAction::Server(args.to_owned());
    }
    if let Some(args) = command_arg(line, "/plan") {
        if plans {
            return ReplAction::Plan(args.to_owned());
        }
        return ReplAction::NoPlans;
    }
    if is_command(line, "/skills") {
        if skills {
            return ReplAction::Skills;
        }
        return ReplAction::NoSkills;
    }
    if plain_command(lower.as_str()) {
        return ReplAction::Command(line.to_owned());
    }
    if skills {
        if let Some((name, args)) = parse_slash_skill(line) {
            return ReplAction::LookUpSkill { name: name.to_owned(), args: args.to_owned() };
        }
    }
    ReplAction::Command(line.to_owned())
}

/// Whether a line begins with a slash.
pub open spec fn is_slash_line(line: Seq<char>) -> bool {
    line.len() > 0 && line[0] == '/'
}

/// What is to be done about what came from the input line. Of a line in ASCII
/// that begins with a slash the lower case is the one of its letters.
pub fn start_repl(signal: &PromptSignal<String>, plans: bool, skills: bool) -> (action: ReplAction<
    String,
>)
    ensures
        action_view(action) == match signal {
            PromptSignal::Submitted(input) => line_action(input@, plans, skills),
            _ => ReplAction::Quit,
        },
        !(signal is Submitted) <==> action is Quit,
        signal matches PromptSignal::Submitted(input) ==> (is_blank(input@) <==> action is Ignore),
        signal matches PromptSignal::Submitted(input) ==> !is_blank(input@) && trim(input@)[0]
            != '/' ==> (action matches ReplAction::Turn(line) && line@ == trim(input@)),
        signal matches PromptSignal::Submitted(input) ==> is_slash_line(trim(input@))
            && is_ascii_text(trim(input@)) ==> unicode_lower(trim(input@)) == ascii_lower_text(
            trim(input@),
        ),
{
    match signal {
        PromptSignal::Submitted(input) => {
            let line: &str = trimmed(input.as_str());
            if line.is_empty() {
                ReplAction::Ignore
            } else if line.get_char(0) == '/' {
                slash_line_action(line, plans, skills)
            } else {
                ReplAction::Turn(line.to_owned())
            }
        },
        _ => ReplAction::Quit,
    }
}

/// What is to be done after a skill was looked up for a line: it is called
/// where there is such a skill, and the line is a command where there is none.
pub fn after_lookup(
    line: &str,
    name: &str,
    args: &str,
    lookup: Result<bool, String>,
) -> (action: ReplAction<String>)
    ensures
        action_view(action) == match lookup {
            Ok(true) => ReplAction::RunSkill { name: name@, args: args@ },
            Ok(false) => ReplAction::Command(trim(line@)),
            Err(error) => ReplAction::LookUpFailed(error@),
        },
{
    match lookup {
        Ok(found) => {
            if found {
                ReplAction::RunSkill { name: name.to_owned(), args: args.to_owned() }
            } else {
                ReplAction::Command(trimmed(line).to_owned())
            }
        },
        Err(error) => ReplAction::LookUpFailed(error),
    }
}

/// The words before the message of what failed.
pub open spec fn failure_label(action: ReplAction<Seq<char>>) -> Seq<char> {
    match action {
        ReplAction::Resume => "❌ Resume failed:"@,
        ReplAction::SelectModel => "❌ Failed to update model:"@,
        ReplAction::Config => "❌ Config failed:"@,
        ReplAction::Compact => "❌ Compact failed:"@,
        ReplAction::Diff => "❌ Diff failed:"@,
        ReplAction::Review => "❌ Review failed:"@,
        ReplAction::Commit(_) => "❌ Commit failed:"@,
        ReplAction::Memory => "❌ Memory failed:"@,
        ReplAction::OutputStyle(_) => "❌ Output style failed:"@,
        ReplAction::WebSearch(_) => "❌ Web search failed:"@,
        ReplAction::WebFetch(_) => "❌ Web fetch failed:"@,
        ReplAction::Server(_) => "❌ Server command failed:"@,
        ReplAction::Plan(_) => "❌ Plan failed:"@,
        ReplAction::Skills => "❌ Skills failed:"@,
        ReplAction::RunSkill { .. } => "❌ Skill failed:"@,
        ReplAction::LookUpFailed(_) => "❌ Skill lookup failed:"@,
        _ => "❌ Error:"@,
    }
}

fn label_of(action: &ReplAction<String>) -> (label: &'static str)
    ensures
        label@ == failure_label(action_view(*action)),
{
    match action {
        ReplAction::Resume => "❌ Resume failed:",
        ReplAction::SelectModel => "❌ Failed to update model:",
        ReplAction::Config => "❌ Config failed:",
        ReplAction::Compact => "❌ Compact failed:",
        ReplAction::Diff => "❌ Diff failed:",
        ReplAction::Review => "❌ Review failed:",
        ReplAction::Commit(_) => "❌ Commit failed:",
        ReplAction::Memory => "❌ Memory failed:",
        ReplAction::OutputStyle(_) => "❌ Output style failed:",
        ReplAction::WebSearch(_) => "❌ Web search failed:",
        ReplAction::WebFetch(_) => "❌ Web fetch failed:",
        ReplAction::Server(_) => "❌ Server command failed:",
        ReplAction::Plan(_) => "❌ Plan failed:",
        ReplAction::Skills => "❌ Skills failed:",
        ReplAction::RunSkill { .. } => "❌ Skill failed:",
        ReplAction::LookUpFailed(_) => "❌ Skill lookup failed:",
        _ => "❌ Error:",
    }
}

/// What is said where an action failed.
pub fn failure_line(action: &ReplAction<String>, error: &str) -> (line: String)
    ensures
        line@ == "\n"@ + styled(
            Style::Bold,
            styled(Style::Red, failure_label(action_view(*action))),
        ) + " "@ + error@,
{
    let mut line: String = joined("\n", label_of(action).red().bold().to_text().as_str());
    line.append(" ");
    line.append(error);
    line
}

/// What is said where there are no plans, or no skills, to speak of.
pub fn missing_line(action: &ReplAction<String>) -> (line: Option<String>)
    ensures
        line is Some <==> action is NoPlans || action is NoSkills,
        action is NoPlans ==> line->0@ == "\n"@ + styled(
            Style::Bold,
            styled(Style::Red, "❌ Plan mode is not initialized"@),
        ),
        action is NoSkills ==> line->0@ == "\n"@ + styled(
            Style::Bold,
            styled(Style::Red, "❌ Skills are not initialized"@),
        ),
{
    match action {
        ReplAction::NoPlans => Some(
            joined("\n", "❌ Plan mode is not initialized".red().bold().to_text().as_str()),
        ),
        ReplAction::NoSkills => Some(
            joined("\n", "❌ Skills are not initialized".red().bold().to_text().as_str()),
        ),
        _ => None,
    }
}

// ---------------------------------------------------------------------------
// Help
// ---------------------------------------------------------------------------
/// The commands of the help, with what stands behind each of them.
pub open spec fn help_entries() -> Seq<(Seq<char>, Seq<char>)> {
    seq![
        ("/exit, /quit"@, "          - Exit the program"@),
        ("/clear"@, "            - Clear conversation history"@),
        ("/history"@, "          - View conversation history (JSON format)"@),
        ("/resume"@, "           - List and resume a previous session"@),
        ("/compact"@, "           - Manually compact conversation context"@),
        ("/diff"@, "              - Show current git diff"@),
        ("/review"@, "            - Review current git diff with the model"@),
        ("/commit [title]"@, "    - Generate a commit message and commit"@),
        ("/memory"@, "           - List saved memories"@),
        ("/output-style [name]"@, "      - List or switch output styles"@),
        ("/web <query>"@, "          - Search the web directly"@),
        ("/fetch <url>"@, "         - Fetch a public web page"@),
        ("/server [status|stop|host:port]"@, " - Start, stop, or inspect the local server"@),
        ("/plan"@, "             - Show plan status"@),
        ("/plan on"@, "        - Enable plan mode manually"@),
        ("/plan off"@, "       - Disable plan mode manually"@),
        ("/plan clear"@, "     - Clear persisted todo list"@),
        ("/skills"@, "           - List available user skills"@),
        ("/<skill-name> [args]"@, "     - Invoke a user skill by slash command"@),
        ("/config"@, "           - Configure UI settings (Theme / Tips)"@),
        ("/model"@, "           - Select and persist active model"@),
        ("/help"@, "             - Show this help"@),
        ("/count"@, "            - Show message count"@),
        ("/version"@, "          - Show current version"@),
    ]
}

/// A line of the help.
pub open spec fn help_line(entry: (Seq<char>, Seq<char>)) -> Seq<char> {
    "  "@ + styled(Style::Yellow, entry.0) + entry.1
}

/// The help, line by line.
pub open spec fn help_lines() -> Seq<Seq<char>> {
    seq![
        "\n"@ + styled(Style::Bold, styled(Style::Cyan, "📖 Available commands:"@)),
        Seq::empty(),
    ] + Seq::new(help_entries().len(), |i: int| help_line(help_entries()[i])) + seq![Seq::empty()]
}

fn add_help(list: &mut Vec<String>, command: &str, rest: &str)
    ensures
        texts(final(list)@) == texts(old(list)@).push(help_line((command@, rest@))),
{
    let mut line: String = joined("  ", command.yellow().to_text().as_str());
    line.append(rest);
    add_line(list, line);
}

/// The help, line by line.
pub fn print_help() -> (list: Vec<String>)
    ensures
        texts(list@) == help_lines(),
{
    let mut lines: Vec<String> = Vec::new();
    assert(texts(lines@) =~= Seq::<Seq<char>>::empty());
    let list: &mut Vec<String> = &mut lines;
    add_line(list, joined("\n", "📖 Available commands:".cyan().bold().to_text().as_str()));
    add_empty_line(list);
    add_help(list, "/exit, /quit", "          - Exit the program");
    add_help(list, "/clear", "            - Clear conversation history");
    add_help(list, "/history", "          - View conversation history (JSON format)");
    add_help(list, "/resume", "           - List and resume a previous session");
    add_help(list, "/compact", "           - Manually compact conversation context");
    add_help(list, "/diff", "              - Show current git diff");
    add_help(list, "/review", "            - Review current git diff with the model");
    add_help(list, "/commit [title]", "    - Generate a commit message and commit");
    add_help(list, "/memory", "           - List saved memories");
    add_help(list, "/output-style [name]", "      - List or switch output styles");
    add_help(list, "/web <query>", "          - Search the web directly");
    add_help(list, "/fetch <url>", "         - Fetch a public web page");
    add_help(
        list,
        "/server [status|stop|host:port]",
        " - Start, stop, or inspect the local server",
    );
    add_help(list, "/plan", "             - Show plan status");
    add_help(list, "/plan on", "        - Enable plan mode manually");
    add_help(list, "/plan off", "       - Disable plan mode manually");
    add_help(list, "/plan clear", "     - Clear persisted todo list");
    add_help(list, "/skills", "           - List available user skills");
    add_help(list, "/<skill-name> [args]", "     - Invoke a user skill by slash command");
    add_help(list, "/config", "           - Configure UI settings (Theme / Tips)");
    add_help(list, "/model", "           - Select and persist active model");
    add_help(list, "/help", "             - Show this help");
    add_help(list, "/count", "            - Show message count");
    add_help(list, "/version", "          - Show current version");
    add_empty_line(list);
    assert(texts(list@) =~= help_lines());
    lines
}

// ---------------------------------------------------------------------------
// Commands that need nothing from outside
// ---------------------------------------------------------------------------
/// What a command comes to: whether the prompt ends, and what is printed, line
/// by line.
pub struct CommandOutcome {
    pub exit: bool,
    pub output: Vec<String>,
}

/// What a command, in lower case, prints about a history.
pub open spec fn command_output(
    command: Seq<char>,
    lower: Seq<char>,
    history: Seq<(Seq<char>, Seq<char>)>,
    version: Seq<char>,
) -> Seq<Seq<char>> {
    if lower == "/exit"@ || lower == "/quit"@ {
        Seq::empty()
    } else if lower == "/clear"@ {
        seq!["\n"@ + styled(Style::Green, "✅ Conversation history cleared"@)]
    } else if lower == "/history"@ {
        seq![
            "\n"@ + styled(Style::Bold, styled(Style::Cyan, "📜 Conversation history:"@)),
            if history.len() == 0 {
                "  "@ + styled(Style::Dimmed, "(empty)"@)
            } else {
                history_json(history)
            },
        ]
    } else if lower == "/help"@ {
        help_lines()
    } else if lower == "/count"@ {
        seq![
            "\n"@ + styled(Style::Bold, styled(Style::Cyan, "📊 Message count:"@)) + " "@
                + decimal(history.len()),
        ]
    } else if lower == "/version"@ {
        seq![
            "\n"@ + styled(Style::Bold, styled(Style::Cyan, "📦 Version:"@)) + " "@ + styled(
                Style::White,
                version,
            ),
        ]
    } else {
        seq![
            "\n"@ + styled(Style::Bold, styled(Style::Red, "❌ Unknown command:"@)) + " "@
                + command,
            "Type "@ + styled(Style::Yellow, "/help"@) + " to see available commands"@,
        ]
    }
}

/// Carries out a command that needs nothing from outside, whatever the case of
/// its letters. Only `/clear` changes the history, and only `/exit` and
/// `/quit` end the prompt. The lower case of a command in ASCII is the one of
/// its letters.
pub fn handle_command(command: &str, history: &mut ConversationHistory, version: &str) -> (outcome:
    CommandOutcome)
    ensures
        outcome.exit == (unicode_lower(command@) == "/exit"@ || unicode_lower(command@)
            == "/quit"@),
        texts(outcome.output@) == command_output(
            command@,
            unicode_lower(command@),
            old(history)@,
            version@,
        ),
        final(history)@ == (if unicode_lower(command@) == "/clear"@ {
            Seq::empty()
        } else {
            old(history)@
        }),
        is_ascii_text(command@) ==> unicode_lower(command@) == ascii_lower_text(command@),
{
    proof {
        reveal_strlit("/exit");
        reveal_strlit("/quit");
        reveal_strlit("/clear");
        reveal_strlit("/history");
        reveal_strlit("/help");
        reveal_strlit("/count");
        reveal_strlit("/version");
        assert("/exit"@[1] == 'e' && "/quit"@[1] == 'q' && "/clear"@[2] == 'l' && "/history"@[2]
            == 'i' && "/help"@[2] == 'e' && "/count"@[2] == 'o' && "/version"@[1] == 'v');
    }
    let lower: String = lower_unicode(command);
    let word: &str = lower.as_str();
    let mut output: Vec<String> = Vec::new();
    assert(texts(output@) =~= Seq::<Seq<char>>::empty());
    if same_text(word, "/exit") || same_text(word, "/quit") {
        return CommandOutcome { exit: true, output };
    }
    if same_text(word, "/clear") {
        history.clear();
        add_line(
            &mut output,
            joined("\n", "✅ Conversation history cleared".green().to_text().as_str()),
        );
    } else if same_text(word, "/history") {
        add_line(
            &mut output,
            joined("\n", "📜 Conversation history:".cyan().bold().to_text().as_str()),
        );
        if history.is_empty() {
            add_line(&mut output, joined("  ", "(empty)".dimmed().to_text().as_str()));
        } else if let Ok(json) = history.to_json() {
            add_line(&mut output, json);
        }
    } else if same_text(word, "/help") {
        output = print_help();
    } else if same_text(word, "/count") {
        let mut line: String = joined("\n", "📊 Message count:".cyan().bold().to_text().as_str());
        line.append(" ");
        line.append(decimal_text(history.len() as u64).as_str());
        add_line(&mut output, line);
    } else if same_text(word, "/version") {
        let mut line: String = joined("\n", "📦 Version:".cyan().bold().to_text().as_str());
        line.append(" ");
        line.append(version.white().to_text().as_str());
        add_line(&mut output, line);
    } else {
        let mut line: String = joined("\n", "❌ Unknown command:".red().bold().to_text().as_str());
        line.append(" ");
        line.append(command);
        add_line(&mut output, line);
        let mut hint: String = joined("Type ", "/help".yellow().to_text().as_str());
        hint.append(" to see available commands");
        add_line(&mut output, hint);
    }
    assert(texts(output@) =~= command_output(command@, lower@, old(history)@, version@));
    CommandOutcome { exit: false, output }
}

// ---------------------------------------------------------------------------
// Laws
// ---------------------------------------------------------------------------
/// A skill is looked up only for a line that is no command that is built in:
/// no skill takes the place of one.
pub proof fn builtin_commands_come_first(line: Seq<char>, plans: bool, skills: bool)
    requires
        slash_action(line, plans, skills) is LookUpSkill,
    ensures
        !is_plain_command(unicode_lower(line)),
        argument_of(line, "/resume"@) is None,
        argument_of(line, "/model"@) is None,
        argument_of(line, "/config"@) is None,
        argument_of(line, "/compact"@) is None,
        argument_of(line, "/diff"@) is None,
        argument_of(line, "/review"@) is None,
        argument_of(line, "/commit"@) is None,
        argument_of(line, "/memory"@) is None,
        argument_of(line, "/output-style"@) is None,
        argument_of(line, "/web"@) is None,
        argument_of(line, "/fetch"@) is None,
        argument_of(line, "/server"@) is None,
        argument_of(line, "/plan"@) is None,
        argument_of(line, "/skills"@) is None,
{
}

/// A slash alone asks for the menu of commands, and nothing else does: such a
/// line is no unknown command.
pub proof fn lone_slash_opens_the_menu(input: Seq<char>, plans: bool, skills: bool)
    ensures
        line_action(input, plans, skills) is PickCommand <==> trim(input) == "/"@,
{
    reveal_strlit("/");
}

/// A line that does not begin with a slash, and is not blank, is a message for
/// the model; no other line is.
pub proof fn messages_have_no_slash(input: Seq<char>, plans: bool, skills: bool)
    ensures
        line_action(input, plans, skills) is Turn <==> trim(input).len() > 0 && trim(input)[0]
            != '/',
{
}

/// Whether the help speaks of a command in an entry: its name stands there as
/// a word of its own.
pub open spec fn mentions(entry: Seq<char>, name: Seq<char>) -> bool {
    exists|at: int| #[trigger] mentioned_at(entry, name, at)
}

/// Whether the name stands at this place as a word of its own.
pub open spec fn mentioned_at(entry: Seq<char>, name: Seq<char>, at: int) -> bool {
    let end = at + name.len();
    &&& 0 <= at && end <= entry.len()
    &&& entry.subrange(at, end) == name
    &&& at == 0 || entry[at - 1] == ' '
    &&& end == entry.len() || entry[end] == ' ' || entry[end] == ','
}

proof fn lemma_mentioned_at(entry: Seq<char>, name: Seq<char>, at: int)
    requires
        0 <= at && at + name.len() <= entry.len(),
        forall|i: int| 0 <= i < name.len() ==> entry[at + i] == #[trigger] name[i],
        at == 0 || entry[at - 1] == ' ',
        at + name.len() == entry.len() || entry[at + name.len()] == ' ' || entry[at + name.len()]
            == ',',
    ensures
        mentions(entry, name),
{
    assert(entry.subrange(at, at + name.len()) =~= name);
    assert(mentioned_at(entry, name, at));
}

/// Where the help speaks of a command that is built in.
spec fn help_place(command: int) -> int {
    if command == 0 {
        1
    } else if command == 1 {
        7
    } else if command == 2 {
        4
    } else if command == 3 {
        19
    } else if command == 4 {
        22
    } else if command == 5 {
        5
    } else if command == 6 {
        0
    } else if command == 7 {
        11
    } else if command == 8 {
        21
    } else if command == 9 {
        2
    } else if command == 10 {
        8
    } else if command == 11 {
        20
    } else if command == 12 {
        9
    } else if command == 13 {
        13
    } else if command == 14 {
        0
    } else if command == 15 {
        3
    } else if command == 16 {
        6
    } else if command == 17 {
        12
    } else if command == 18 {
        17
    } else if command == 19 {
        23
    } else {
        10
    }
}

/// The command that an entry of the help speaks of.
spec fn command_place(entry: int) -> int {
    if entry == 0 {
        6
    } else if entry == 1 {
        0
    } else if entry == 2 {
        9
    } else if entry == 3 {
        15
    } else if entry == 4 {
        2
    } else if entry == 5 {
        5
    } else if entry == 6 {
        16
    } else if entry == 7 {
        1
    } else if entry == 8 {
        10
    } else if entry == 9 {
        12
    } else if entry == 10 {
        20
    } else if entry == 11 {
        7
    } else if entry == 12 {
        17
    } else if entry == 13 {
        13
    } else if entry == 14 {
        13
    } else if entry == 15 {
        13
    } else if entry == 16 {
        13
    } else if entry == 17 {
        18
    } else if entry == 19 {
        3
    } else if entry == 20 {
        11
    } else if entry == 21 {
        8
    } else if entry == 22 {
        4
    } else {
        19
    }
}

proof fn lemma_help_of_command(entry: int)
    requires
        0 <= entry < 24,
        entry != 18,
    ensures
        0 <= command_place(entry) < 21,
        mentions(help_entries()[entry].0, builtin_table()[command_place(entry)].name),
{
    let text = help_entries()[entry].0;
    let name = builtin_table()[command_place(entry)].name;
    if entry == 0 {
        reveal_strlit("/exit, /quit");
        reveal_strlit("/exit");
    } else if entry == 7 {
        reveal_strlit("/commit [title]");
        reveal_strlit("/commit");
    } else if entry == 9 {
        reveal_strlit("/output-style [name]");
        reveal_strlit("/output-style");
    } else if entry == 10 {
        reveal_strlit("/web <query>");
        reveal_strlit("/web");
    } else if entry == 11 {
        reveal_strlit("/fetch <url>");
        reveal_strlit("/fetch");
    } else if entry == 12 {
        reveal_strlit("/server [status|stop|host:port]");
        reveal_strlit("/server");
    } else if 14 <= entry <= 16 {
        reveal_strlit("/plan on");
        reveal_strlit("/plan off");
        reveal_strlit("/plan clear");
        reveal_strlit("/plan");
    } else {
        assert(text == name);
    }
    lemma_mentioned_at(text, name, 0);
}

proof fn lemma_command_in_help(command: int)
    requires
        0 <= command < 21,
    ensures
        0 <= help_place(command) < 24,
        mentions(help_entries()[help_place(command)].0, builtin_table()[command].name),
{
    if command == 14 {
        reveal_strlit("/exit, /quit");
        reveal_strlit("/quit");
        lemma_mentioned_at("/exit, /quit"@, "/quit"@, 7);
    } else {
        assert(command_place(help_place(command)) == command);
        lemma_help_of_command(help_place(command));
    }
}

/// The help and the menu of commands name the same commands: the help speaks
/// of every command that is built in, and every entry of the help, but for the
/// one on skills, speaks of such a command.
pub proof fn help_names_the_offered_commands()
    ensures
        forall|i: int|
            0 <= i < builtin_table().len() ==> exists|j: int|
                0 <= j < help_entries().len() && mentions(
                    (#[trigger] help_entries()[j]).0,
                    (#[trigger] builtin_table()[i]).name,
                ),
        forall|j: int|
            0 <= j < help_entries().len() && help_entries()[j].0 != "/<skill-name> [args]"@
                ==> exists|i: int|
                0 <= i < builtin_table().len() && mentions(
                    (#[trigger] help_entries()[j]).0,
                    (#[trigger] builtin_table()[i]).name,
                ),
{
    assert forall|i: int| 0 <= i < builtin_table().len() implies exists|j: int|
        0 <= j < help_entries().len() && mentions(
            (#[trigger] help_entries()[j]).0,
            (#[trigger] builtin_table()[i]).name,
        ) by {
        lemma_command_in_help(i);
        assert(help_entries()[help_place(i)].0 == help_entries()[help_place(i)].0);
    }
    assert forall|j: int|
        0 <= j < help_entries().len() && help_entries()[j].0
            != "/<skill-name> [args]"@ implies exists|i: int|
        0 <= i < builtin_table().len() && mentions(
            (#[trigger] help_entries()[j]).0,
            (#[trigger] builtin_table()[i]).name,
        ) by {
        lemma_help_of_command(j);
        assert(builtin_table()[command_place(j)].name == builtin_table()[command_place(j)].name);
    }
}

} // verus!
