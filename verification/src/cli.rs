//! The command line: its arguments, and a prompt that is given there.
use vstd::prelude::*;

use crate::repl::{ResumeTarget, ResumeView};
use crate::screen::{add_empty_line, add_line};
use crate::server::{
    parse_server_command, server_command, ServerCommand, ServerCommandView, ServerError,
};
use crate::slash::{argument_of, command_arg, parse_slash_skill, skill_of};
use crate::terminal_style::{styled, Style, StyleExt};
use crate::text::{join, join_texts, joined, same_text, texts, trim, trimmed};
use crate::types::opt_text;

verus! {

// ---------------------------------------------------------------------------
// Arguments
// ---------------------------------------------------------------------------
/// What the arguments stand for, from the one at `at` on, where those before
/// it stood for the given: which conversation to start with, and the words of
/// a prompt. `None` where `--resume` is the last argument.
pub open spec fn arguments_from(
    args: Seq<Seq<char>>,
    at: int,
    target: ResumeView,
    words: Seq<Seq<char>>,
) -> Option<(ResumeView, Seq<Seq<char>>)>
    decreases args.len() - at,
{
    if at >= args.len() {
        Some((target, words))
    } else if args[at] == "--continue"@ {
        arguments_from(args, at + 1, ResumeView::ContinueLatest, words)
    } else if args[at] == "--resume"@ {
        if at + 1 < args.len() {
            arguments_from(args, at + 2, ResumeView::ResumeId(args[at + 1]), words)
        } else {
            None
        }
    } else {
        arguments_from(args, at + 1, target, words.push(args[at]))
    }
}

/// What is wrong with the arguments.
#[derive(Debug, Clone, Copy, PartialEq, Eq, Structural)]
pub enum ArgsError {
    MissingSessionId,
}

impl ArgsError {
    /// The message for the user.
    pub fn message(&self) -> (text: &'static str)
        ensures
            text@ == "--resume requires a session id"@,
    {
        "--resume requires a session id"
    }
}

/// Reads the arguments: which conversation to start with, the last of those
/// that are named, and the words of a prompt.
pub fn parse_args(args: &Vec<String>) -> (parsed: Result<(ResumeTarget, Vec<String>), ArgsError>)
    ensures
        match arguments_from(texts(args@), 0, ResumeView::New, Seq::empty()) {
            Some((target, words)) => parsed matches Ok((found, prompt)) && found@ == target
                && texts(prompt@) == words,
            None => parsed == Err::<(ResumeTarget, Vec<String>), ArgsError>(
                ArgsError::MissingSessionId,
            ),
        },
{
    let ghost all = texts(args@);
    let mut target: ResumeTarget = ResumeTarget::New;
    let mut prompt: Vec<String> = Vec::new();
    let mut i: usize = 0;
    assert(texts(prompt@) =~= Seq::<Seq<char>>::empty());
    while i < args.len()
        invariant
            i <= args.len(),
            all == texts(args@),
            arguments_from(all, 0, ResumeView::New, Seq::empty()) == arguments_from(
                all,
                i as int,
                target@,
                texts(prompt@),
            ),
        decreases args.len() - i,
    {
        assert(all[i as int] == args@[i as int]@);
        if same_text(args[i].as_str(), "--continue") {
            target = ResumeTarget::ContinueLatest;
            i += 1;
        } else if same_text(args[i].as_str(), "--resume") {
            if args.len() - i < 2 {
                return Err(ArgsError::MissingSessionId);
            }
            assert(all[i + 1] == args@[i + 1]@);
            target = ResumeTarget::ResumeId(args[i + 1].clone());
            i += 2;
        } else {
            add_line(&mut prompt, args[i].clone());
            i += 1;
        }
    }
    Ok((target, prompt))
}

/// The prompt that the words of the command line make.
pub fn prompt_text(words: &Vec<String>) -> (prompt: String)
    ensures
        prompt@ == join(texts(words@), " "@),
{
    join_texts(words, " ")
}

/// The banner, line by line.
pub fn print_banner() -> (list: Vec<String>)
    ensures
        texts(list@) == seq![
            styled(
                Style::Cyan,
                "╔════════════════════════════════════════════════════════════╗"@,
            ),
            styled(
                Style::Cyan,
                "║         Localcoder Minimal Version (Rust) - CLI Interface  ║"@,
            ),
            styled(
                Style::Cyan,
                "╚════════════════════════════════════════════════════════════╝"@,
            ),
            Seq::empty(),
        ],
{
    let top: String = "╔════════════════════════════════════════════════════════════╗".cyan().to_text();
    let middle: String = "║         Localcoder Minimal Version (Rust) - CLI Interface  ║".cyan().to_text();
    let bottom: String = "╚════════════════════════════════════════════════════════════╝".cyan().to_text();
    let ghost lines = seq![top@, middle@, bottom@, Seq::empty()];
    let mut list: Vec<String> = Vec::new();
    assert(texts(list@) =~= Seq::<Seq<char>>::empty());
    add_line(&mut list, top);
    add_line(&mut list, middle);
    add_line(&mut list, bottom);
    add_empty_line(&mut list);
    assert(texts(list@) =~= lines);
    list
}

// ---------------------------------------------------------------------------
// A prompt on the command line
// ---------------------------------------------------------------------------
/// The argument of a command in a prompt.
pub fn parse_command_arg<'a>(input: &'a str, command: &str) -> (arg: Option<&'a str>)
    ensures
        crate::json::opt_view(arg) == argument_of(input@, command@),
{
    command_arg(input, command)
}

/// What is to be done about a prompt on the command line, over a type of text.
pub enum OneShotAction<T> {
    /// Run the server here, in the foreground.
    RunServer { host: T, port: u16 },
    /// Show how the plan stands.
    ShowPlan,
    /// List the output styles.
    ListStyles,
    /// Find out whether there is such an output style, and switch to it.
    CheckStyle(T),
    /// List the skills.
    ListSkills,
    WebSearch(T),
    WebFetch(T),
    /// Send the prompt to the model; or, where it names a skill that there is,
    /// what the skill makes of the arguments.
    Ask { prompt: T, skill: Option<(T, T)> },
}

/// Why nothing can be done about a prompt, over a type of text.
#[derive(Debug)]
pub enum OneShotError<T> {
    /// The server cannot listen at this address.
    InvalidAddress(T),
    /// A server command that makes no sense here.
    ServerCommand,
    /// There is no such output style.
    UnknownStyle(T),
}

/// The characters of an action's texts.
pub open spec fn action_view(action: OneShotAction<String>) -> OneShotAction<Seq<char>> {
    match action {
        OneShotAction::RunServer { host, port } => OneShotAction::RunServer { host: host@, port },
        OneShotAction::ShowPlan => OneShotAction::ShowPlan,
        OneShotAction::ListStyles => OneShotAction::ListStyles,
        OneShotAction::CheckStyle(name) => OneShotAction::CheckStyle(name@),
        OneShotAction::ListSkills => OneShotAction::ListSkills,
        OneShotAction::WebSearch(query) => OneShotAction::WebSearch(query@),
        OneShotAction::WebFetch(url) => OneShotAction::WebFetch(url@),
        OneShotAction::Ask { prompt, skill } => OneShotAction::Ask {
            prompt: prompt@,
            skill: match skill {
                Some((name, args)) => Some((name@, args@)),
                None => None,
            },
        },
    }
}

/// The message of an error.
pub open spec fn error_message(error: OneShotError<Seq<char>>) -> Seq<char> {
    match error {
        OneShotError::InvalidAddress(address) => "invalid server address: "@ + address,
        OneShotError::ServerCommand => "one-shot mode only supports /server or /server <host:port>"@,
        OneShotError::UnknownStyle(name) => "unknown output style: "@ + name,
    }
}

impl OneShotError<String> {
    /// The error with its characters.
    pub open spec fn view(&self) -> OneShotError<Seq<char>> {
        match self {
            OneShotError::InvalidAddress(address) => OneShotError::InvalidAddress(address@),
            OneShotError::ServerCommand => OneShotError::ServerCommand,
            OneShotError::UnknownStyle(name) => OneShotError::UnknownStyle(name@),
        }
    }

    /// The message for the user.
    pub fn message(&self) -> (text: String)
        ensures
            text@ == error_message(self@),
    {
        match self {
            OneShotError::InvalidAddress(address) => joined(
                "invalid server address: ",
                address.as_str(),
            ),
            OneShotError::ServerCommand => {
                "one-shot mode only supports /server or /server <host:port>".to_owned()
            },
            OneShotError::UnknownStyle(name) => joined("unknown output style: ", name.as_str()),
        }
    }
}

/// What is to be done about a prompt on the command line, where it is no
/// server command.
pub open spec fn prompt_action(prompt: Seq<char>) -> OneShotAction<Seq<char>> {
    if trim(prompt) == "/plan"@ {
        OneShotAction::ShowPlan
    } else if argument_of(prompt, "/output-style"@) is Some {
        let name = argument_of(prompt, "/output-style"@)->0;
        if name.len() == 0 {
            OneShotAction::ListStyles
        } else {
            OneShotAction::CheckStyle(name)
        }
    } else if trim(prompt) == "/skills"@ {
        OneShotAction::ListSkills
    } else if argument_of(prompt, "/web"@) is Some {
        OneShotAction::WebSearch(argument_of(prompt, "/web"@)->0)
    } else if argument_of(prompt, "/fetch"@) is Some {
        OneShotAction::WebFetch(argument_of(prompt, "/fetch"@)->0)
    } else {
        OneShotAction::Ask { prompt: trim(prompt), skill: skill_of(prompt) }
    }
}

/// What is to be done about a prompt on the command line, or why nothing can
/// be. Of the server commands only those that start it make sense here.
pub open spec fn one_shot_action(prompt: Seq<char>) -> Result<
    OneShotAction<Seq<char>>,
    OneShotError<Seq<char>>,
> {
    match argument_of(prompt, "/server"@) {
        Some(args) => match server_command(args) {
            Some(ServerCommandView::Start(host, port)) => Ok(
                OneShotAction::RunServer { host, port: port as u16 },
            ),
            Some(_) => Err(OneShotError::ServerCommand),
            None => Err(OneShotError::InvalidAddress(trim(args))),
        },
        None => Ok(prompt_action(prompt)),
    }
}

/// Says what is to be done about a prompt on the command line.
pub fn one_shot(prompt: &str) -> (action: Result<OneShotAction<String>, OneShotError<String>>)
    ensures
        match one_shot_action(prompt@) {
            Ok(wanted) => action matches Ok(action) && action_view(action) == wanted,
            Err(problem) => action matches Err(error) && error@ == problem,
        },
{
    if let Some(args) = command_arg(prompt, "/server") {
        return match parse_server_command(args) {
            Ok(ServerCommand::Start(config)) => Ok(
                OneShotAction::RunServer { host: config.host, port: config.port },
            ),
            Ok(_) => Err(OneShotError::ServerCommand),
            Err(ServerError::InvalidAddress(address)) => Err(OneShotError::InvalidAddress(address)),
        };
    }
    let text: &str = trimmed(prompt);
    if same_text(text, "/plan") {
        return Ok(OneShotAction::ShowPlan);
    }
    if let Some(name) = command_arg(prompt, "/output-style") {
        return Ok(
            if name.is_empty() {
                OneShotAction::ListStyles
            } else {
                OneShotAction::CheckStyle(name.to_owned())
            },
        );
    }
    if same_text(text, "/skills") {
        return Ok(OneShotAction::ListSkills);
    }
    if let Some(query) = command_arg(prompt, "/web") {
        return Ok(OneShotAction::WebSearch(query.to_owned()));
    }
    if let Some(url) = command_arg(prompt, "/fetch") {
        return Ok(OneShotAction::WebFetch(url.to_owned()));
    }
    let skill: Option<(String, String)> = match parse_slash_skill(prompt) {
        Some((name, args)) => Some((name.to_owned(), args.to_owned())),
        None => None,
    };
    Ok(OneShotAction::Ask { prompt: text.to_owned(), skill })
}

/// The output style to switch to, where there is such a style.
pub fn checked_style(name: &str, known: bool) -> (style: Result<String, OneShotError<String>>)
    ensures
        if known {
            style matches Ok(style) && style@ == trim(name@)
        } else {
            style matches Err(error) && error@ == OneShotError::UnknownStyle(name@)
        },
{
    if known {
        Ok(trimmed(name).to_owned())
    } else {
        Err(OneShotError::UnknownStyle(name.to_owned()))
    }
}

/// What is sent to the model: what the skill made of the prompt, where one
/// did, and the prompt else.
pub fn effective_prompt(prompt: &str, skill_message: Option<&str>) -> (text: String)
    ensures
        text@ == match skill_message {
            Some(message) => message@,
            None => trim(prompt@),
        },
{
    match skill_message {
        Some(message) => message.to_owned(),
        None => trimmed(prompt).to_owned(),
    }
}

/// What was saved: kinds and names.
pub open spec fn saved_entries(saved: Seq<(String, String)>) -> Seq<Seq<char>> {
    Seq::new(saved.len(), |i: int| "["@ + saved[i].0@ + "] "@ + saved[i].1@)
}

/// What is said of the memories that were saved, each a kind and a name:
/// nothing where there are none.
pub fn saved_memories_line(saved: &Vec<(String, String)>) -> (line: Option<String>)
    ensures
        opt_text(line) == (if saved.len() == 0 {
            None
        } else {
            Some(
                styled(Style::Bold, styled(Style::Cyan, "🧠 Saved memories:"@)) + " "@ + join(
                    saved_entries(saved@),
                    ", "@,
                ),
            )
        }),
{
    if saved.len() == 0 {
        return None;
    }
    let mut entries: Vec<String> = Vec::new();
    let mut i: usize = 0;
    while i < saved.len()
        invariant
            i <= saved.len(),
            entries.len() == i,
            forall|k: int| 0 <= k < i ==> #[trigger] entries@[k]@ == saved_entries(saved@)[k],
        decreases saved.len() - i,
    {
        let mut entry: String = joined("[", saved[i].0.as_str());
        entry.append("] ");
        entry.append(saved[i].1.as_str());
        entries.push(entry);
        i += 1;
    }
    assert(texts(entries@) =~= saved_entries(saved@));
    let mut line: String = "🧠 Saved memories:".cyan().bold().to_text();
    line.append(" ");
    line.append(join_texts(&entries, ", ").as_str());
    Some(line)
}

// ---------------------------------------------------------------------------
// Laws
// ---------------------------------------------------------------------------
proof fn lemma_words_stay(
    args: Seq<Seq<char>>,
    at: int,
    target: ResumeView,
    words: Seq<Seq<char>>,
)
    requires
        0 <= at <= args.len(),
        forall|i: int|
            at <= i < args.len() ==> #[trigger] args[i] != "--continue"@ && args[i]
                != "--resume"@,
    ensures
        arguments_from(args, at, target, words) == Some((target, words + args.skip(at))),
    decreases args.len() - at,
{
    if at < args.len() {
        lemma_words_stay(args, at + 1, target, words.push(args[at]));
        assert(words.push(args[at]) + args.skip(at + 1) =~= words + args.skip(at));
    } else {
        assert(words + args.skip(at) =~= words);
    }
}

/// Arguments without `--continue` and `--resume` are all words of the prompt,
/// in their order, and start a new conversation.
pub proof fn plain_arguments_are_the_prompt(args: Seq<Seq<char>>)
    requires
        forall|i: int|
            0 <= i < args.len() ==> #[trigger] args[i] != "--continue"@ && args[i] != "--resume"@,
    ensures
        arguments_from(args, 0, ResumeView::New, Seq::empty()) == Some((ResumeView::New, args)),
{
    lemma_words_stay(args, 0, ResumeView::New, Seq::empty());
    assert(Seq::<Seq<char>>::empty() + args.skip(0) =~= args);
}

} // verus!
