//! What a line at the prompt, or a command line, comes to, whatever stands in
//! it.
use vstd::prelude::*;

use crate::cli::{arguments_from, one_shot_action, OneShotAction, OneShotError};
use crate::net::{address_of, ip_text};
use crate::prompt_input::completed;
use crate::repl::{line_action, session_status, ReplAction, ResumeView};
use crate::repl_commands::{plan_action, review_prompt, server_action, PlanAction, ServerActionView};
use crate::repl_completion::{builtin_table, lemma_builtin_words, offered_commands, CommandView};
use crate::runtime::base_prompt;
use crate::server::{server_command, ServerCommandView};
use crate::slash::{argument_of, commands_exclude_each_other, skill_of};
use crate::text::{
    ascii_lower_text, first_white, is_blank, is_white, lemma_first_white, trim, trim_is_idempotent,
    unicode_lower,
};
use crate::text_laws::{trim_takes_off_white_space, trimmed_text_stands_inside};

verus! {

// ---------------------------------------------------------------------------
// A command and its argument
// ---------------------------------------------------------------------------
/// Whether a line is a command: its name alone, or its name and white space
/// behind it.
pub open spec fn calls(line: Seq<char>, command: Seq<char>) -> bool {
    line == command || (command.len() < line.len() && line.take(command.len() as int) == command
        && is_white(line[command.len() as int]))
}

/// A line is taken for a command if and only if it is its name alone or goes on
/// with white space behind it, and the argument is what stands there, without
/// the white space around it.
pub proof fn argument_stands_behind_the_command(line: Seq<char>, command: Seq<char>)
    ensures
        argument_of(line, command) is Some <==> calls(line, command),
        calls(line, command) ==> argument_of(line, command) == Some(
            trim(line.skip(command.len() as int)),
        ),
        line == command ==> argument_of(line, command)->0.len() == 0,
{
    let rest = line.skip(command.len() as int);
    if command.is_prefix_of(line) {
        assert(line.take(command.len() as int) =~= command);
        if rest.len() == 0 {
            assert(line =~= command);
            assert(trim(rest).len() == 0);
            assert(trim(rest) =~= Seq::<char>::empty());
        } else {
            assert(rest[0] == line[command.len() as int]);
        }
    }
    if line == command {
        assert(command.is_prefix_of(line));
        assert(rest =~= Seq::<char>::empty());
    }
    if calls(line, command) && line != command {
        assert(command.is_prefix_of(line)) by {
            assert(line.subrange(0, command.len() as int) =~= line.take(command.len() as int));
        }
    }
}

/// A skill is named by the word behind the slash, and is given what stands
/// behind that word, without the white space around it.
pub proof fn skill_is_named_behind_the_slash(
    input: Seq<char>,
    name: Seq<char>,
    gap: char,
    args: Seq<char>,
)
    requires
        name.len() > 0,
        forall|i: int| 0 <= i < name.len() ==> !is_white(#[trigger] name[i]),
        is_white(gap),
    ensures
        trim(input) == seq!['/'] + name ==> skill_of(input) == Some((name, Seq::<char>::empty())),
        trim(input) == seq!['/'] + name + seq![gap] + args ==> skill_of(input) == Some(
            (name, trim(args)),
        ),
        trim(input).len() == 0 || trim(input)[0] != '/' ==> skill_of(input) is None,
        trim(input).len() < 2 ==> skill_of(input) is None,
{
    let line = trim(input);
    let rest = line.skip(1);
    lemma_first_white(rest);
    let end = first_white(rest) as int;
    if line == seq!['/'] + name {
        assert(rest =~= name);
        if end < rest.len() {
            assert(is_white(name[end]));
        }
    } else if line == seq!['/'] + name + seq![gap] + args {
        assert(rest =~= name + seq![gap] + args);
        assert(rest[name.len() as int] == gap);
        if end < name.len() {
            assert(rest[end] == name[end]);
        } else if end > name.len() {
            assert(!is_white(rest[name.len() as int]));
        }
        assert(rest.take(end) =~= name);
        assert(rest.skip(end + 1) =~= args);
    }
}

// ---------------------------------------------------------------------------
// Lines at the prompt
// ---------------------------------------------------------------------------
/// The line is the command at this place of the table, and none of the others.
proof fn lemma_only_command(line: Seq<char>, place: int)
    requires
        0 <= place < 21,
        calls(line, builtin_table()[place].name),
    ensures
        forall|k: int|
            0 <= k < 21 && k != place ==> argument_of(line, (#[trigger] builtin_table()[k]).name)
                is None,
        argument_of(line, builtin_table()[place].name) == Some(
            trim(line.skip(builtin_table()[place].name.len() as int)),
        ),
        line.len() > 1 && line[0] == '/',
{
    let name = builtin_table()[place].name;
    argument_stands_behind_the_command(line, name);
    lemma_builtin_words(place);
    offered_commands(None);
    assert forall|k: int| 0 <= k < 21 && k != place implies argument_of(
        line,
        (#[trigger] builtin_table()[k]).name,
    ) is None by {
        lemma_builtin_words(k);
        if argument_of(line, builtin_table()[k].name) is Some {
            commands_exclude_each_other(line, name, builtin_table()[k].name);
            let (a, b) = if k < place {
                (k, place)
            } else {
                (place, k)
            };
            assert(builtin_table()[a].name == builtin_table()[b].name);
        }
    }
    assert(line[0] == name[0]) by {
        if line != name {
            assert(line.take(name.len() as int)[0] == line[0]);
        }
    }
}

/// A command that asks for something from outside is what its line calls for,
/// with its argument: no other line of the table, no skill and no message takes
/// its place. Where plans or skills are missing, that is said.
pub proof fn commands_are_dispatched(input: Seq<char>, plans: bool, skills: bool)
    ensures
        ({
            let line = trim(input);
            let action = line_action(input, plans, skills);
            let behind = |count: int| trim(line.skip(count));
            &&& calls(line, "/resume"@) ==> action is Resume
            &&& calls(line, "/model"@) ==> action is SelectModel
            &&& calls(line, "/config"@) ==> action is Config
            &&& calls(line, "/compact"@) ==> action is Compact
            &&& calls(line, "/diff"@) ==> action is Diff
            &&& calls(line, "/review"@) ==> action is Review
            &&& calls(line, "/memory"@) ==> action is Memory
            &&& calls(line, "/commit"@) ==> action == ReplAction::Commit(
                if behind(7).len() == 0 {
                    None
                } else {
                    Some(behind(7))
                },
            )
            &&& calls(line, "/output-style"@) ==> action == ReplAction::OutputStyle(behind(13))
            &&& calls(line, "/web"@) ==> action == ReplAction::WebSearch(behind(4))
            &&& calls(line, "/fetch"@) ==> action == ReplAction::WebFetch(behind(6))
            &&& calls(line, "/server"@) ==> action == ReplAction::Server(behind(7))
            &&& calls(line, "/plan"@) && plans ==> action == ReplAction::Plan(behind(5))
            &&& calls(line, "/plan"@) && !plans ==> action is NoPlans
            &&& calls(line, "/skills"@) && skills ==> action is Skills
            &&& calls(line, "/skills"@) && !skills ==> action is NoSkills
        }),
{
    let line = trim(input);
    reveal_strlit("/");
    reveal_strlit("/commit");
    reveal_strlit("/output-style");
    reveal_strlit("/web");
    reveal_strlit("/fetch");
    reveal_strlit("/server");
    reveal_strlit("/plan");
    let table = builtin_table();
    assert(table[1].name == "/commit"@ && table[2].name == "/compact"@ && table[3].name
        == "/config"@ && table[5].name == "/diff"@ && table[7].name == "/fetch"@);
    assert(table[10].name == "/memory"@ && table[11].name == "/model"@ && table[12].name
        == "/output-style"@ && table[13].name == "/plan"@ && table[15].name == "/resume"@);
    assert(table[16].name == "/review"@ && table[17].name == "/server"@ && table[18].name
        == "/skills"@ && table[20].name == "/web"@);
    assert forall|k: int| 0 <= k < 21 && calls(line, #[trigger] table[k].name) implies (forall|
        j: int,
    |
        0 <= j < 21 && j != k ==> argument_of(line, (#[trigger] table[j]).name) is None)
        && argument_of(line, table[k].name) == Some(
        trim(line.skip(table[k].name.len() as int)),
    ) && line.len() > 1 && line[0] == '/' by {
        lemma_only_command(line, k);
    }
}

/// A line of nothing but white space is passed over. A line that does not begin
/// with a slash is a message for the model, as it is but for the white space
/// around it. A line that begins with one never is.
pub proof fn messages_go_to_the_model(input: Seq<char>, plans: bool, skills: bool)
    ensures
        is_blank(input) <==> line_action(input, plans, skills) is Ignore,
        !is_blank(input) && trim(input)[0] != '/' ==> line_action(input, plans, skills)
            == ReplAction::Turn(trim(input)),
        !is_blank(input) && trim(input)[0] == '/' ==> !(line_action(input, plans, skills) is Turn),
        !(line_action(input, plans, skills) is Quit),
{
}

/// A line with a slash that calls for none of the commands of the table is a
/// skill to be looked up, by its name and with its arguments, where there are
/// skills, and a command that nothing is known of else.
pub proof fn other_lines_name_skills(input: Seq<char>, plans: bool, skills: bool)
    requires
        trim(input).len() > 1,
        trim(input)[0] == '/',
        forall|k: int|
            0 <= k < 21 ==> !calls(trim(input), (#[trigger] builtin_table()[k]).name),
        forall|k: int|
            0 <= k < 21 ==> unicode_lower(trim(input)) != (#[trigger] builtin_table()[k]).name,
    ensures
        skills ==> (skill_of(input) matches Some((name, args)) && line_action(input, plans, skills)
            == (ReplAction::LookUpSkill { name, args })),
        !skills ==> line_action(input, plans, skills) == ReplAction::Command(trim(input)),
{
    let line = trim(input);
    trim_is_idempotent(input);
    reveal_strlit("/");
    let table = builtin_table();
    assert forall|k: int| 0 <= k < 21 implies argument_of(line, (#[trigger] table[k]).name)
        is None by {
        argument_stands_behind_the_command(line, table[k].name);
    }
    assert(table[0].name == "/clear"@ && table[4].name == "/count"@ && table[6].name == "/exit"@
        && table[8].name == "/help"@ && table[9].name == "/history"@ && table[14].name == "/quit"@
        && table[19].name == "/version"@);
    assert(table[1].name == "/commit"@ && table[2].name == "/compact"@ && table[3].name
        == "/config"@ && table[5].name == "/diff"@ && table[7].name == "/fetch"@);
    assert(table[10].name == "/memory"@ && table[11].name == "/model"@ && table[12].name
        == "/output-style"@ && table[13].name == "/plan"@ && table[15].name == "/resume"@);
    assert(table[16].name == "/review"@ && table[17].name == "/server"@ && table[18].name
        == "/skills"@ && table[20].name == "/web"@);
}

/// A command that needs nothing from outside is carried out here whatever skills
/// there are.
pub proof fn plain_commands_are_carried_out(input: Seq<char>, plans: bool, skills: bool)
    requires
        ({
            let lower = unicode_lower(trim(input));
            ||| lower == "/exit"@
            ||| lower == "/quit"@
            ||| lower == "/clear"@
            ||| lower == "/history"@
            ||| lower == "/help"@
            ||| lower == "/count"@
            ||| lower == "/version"@
        }),
        trim(input).len() > 1,
        trim(input)[0] == '/',
        forall|k: int|
            0 <= k < 21 ==> argument_of(trim(input), (#[trigger] builtin_table()[k]).name) is None
                || k == 0 || k == 4 || k == 6 || k == 8 || k == 9 || k == 14 || k == 19,
    ensures
        line_action(input, plans, skills) == ReplAction::Command(trim(input)),
{
    reveal_strlit("/");
    let table = builtin_table();
    assert(table[1].name == "/commit"@ && table[2].name == "/compact"@ && table[3].name
        == "/config"@ && table[5].name == "/diff"@ && table[7].name == "/fetch"@);
    assert(table[10].name == "/memory"@ && table[11].name == "/model"@ && table[12].name
        == "/output-style"@ && table[13].name == "/plan"@ && table[15].name == "/resume"@);
    assert(table[16].name == "/review"@ && table[17].name == "/server"@ && table[18].name
        == "/skills"@ && table[20].name == "/web"@);
}

/// What is picked in the menu of commands is put into the line as the name of
/// the command, with a space behind it if and only if it takes arguments.
pub proof fn picked_command_can_be_completed(command: CommandView)
    ensures
        completed(command).take(command.name.len() as int) == command.name,
        command.takes_args ==> completed(command).len() == command.name.len() + 1 && completed(
            command,
        ).last() == ' ',
        !command.takes_args ==> completed(command) == command.name,
{
    reveal_strlit(" ");
    assert(completed(command).take(command.name.len() as int) =~= command.name);
    assert(command.name + Seq::<char>::empty() =~= command.name);
}

/// The conversation that the prompt starts with is told: a new one, the one that
/// was asked for by its id, or the last one by its id where there is one.
pub proof fn start_is_told(id: Seq<char>, latest: Option<Seq<char>>)
    ensures
        session_status(ResumeView::New, latest) == "new conversation"@,
        session_status(ResumeView::ResumeId(id), latest) == "resumed "@ + id,
        session_status(ResumeView::ContinueLatest, Some(id)) == "continued "@ + id,
        session_status(ResumeView::ContinueLatest, None)
            == "new conversation (no previous session found)"@,
{
}

// ---------------------------------------------------------------------------
// The command line
// ---------------------------------------------------------------------------
proof fn lemma_arguments_go_on(
    args: Seq<Seq<char>>,
    more: Seq<Seq<char>>,
    at: int,
    target: ResumeView,
    words: Seq<Seq<char>>,
)
    requires
        0 <= at <= args.len(),
        arguments_from(args, at, target, words) is Some,
    ensures
        ({
            let found = arguments_from(args, at, target, words)->0;
            arguments_from(args + more, at, target, words) == arguments_from(
                args + more,
                args.len() as int,
                found.0,
                found.1,
            )
        }),
    decreases args.len() - at,
{
    if at < args.len() {
        assert((args + more)[at] == args[at]);
        if args[at] == "--continue"@ {
            lemma_arguments_go_on(args, more, at + 1, ResumeView::ContinueLatest, words);
        } else if args[at] == "--resume"@ {
            assert((args + more)[at + 1] == args[at + 1]);
            lemma_arguments_go_on(
                args,
                more,
                at + 2,
                ResumeView::ResumeId(args[at + 1]),
                words,
            );
        } else {
            lemma_arguments_go_on(args, more, at + 1, target, words.push(args[at]));
        }
    }
}

/// One argument more, behind arguments that were read: `--continue` starts with
/// the last conversation, `--resume` with the id behind it starts with that one,
/// and is an error without one; whatever came last counts. Every other argument
/// is a word of the prompt, behind the words before it. Without arguments a new
/// conversation starts, without a prompt.
pub proof fn one_argument_more(args: Seq<Seq<char>>, word: Seq<char>)
    requires
        arguments_from(args, 0, ResumeView::New, Seq::empty()) is Some,
    ensures
        ({
            let read = |list: Seq<Seq<char>>|
                arguments_from(list, 0, ResumeView::New, Seq::empty());
            let (target, words) = read(args)->0;
            &&& read(args.push("--continue"@)) == Some((ResumeView::ContinueLatest, words))
            &&& read(args.push("--resume"@).push(word)) == Some(
                (ResumeView::ResumeId(word), words),
            )
            &&& read(args.push("--resume"@)) is None
            &&& word != "--continue"@ && word != "--resume"@ ==> read(args.push(word)) == Some(
                (target, words.push(word)),
            )
            &&& read(Seq::empty()) == Some((ResumeView::New, Seq::<Seq<char>>::empty()))
        }),
{
    reveal_strlit("--continue");
    reveal_strlit("--resume");
    assert("--continue"@.len() == 10 && "--resume"@.len() == 8);
    let none = Seq::<Seq<char>>::empty();
    let n = args.len() as int;
    let (target, words) = arguments_from(args, 0, ResumeView::New, none)->0;
    reveal_with_fuel(arguments_from, 3);
    let a = seq!["--continue"@];
    lemma_arguments_go_on(args, a, 0, ResumeView::New, none);
    assert(args + a =~= args.push("--continue"@));
    let b = seq!["--resume"@, word];
    lemma_arguments_go_on(args, b, 0, ResumeView::New, none);
    assert(args + b =~= args.push("--resume"@).push(word));
    assert((args + b)[n] == "--resume"@ && (args + b)[n + 1] == word);
    let c = seq!["--resume"@];
    lemma_arguments_go_on(args, c, 0, ResumeView::New, none);
    assert(args + c =~= args.push("--resume"@));
    let d = seq![word];
    lemma_arguments_go_on(args, d, 0, ResumeView::New, none);
    assert(args + d =~= args.push(word));
}

/// A prompt on the command line that does not begin with a slash is put to the
/// model, without the white space around it, and names no skill.
pub proof fn prompt_is_put_to_the_model(prompt: Seq<char>)
    requires
        prompt.len() == 0 || prompt[0] != '/',
        trim(prompt).len() == 0 || trim(prompt)[0] != '/',
    ensures
        one_shot_action(prompt) == Ok::<OneShotAction<Seq<char>>, OneShotError<Seq<char>>>(
            OneShotAction::Ask { prompt: trim(prompt), skill: None },
        ),
{
    reveal_strlit("/server");
    reveal_strlit("/plan");
    reveal_strlit("/output-style");
    reveal_strlit("/skills");
    reveal_strlit("/web");
    reveal_strlit("/fetch");
    lemma_no_command(prompt, "/server"@);
    lemma_no_command(prompt, "/output-style"@);
    lemma_no_command(prompt, "/web"@);
    lemma_no_command(prompt, "/fetch"@);
}

proof fn lemma_no_command(line: Seq<char>, command: Seq<char>)
    requires
        command.len() > 0,
        command[0] == '/',
        line.len() == 0 || line[0] != '/',
    ensures
        argument_of(line, command) is None,
{
    argument_stands_behind_the_command(line, command);
    if calls(line, command) && line != command {
        assert(line.take(command.len() as int)[0] == line[0]);
    }
}

/// The commands that a prompt on the command line may be: each is what its line
/// calls for, with its argument; of the server only a start makes sense.
pub proof fn one_shot_commands_are_dispatched(prompt: Seq<char>)
    ensures
        ({
            let action = one_shot_action(prompt);
            let behind = |count: int| trim(prompt.skip(count));
            &&& prompt == "/plan"@ ==> (action matches Ok(OneShotAction::ShowPlan))
            &&& prompt == "/skills"@ ==> (action matches Ok(OneShotAction::ListSkills))
            &&& calls(prompt, "/output-style"@) && behind(13).len() == 0 ==> (action matches Ok(
                OneShotAction::ListStyles,
            ))
            &&& calls(prompt, "/output-style"@) && behind(13).len() > 0 ==> (action matches Ok(
                OneShotAction::CheckStyle(name),
            ) && name == behind(13))
            &&& calls(prompt, "/web"@) ==> (action matches Ok(OneShotAction::WebSearch(query))
                && query == behind(4))
            &&& calls(prompt, "/fetch"@) ==> (action matches Ok(OneShotAction::WebFetch(url))
                && url == behind(6))
            &&& calls(prompt, "/server"@) ==> (match server_command(behind(7)) {
                Some(ServerCommandView::Start(host, port)) => action matches Ok(
                    OneShotAction::RunServer { host: place, port: number },
                ) && place == host && number == port as u16,
                Some(_) => action matches Err(OneShotError::ServerCommand),
                None => action matches Err(OneShotError::InvalidAddress(address)) && address
                    == trim(behind(7)),
            })
        }),
{
    reveal_strlit("/output-style");
    reveal_strlit("/web");
    reveal_strlit("/fetch");
    reveal_strlit("/server");
    reveal_strlit("/plan");
    reveal_strlit("/skills");
    let table = builtin_table();
    assert(table[7].name == "/fetch"@ && table[12].name == "/output-style"@ && table[13].name
        == "/plan"@ && table[17].name == "/server"@ && table[18].name == "/skills"@
        && table[20].name == "/web"@);
    assert forall|k: int| 0 <= k < 21 && calls(prompt, #[trigger] table[k].name) implies (forall|
        j: int,
    |
        0 <= j < 21 && j != k ==> argument_of(prompt, (#[trigger] table[j]).name) is None)
        && argument_of(prompt, table[k].name) == Some(
        trim(prompt.skip(table[k].name.len() as int)),
    ) && prompt.len() > 1 && prompt[0] == '/' by {
        lemma_only_command(prompt, k);
    }
    lemma_margins(prompt, "/plan"@);
    lemma_margins(prompt, "/skills"@);
    assert(calls(prompt, table[13].name) ==> argument_of(prompt, table[12].name) is None
        && argument_of(prompt, table[17].name) is None && argument_of(prompt, table[7].name) is None
        && argument_of(prompt, table[20].name) is None);
    assert(calls(prompt, table[18].name) ==> argument_of(prompt, table[12].name) is None
        && argument_of(prompt, table[17].name) is None && argument_of(prompt, table[7].name) is None
        && argument_of(prompt, table[20].name) is None);
    assert("/plan"@.len() == 5 && "/skills"@.len() == 7);
}

/// A line that calls for another command is not this one, trimmed or not.
proof fn lemma_margins(line: Seq<char>, command: Seq<char>)
    requires
        command == "/plan"@ || command == "/skills"@,
    ensures
        line == command ==> trim(line) == command,
        trim(line) == command && line.len() > 0 && line[0] == '/' ==> calls(line, command),
{
    reveal_strlit("/plan");
    reveal_strlit("/skills");
    let none = Seq::<char>::empty();
    if line == command {
        trim_takes_off_white_space(none, command, none);
        assert(none + command + none =~= command);
    }
    if trim(line) == command && line.len() > 0 && line[0] == '/' {
        let (lead, trail) = trimmed_text_stands_inside(line);
        if lead.len() > 0 {
            assert(is_white(lead[0]));
            assert(line[0] == lead[0]);
        }
        assert(line =~= command + trail);
        if trail.len() == 0 {
            assert(line =~= command);
        } else {
            assert(is_white(trail[0]));
            assert(line.take(command.len() as int) =~= command);
            assert(line[command.len() as int] == trail[0]);
        }
    }
}

// ---------------------------------------------------------------------------
// Arguments of commands
// ---------------------------------------------------------------------------
/// Nothing behind the server command starts it at its usual place; `status` and
/// `stop` are what they say, in any case; an address starts it there, and
/// everything else is refused.
pub proof fn server_arguments_are_read(args: Seq<char>)
    ensures
        ({
            let arg = trim(args);
            let command = server_command(args);
            &&& is_blank(args) ==> command == Some(ServerCommandView::Start("127.0.0.1"@, 3000))
            &&& ascii_lower_text(arg) == "status"@ ==> command == Some(ServerCommandView::Status)
            &&& ascii_lower_text(arg) == "stop"@ ==> command == Some(ServerCommandView::Stop)
            &&& !is_blank(args) && ascii_lower_text(arg) != "status"@ && ascii_lower_text(arg)
                != "stop"@ ==> match address_of(arg) {
                Some(address) => command == Some(
                    ServerCommandView::Start(ip_text(address.v6, address.parts), address.port),
                ),
                None => command is None,
            }
        }),
{
    reveal_strlit("status");
    reveal_strlit("stop");
    assert(ascii_lower_text("status"@) =~= "status"@);
    assert(ascii_lower_text("stop"@) =~= "stop"@);
    assert("status"@.len() == 6 && "stop"@.len() == 4);
}

/// A server is started where it was told to and where none runs, stopped where
/// one runs, and its place is told where it runs.
pub proof fn server_is_started_and_stopped(address: Seq<char>, host: Seq<char>, port: nat)
    ensures
        server_action(None, ServerCommandView::Start(host, port)) == ServerActionView::Start(
            host,
            port,
        ),
        server_action(Some(address), ServerCommandView::Stop) is Stop,
        server_action(Some(address), ServerCommandView::Status) is Say,
        server_action(Some(address), ServerCommandView::Start(host, port)) is Say,
        server_action(None, ServerCommandView::Stop) is Say,
        server_action(None, ServerCommandView::Status) is Say,
        server_action(None, ServerCommandView::Stop) == server_action(
            None,
            ServerCommandView::Status,
        ),
        ({
            let said = server_action(Some(address), ServerCommandView::Status)->Say_0;
            said.len() >= address.len() && said.skip(said.len() - address.len()) == address
        }),
        ({
            let said = server_action(Some(address), ServerCommandView::Start(host, port))->Say_0;
            said.len() >= address.len() && said.skip(said.len() - address.len()) == address
        }),
{
    let one = server_action(Some(address), ServerCommandView::Status)->Say_0;
    let other = server_action(Some(address), ServerCommandView::Start(host, port))->Say_0;
    assert(one.skip(one.len() - address.len()) =~= address);
    assert(other.skip(other.len() - address.len()) =~= address);
}

/// `on` and `enter` turn plan mode on, `off` and `exit` off, `clear` clears the
/// list, nothing shows it, each in any case, and nothing else does anything.
pub proof fn plan_arguments_are_read(args: Seq<char>)
    ensures
        ({
            let arg = ascii_lower_text(trim(args));
            let action = plan_action(args);
            &&& action == PlanAction::Show <==> is_blank(args)
            &&& action == PlanAction::Enter <==> arg == "on"@ || arg == "enter"@
            &&& action == PlanAction::Exit <==> arg == "off"@ || arg == "exit"@
            &&& action == PlanAction::Clear <==> arg == "clear"@
        }),
{
    reveal_strlit("on");
    reveal_strlit("enter");
    reveal_strlit("off");
    reveal_strlit("exit");
    reveal_strlit("clear");
    assert("on"@.len() == 2 && "enter"@[0] == 'e' && "off"@.len() == 3 && "exit"@.len() == 4
        && "clear"@[0] == 'c' && "clear"@.len() == 5 && "enter"@.len() == 5);
}

/// The model is asked to review the changes themselves, up to the characters
/// that are shown of very long ones, and is not asked where there are none.
pub proof fn changes_are_reviewed(diff: Seq<char>)
    ensures
        review_prompt(diff) is None <==> is_blank(diff),
        !is_blank(diff) && diff.len() <= 12_000 ==> review_prompt(diff)->0.len() >= diff.len()
            && review_prompt(diff)->0.skip(review_prompt(diff)->0.len() - diff.len()) == diff,
        !is_blank(diff) && diff.len() > 12_000 ==> ({
            let asked = review_prompt(diff)->0;
            asked.len() >= 12_003 && asked.skip(asked.len() - 12_003).take(12_000) == diff.take(
                12_000,
            )
        }),
{
    reveal_strlit("...");
    if !is_blank(diff) {
        let asked = review_prompt(diff)->0;
        assert(diff.len() > 0) by {
            if diff.len() == 0 {
                assert(trim(diff).len() == 0);
            }
        }
        if diff.len() <= 12_000 {
            assert(asked.skip(asked.len() - diff.len()) =~= diff);
        } else {
            assert(asked.skip(asked.len() - 12_003).take(12_000) =~= diff.take(12_000));
        }
    }
}

/// The system prompt holds what is known from memory and then what is known of
/// the skills, each whole, where they say something, and there is none where
/// neither does.
pub proof fn system_prompt_holds_what_is_known(
    memory: Option<Seq<char>>,
    skills: Option<Seq<char>>,
)
    ensures
        ({
            let prompt = base_prompt(memory, skills);
            let remembers = memory is Some && !is_blank(memory->0);
            let knows = skills is Some && !is_blank(skills->0);
            &&& prompt is Some <==> remembers || knows
            &&& remembers && !knows ==> prompt->0 == memory->0
            &&& knows && !remembers ==> prompt->0 == skills->0
            &&& remembers && knows ==> prompt->0.take(memory->0.len() as int) == memory->0
                && prompt->0.skip(prompt->0.len() - skills->0.len()) == skills->0
                && prompt->0.len() == memory->0.len() + 2 + skills->0.len()
        }),
{
    reveal_strlit("\n\n");
    if memory is Some && skills is Some {
        let prompt = memory->0 + "\n\n"@ + skills->0;
        assert(prompt.take(memory->0.len() as int) =~= memory->0);
        assert(prompt.skip(prompt.len() - skills->0.len()) =~= skills->0);
    }
}

} // verus!
