//! The commands that the prompt offers behind a slash: those that are built
//! in, and the skills that the user may call.
use vstd::prelude::*;

use crate::order::{
    goes_before, is_stable_order, places, sorted_places, stable_order, stable_order_exists, text_lt,
    text_order_is_total, text_order_is_transitive,
};
use crate::text::{
    after_prefix, ascii_lower_text, blank, is_blank, joined, same_ignoring_ascii_case, same_text,
    texts, trim, trimmed,
};
use crate::types::opt_text;

verus! {

// ---------------------------------------------------------------------------
// Commands
// ---------------------------------------------------------------------------
/// Where a command comes from.
#[derive(Debug, Clone, Copy, PartialEq, Eq, Structural)]
pub enum ReplCommandSource {
    Builtin,
    Skill,
}

/// A command with what is shown of it.
#[derive(Debug, PartialEq, Eq)]
pub struct ReplCommandSpec {
    pub name: String,
    pub usage: String,
    pub summary: String,
    pub takes_args: bool,
    pub source: ReplCommandSource,
}

/// What a command is.
pub struct CommandView {
    pub name: Seq<char>,
    pub usage: Seq<char>,
    pub summary: Seq<char>,
    pub takes_args: bool,
    pub source: ReplCommandSource,
}

impl ReplCommandSpec {
    /// What the command is.
    pub open spec fn view(&self) -> CommandView {
        CommandView {
            name: self.name@,
            usage: self.usage@,
            summary: self.summary@,
            takes_args: self.takes_args,
            source: self.source,
        }
    }
}

impl Clone for ReplCommandSpec {
    fn clone(&self) -> (copy: ReplCommandSpec)
        ensures
            copy@ == self@,
    {
        ReplCommandSpec {
            name: self.name.clone(),
            usage: self.usage.clone(),
            summary: self.summary.clone(),
            takes_args: self.takes_args,
            source: self.source,
        }
    }
}

/// What each command of a list is.
pub open spec fn command_views(commands: Seq<ReplCommandSpec>) -> Seq<CommandView> {
    Seq::new(commands.len(), |i: int| commands[i]@)
}

/// The names of the commands of a list.
pub open spec fn command_names(commands: Seq<CommandView>) -> Seq<Seq<char>> {
    Seq::new(commands.len(), |i: int| commands[i].name)
}

/// A skill that the user may call.
#[derive(Debug)]
pub struct Skill {
    pub name: String,
    pub description: String,
    pub argument_hint: Option<String>,
}

/// What a skill is.
pub struct SkillView {
    pub name: Seq<char>,
    pub description: Seq<char>,
    pub argument_hint: Option<Seq<char>>,
}

impl Skill {
    /// What the skill is.
    pub open spec fn view(&self) -> SkillView {
        SkillView {
            name: self.name@,
            description: self.description@,
            argument_hint: opt_text(self.argument_hint),
        }
    }
}

/// What each skill of a list is.
pub open spec fn skill_views(skills: Seq<Skill>) -> Seq<SkillView> {
    Seq::new(skills.len(), |i: int| skills[i]@)
}

// ---------------------------------------------------------------------------
// The commands that are built in
// ---------------------------------------------------------------------------
/// A command that is built in.
pub open spec fn builtin(
    name: Seq<char>,
    usage: Seq<char>,
    summary: Seq<char>,
    takes_args: bool,
) -> CommandView {
    CommandView { name, usage, summary, takes_args, source: ReplCommandSource::Builtin }
}

/// The commands that are built in, by name.
pub open spec fn builtin_table() -> Seq<CommandView> {
    seq![
        builtin("/clear"@, "/clear"@, "Clear conversation history"@, false),
        builtin("/commit"@, "/commit [title]"@, "Generate and run git commit"@, true),
        builtin("/compact"@, "/compact"@, "Compact long context manually"@, false),
        builtin("/config"@, "/config"@, "Open config menu"@, false),
        builtin("/count"@, "/count"@, "Show message count"@, false),
        builtin("/diff"@, "/diff"@, "Show current git diff"@, false),
        builtin("/exit"@, "/exit"@, "Exit the program"@, false),
        builtin("/fetch"@, "/fetch <url>"@, "Fetch a public web page"@, true),
        builtin("/help"@, "/help"@, "Show available commands"@, false),
        builtin("/history"@, "/history"@, "View conversation history"@, false),
        builtin("/memory"@, "/memory"@, "List saved memories"@, false),
        builtin("/model"@, "/model"@, "Select active model"@, false),
        builtin("/output-style"@, "/output-style [name]"@, "List or switch output styles"@, true),
        builtin("/plan"@, "/plan [on|off|clear]"@, "Show or toggle plan mode"@, true),
        builtin("/quit"@, "/quit"@, "Exit the program"@, false),
        builtin("/resume"@, "/resume"@, "Resume previous session"@, false),
        builtin("/review"@, "/review"@, "Review current git diff"@, false),
        builtin(
            "/server"@,
            "/server [status|stop|host:port]"@,
            "Start, stop, or inspect the local server"@,
            true,
        ),
        builtin("/skills"@, "/skills"@, "List available user skills"@, false),
        builtin("/version"@, "/version"@, "Show current version"@, false),
        builtin("/web"@, "/web <query>"@, "Search the web directly"@, true),
    ]
}

fn add_builtin(
    commands: &mut Vec<ReplCommandSpec>,
    name: &str,
    usage: &str,
    summary: &str,
    takes_args: bool,
)
    ensures
        command_views(final(commands)@) == command_views(old(commands)@).push(
            builtin(name@, usage@, summary@, takes_args),
        ),
{
    commands.push(
        ReplCommandSpec {
            name: name.to_owned(),
            usage: usage.to_owned(),
            summary: summary.to_owned(),
            takes_args,
            source: ReplCommandSource::Builtin,
        },
    );
    assert(command_views(commands@) =~= command_views(old(commands)@).push(
        builtin(name@, usage@, summary@, takes_args),
    ));
}

/// The commands that are built in, by name.
pub fn builtin_commands() -> (commands: Vec<ReplCommandSpec>)
    ensures
        command_views(commands@) == builtin_table(),
{
    let mut commands: Vec<ReplCommandSpec> = Vec::new();
    assert(command_views(commands@) =~= Seq::<CommandView>::empty());
    let list: &mut Vec<ReplCommandSpec> = &mut commands;
    add_builtin(list, "/clear", "/clear", "Clear conversation history", false);
    add_builtin(list, "/commit", "/commit [title]", "Generate and run git commit", true);
    add_builtin(list, "/compact", "/compact", "Compact long context manually", false);
    add_builtin(list, "/config", "/config", "Open config menu", false);
    add_builtin(list, "/count", "/count", "Show message count", false);
    add_builtin(list, "/diff", "/diff", "Show current git diff", false);
    add_builtin(list, "/exit", "/exit", "Exit the program", false);
    add_builtin(list, "/fetch", "/fetch <url>", "Fetch a public web page", true);
    add_builtin(list, "/help", "/help", "Show available commands", false);
    add_builtin(list, "/history", "/history", "View conversation history", false);
    add_builtin(list, "/memory", "/memory", "List saved memories", false);
    add_builtin(list, "/model", "/model", "Select active model", false);
    add_builtin(
        list,
        "/output-style",
        "/output-style [name]",
        "List or switch output styles",
        true,
    );
    add_builtin(list, "/plan", "/plan [on|off|clear]", "Show or toggle plan mode", true);
    add_builtin(list, "/quit", "/quit", "Exit the program", false);
    add_builtin(list, "/resume", "/resume", "Resume previous session", false);
    add_builtin(list, "/review", "/review", "Review current git diff", false);
    add_builtin(
        list,
        "/server",
        "/server [status|stop|host:port]",
        "Start, stop, or inspect the local server",
        true,
    );
    add_builtin(list, "/skills", "/skills", "List available user skills", false);
    add_builtin(list, "/version", "/version", "Show current version", false);
    add_builtin(list, "/web", "/web <query>", "Search the web directly", true);
    assert(command_views(list@) =~= builtin_table());
    commands
}

// ---------------------------------------------------------------------------
// Skills
// ---------------------------------------------------------------------------
/// The command of a skill. It takes arguments where the skill has a hint for
/// them that is not blank.
pub open spec fn skill_command(skill: SkillView) -> CommandView {
    let name = "/"@ + skill.name;
    let hinted = skill.argument_hint is Some && !is_blank(skill.argument_hint->0);
    CommandView {
        name,
        usage: if hinted {
            name + " "@ + trim(skill.argument_hint->0)
        } else {
            name
        },
        summary: skill.description,
        takes_args: hinted,
        source: ReplCommandSource::Skill,
    }
}

/// Whether a command has this name, the case of ASCII letters aside.
pub open spec fn is_taken(commands: Seq<CommandView>, name: Seq<char>) -> bool {
    exists|i: int|
        0 <= i < commands.len() && ascii_lower_text(#[trigger] commands[i].name)
            == ascii_lower_text(name)
}

/// The commands, followed by those of the skills whose names are not taken
/// when their turn comes.
pub open spec fn with_skills(commands: Seq<CommandView>, skills: Seq<SkillView>) -> Seq<CommandView>
    decreases skills.len(),
{
    if skills.len() == 0 {
        commands
    } else {
        let before = with_skills(commands, skills.drop_last());
        let added = skill_command(skills.last());
        if is_taken(before, added.name) {
            before
        } else {
            before.push(added)
        }
    }
}

/// The names of the skills of a list.
pub open spec fn skill_names(skills: Seq<SkillView>) -> Seq<Seq<char>> {
    Seq::new(skills.len(), |i: int| skills[i].name)
}

/// `count` equal ranks.
pub open spec fn same_ranks(count: nat) -> Seq<u8> {
    Seq::new(count, |i: int| 0u8)
}

/// The skills by name, those of one name in the order in which they came.
pub open spec fn skills_by_name(skills: Seq<SkillView>) -> Seq<SkillView> {
    let order = sorted_places(same_ranks(skills.len()), skill_names(skills));
    Seq::new(skills.len(), |i: int| skills[order[i]])
}

/// The commands that the prompt offers, with the given skills.
pub open spec fn slash_commands(skills: Option<Seq<SkillView>>) -> Seq<CommandView> {
    match skills {
        Some(skills) => with_skills(builtin_table(), skills_by_name(skills)),
        None => builtin_table(),
    }
}

/// The command of a skill.
pub fn skill_to_command(skill: &Skill) -> (command: ReplCommandSpec)
    ensures
        command@ == skill_command(skill@),
{
    let name: String = joined("/", skill.name.as_str());
    let hint: Option<&str> = match &skill.argument_hint {
        Some(hint) => {
            if blank(hint.as_str()) {
                None
            } else {
                Some(trimmed(hint.as_str()))
            }
        },
        None => None,
    };
    let usage: String = match hint {
        Some(hint) => {
            let mut usage: String = name.clone();
            usage.append(" ");
            usage.append(hint);
            usage
        },
        None => name.clone(),
    };
    ReplCommandSpec {
        name,
        usage,
        summary: skill.description.clone(),
        takes_args: hint.is_some(),
        source: ReplCommandSource::Skill,
    }
}

fn name_taken(commands: &Vec<ReplCommandSpec>, name: &str) -> (taken: bool)
    ensures
        taken == is_taken(command_views(commands@), name@),
{
    let mut i: usize = 0;
    while i < commands.len()
        invariant
            i <= commands.len(),
            forall|k: int|
                0 <= k < i ==> ascii_lower_text((#[trigger] command_views(commands@)[k]).name)
                    != ascii_lower_text(name@),
        decreases commands.len() - i,
    {
        assert(command_views(commands@)[i as int].name == commands@[i as int].name@);
        if same_ignoring_ascii_case(commands[i].name.as_str(), name) {
            return true;
        }
        i += 1;
    }
    false
}

/// The commands that the prompt offers, with the skills that the user may
/// call, where there are any.
pub fn build_slash_commands(skills: Option<&Vec<Skill>>) -> (commands: Vec<ReplCommandSpec>)
    ensures
        command_views(commands@) == slash_commands(
            match skills {
                Some(skills) => Some(skill_views(skills@)),
                None => None,
            },
        ),
        skills matches Some(skills) ==> is_stable_order(
            same_ranks(skills@.len()),
            skill_names(skill_views(skills@)),
            sorted_places(same_ranks(skills@.len()), skill_names(skill_views(skills@))),
        ),
{
    let mut commands: Vec<ReplCommandSpec> = builtin_commands();
    if let Some(skills) = skills {
        let mut ranks: Vec<u8> = Vec::new();
        let mut names: Vec<String> = Vec::new();
        while names.len() < skills.len()
            invariant
                names.len() <= skills.len(),
                ranks.len() == names.len(),
                forall|k: int| 0 <= k < ranks.len() ==> ranks@[k] == 0,
                forall|k: int| 0 <= k < names.len() ==> #[trigger] names@[k]@ == skills@[k].name@,
            decreases skills.len() - names.len(),
        {
            names.push(skills[names.len()].name.clone());
            ranks.push(0);
        }
        let ghost views = skill_views(skills@);
        let ghost sorted = skills_by_name(views);
        assert(ranks@ =~= same_ranks(views.len()));
        assert(texts(names@) =~= skill_names(views));
        let order: Vec<usize> = stable_order(&ranks, &names);
        let mut i: usize = 0;
        assert(sorted.take(0) =~= Seq::<SkillView>::empty());
        while i < order.len()
            invariant
                i <= order.len(),
                views == skill_views(skills@),
                sorted == skills_by_name(views),
                order.len() == skills.len(),
                places(order@) == sorted_places(same_ranks(views.len()), skill_names(views)),
                is_stable_order(same_ranks(views.len()), skill_names(views), places(order@)),
                command_views(commands@) == with_skills(
                    builtin_table(),
                    sorted.take(i as int),
                ),
            decreases order.len() - i,
        {
            assert(places(order@)[i as int] == order@[i as int]);
            let command: ReplCommandSpec = skill_to_command(&skills[order[i]]);
            let ghost before = commands@;
            let ghost added = command@;
            if !name_taken(&commands, command.name.as_str()) {
                commands.push(command);
                assert(command_views(commands@) =~= command_views(before).push(added));
            }
            i += 1;
            proof {
                assert(sorted.take(i as int).drop_last() =~= sorted.take(i - 1));
                assert(sorted.take(i as int).last() == views[order@[i - 1] as int]);
            }
        }
        assert(sorted.take(i as int) =~= sorted);
    }
    commands
}

// ---------------------------------------------------------------------------
// Matching
// ---------------------------------------------------------------------------
/// The commands whose names begin with `prefix`.
pub open spec fn with_prefix(commands: Seq<CommandView>, prefix: Seq<char>) -> Seq<CommandView>
    decreases commands.len(),
{
    if commands.len() == 0 {
        Seq::empty()
    } else {
        let before = with_prefix(commands.drop_last(), prefix);
        if prefix.is_prefix_of(commands.last().name) {
            before.push(commands.last())
        } else {
            before
        }
    }
}

/// The rank of a command among those that match: the one that is meant
/// exactly comes first, then those that are built in, then skills.
pub open spec fn match_rank(command: CommandView, prefix: Seq<char>) -> u8 {
    (if command.name == prefix {
        0u8
    } else {
        2
    } + weight_of(command.source)) as u8
}

/// The weight of a source: what is built in comes before skills.
pub open spec fn weight_of(source: ReplCommandSource) -> u8 {
    match source {
        ReplCommandSource::Builtin => 0,
        ReplCommandSource::Skill => 1,
    }
}

/// The ranks of commands that match.
pub open spec fn match_ranks(commands: Seq<CommandView>, prefix: Seq<char>) -> Seq<u8> {
    Seq::new(commands.len(), |i: int| match_rank(commands[i], prefix))
}

/// The commands that match, by rank and then by name.
pub open spec fn matches_of(commands: Seq<CommandView>, prefix: Seq<char>) -> Seq<CommandView> {
    let found = with_prefix(commands, prefix);
    let order = sorted_places(match_ranks(found, prefix), command_names(found));
    Seq::new(found.len(), |i: int| found[order[i]])
}

/// The weight of a source.
pub fn source_weight(source: ReplCommandSource) -> (weight: u8)
    ensures
        weight == weight_of(source),
{
    match source {
        ReplCommandSource::Builtin => 0,
        ReplCommandSource::Skill => 1,
    }
}

/// The commands whose names begin with `prefix`: the one that is meant exactly
/// first, then those that are built in, then skills, each by name.
pub fn matching_commands(commands: &Vec<ReplCommandSpec>, prefix: &str) -> (matching: Vec<
    ReplCommandSpec,
>)
    ensures
        command_views(matching@) == matches_of(command_views(commands@), prefix@),
        ({
            let found = with_prefix(command_views(commands@), prefix@);
            let ranks = match_ranks(found, prefix@);
            let names = command_names(found);
            is_stable_order(ranks, names, sorted_places(ranks, names))
        }),
{
    let mut found: Vec<ReplCommandSpec> = Vec::new();
    let mut ranks: Vec<u8> = Vec::new();
    let mut names: Vec<String> = Vec::new();
    let mut i: usize = 0;
    let ghost all = command_views(commands@);
    assert(command_views(found@) =~= with_prefix(all.take(0), prefix@));
    while i < commands.len()
        invariant
            i <= commands.len(),
            all == command_views(commands@),
            command_views(found@) == with_prefix(all.take(i as int), prefix@),
            ranks.len() == found.len(),
            names.len() == found.len(),
            forall|k: int|
                0 <= k < ranks.len() ==> #[trigger] ranks@[k] == match_rank(found@[k]@, prefix@),
            forall|k: int| 0 <= k < names.len() ==> #[trigger] names@[k]@ == found@[k].name@,
        decreases commands.len() - i,
    {
        let ghost before = found@;
        let command: &ReplCommandSpec = &commands[i];
        if after_prefix(command.name.as_str(), prefix).is_some() {
            let exact: u8 = if same_text(command.name.as_str(), prefix) {
                0
            } else {
                2
            };
            ranks.push(exact + source_weight(command.source));
            names.push(command.name.clone());
            found.push(command.clone());
            assert(command_views(found@) =~= command_views(before).push(command@));
        }
        i += 1;
        proof {
            assert(all.take(i as int).drop_last() =~= all.take(i - 1));
            assert(all.take(i as int).last() == commands@[i - 1]@);
        }
    }
    assert(all.take(i as int) =~= all);
    let ghost views = command_views(found@);
    assert(ranks@ =~= match_ranks(views, prefix@));
    assert(texts(names@) =~= command_names(views));
    let order: Vec<usize> = stable_order(&ranks, &names);
    let mut matching: Vec<ReplCommandSpec> = Vec::new();
    let mut k: usize = 0;
    while k < order.len()
        invariant
            k <= order.len(),
            order.len() == found.len(),
            is_stable_order(ranks@, texts(names@), places(order@)),
            names.len() == found.len(),
            matching.len() == k,
            forall|x: int|
                0 <= x < k ==> (#[trigger] matching@[x]).view() == found@[order@[x] as int].view(),
        decreases order.len() - k,
    {
        assert(places(order@)[k as int] == order@[k as int]);
        matching.push(found[order[k]].clone());
        k += 1;
    }
    assert(command_views(matching@) =~= matches_of(all, prefix@)) by {
        assert forall|x: int| 0 <= x < matching.len() implies command_views(matching@)[x]
            == matches_of(all, prefix@)[x] by {
            assert(places(order@)[x] == order@[x]);
        }
    }
    matching
}

// ---------------------------------------------------------------------------
// Laws
// ---------------------------------------------------------------------------
/// Whether no two commands have the same name, the case of ASCII letters
/// aside.
pub open spec fn names_differ(commands: Seq<CommandView>) -> bool {
    forall|i: int, j: int|
        0 <= i < j < commands.len() ==> ascii_lower_text(#[trigger] commands[i].name)
            != ascii_lower_text(#[trigger] commands[j].name)
}

/// Skills are added behind the commands that are there, which all stay, and
/// under names that are free.
pub proof fn skills_join_behind(commands: Seq<CommandView>, skills: Seq<SkillView>)
    ensures
        with_skills(commands, skills).len() >= commands.len(),
        with_skills(commands, skills).take(commands.len() as int) == commands,
        names_differ(commands) ==> names_differ(with_skills(commands, skills)),
        forall|i: int|
            commands.len() <= i < with_skills(commands, skills).len() ==> (
            #[trigger] with_skills(commands, skills)[i]).source == ReplCommandSource::Skill,
    decreases skills.len(),
{
    if skills.len() > 0 {
        skills_join_behind(commands, skills.drop_last());
        let before = with_skills(commands, skills.drop_last());
        let all = with_skills(commands, skills);
        assert(all.take(commands.len() as int) =~= before.take(commands.len() as int));
    } else {
        assert(commands.take(commands.len() as int) =~= commands);
    }
}

/// Every skill can be found: some command has its name, the case of ASCII
/// letters aside.
pub proof fn every_skill_is_covered(
    commands: Seq<CommandView>,
    skills: Seq<SkillView>,
    place: int,
)
    requires
        0 <= place < skills.len(),
    ensures
        is_taken(with_skills(commands, skills), skill_command(skills[place]).name),
    decreases skills.len(),
{
    let before = with_skills(commands, skills.drop_last());
    let all = with_skills(commands, skills);
    let name = skill_command(skills[place]).name;
    if place < skills.len() - 1 {
        every_skill_is_covered(commands, skills.drop_last(), place);
        let i = choose|i: int|
            0 <= i < before.len() && ascii_lower_text(#[trigger] before[i].name)
                == ascii_lower_text(name);
        assert(all[i] == before[i]);
    } else if !is_taken(before, name) {
        assert(all[before.len() as int].name == name);
    }
}

proof fn lemma_lt_at(a: Seq<char>, b: Seq<char>, at: int)
    requires
        0 <= at < b.len(),
        at <= a.len(),
        at < a.len() ==> a[at] < b[at],
        forall|i: int| 0 <= i < at ==> a[i] == b[i],
    ensures
        text_lt(a, b),
    decreases at,
{
    if at > 0 {
        assert forall|i: int| 0 <= i < at - 1 implies a.skip(1)[i] == b.skip(1)[i] by {
            assert(a[i + 1] == b[i + 1]);
        }
        lemma_lt_at(a.skip(1), b.skip(1), at - 1);
    }
}

proof fn lemma_builtin_names_in_order(i: int)
    requires
        0 <= i < 20,
    ensures
        text_lt(builtin_table()[i].name, builtin_table()[i + 1].name),
{
    let a = builtin_table()[i].name;
    let b = builtin_table()[i + 1].name;
    reveal_strlit("/clear");
    reveal_strlit("/commit");
    reveal_strlit("/compact");
    reveal_strlit("/config");
    reveal_strlit("/count");
    reveal_strlit("/diff");
    reveal_strlit("/exit");
    reveal_strlit("/fetch");
    reveal_strlit("/help");
    reveal_strlit("/history");
    reveal_strlit("/memory");
    reveal_strlit("/model");
    reveal_strlit("/output-style");
    reveal_strlit("/plan");
    reveal_strlit("/quit");
    reveal_strlit("/resume");
    reveal_strlit("/review");
    reveal_strlit("/server");
    reveal_strlit("/skills");
    reveal_strlit("/version");
    reveal_strlit("/web");
    let at: int = if i == 1 {
        4
    } else if i == 2 || i == 3 {
        3
    } else if i == 15 {
        3
    } else if i == 0 || i == 8 || i == 10 || i == 17 {
        2
    } else {
        1
    };
    lemma_lt_at(a, b, at);
}

proof fn lemma_builtin_order(i: int, j: int)
    requires
        0 <= i < j < 21,
    ensures
        text_lt(builtin_table()[i].name, builtin_table()[j].name),
    decreases j - i,
{
    lemma_builtin_names_in_order(j - 1);
    if i < j - 1 {
        lemma_builtin_order(i, j - 1);
        text_order_is_transitive(
            builtin_table()[i].name,
            builtin_table()[j - 1].name,
            builtin_table()[j].name,
        );
    }
}

proof fn lemma_builtin_lower(i: int)
    requires
        0 <= i < 21,
    ensures
        ascii_lower_text(builtin_table()[i].name) == builtin_table()[i].name,
{
    reveal_strlit("/clear");
    reveal_strlit("/commit");
    reveal_strlit("/compact");
    reveal_strlit("/config");
    reveal_strlit("/count");
    reveal_strlit("/diff");
    reveal_strlit("/exit");
    reveal_strlit("/fetch");
    reveal_strlit("/help");
    reveal_strlit("/history");
    reveal_strlit("/memory");
    reveal_strlit("/model");
    reveal_strlit("/output-style");
    reveal_strlit("/plan");
    reveal_strlit("/quit");
    reveal_strlit("/resume");
    reveal_strlit("/review");
    reveal_strlit("/server");
    reveal_strlit("/skills");
    reveal_strlit("/version");
    reveal_strlit("/web");
    assert(ascii_lower_text(builtin_table()[i].name) =~= builtin_table()[i].name);
}

/// The names of commands that are built in begin with a slash, and have no white
/// space in them.
pub(crate) proof fn lemma_builtin_words(i: int)
    requires
        0 <= i < 21,
    ensures
        builtin_table()[i].name.len() > 1,
        builtin_table()[i].name[0] == '/',
        forall|k: int|
            0 <= k < builtin_table()[i].name.len() ==> !crate::text::is_white(
                #[trigger] builtin_table()[i].name[k],
            ),
{
    reveal_strlit("/clear");
    reveal_strlit("/commit");
    reveal_strlit("/compact");
    reveal_strlit("/config");
    reveal_strlit("/count");
    reveal_strlit("/diff");
    reveal_strlit("/exit");
    reveal_strlit("/fetch");
    reveal_strlit("/help");
    reveal_strlit("/history");
    reveal_strlit("/memory");
    reveal_strlit("/model");
    reveal_strlit("/output-style");
    reveal_strlit("/plan");
    reveal_strlit("/quit");
    reveal_strlit("/resume");
    reveal_strlit("/review");
    reveal_strlit("/server");
    reveal_strlit("/skills");
    reveal_strlit("/version");
    reveal_strlit("/web");
}

/// The prompt never offers two commands of the same name, the case of ASCII
/// letters aside; it offers all that are built in, and these come first: a
/// skill named like one of them is not offered.
pub proof fn offered_commands(skills: Option<Seq<SkillView>>)
    ensures
        names_differ(slash_commands(skills)),
        slash_commands(skills).len() >= builtin_table().len(),
        slash_commands(skills).take(builtin_table().len() as int) == builtin_table(),
{
    let table = builtin_table();
    assert forall|i: int, j: int| 0 <= i < j < table.len() implies ascii_lower_text(
        #[trigger] table[i].name,
    ) != ascii_lower_text(#[trigger] table[j].name) by {
        lemma_builtin_order(i, j);
        lemma_builtin_lower(i);
        lemma_builtin_lower(j);
        text_order_is_total(table[i].name, table[j].name);
    }
    match skills {
        Some(skills) => {
            skills_join_behind(table, skills_by_name(skills));
        },
        None => {
            assert(table.take(table.len() as int) =~= table);
        },
    }
}

/// Whether the names of skills do not descend.
spec fn in_order(skills: Seq<SkillView>) -> bool {
    forall|x: int, y: int|
        0 <= x < y < skills.len() ==> !text_lt(
            (#[trigger] skills[y]).name,
            (#[trigger] skills[x]).name,
        )
}

proof fn lemma_slash_keeps_order(a: Seq<char>, b: Seq<char>)
    ensures
        text_lt("/"@ + a, "/"@ + b) == text_lt(a, b),
{
    reveal_strlit("/");
    assert(("/"@ + a).skip(1) =~= a);
    assert(("/"@ + b).skip(1) =~= b);
}

proof fn lemma_added_ascend(commands: Seq<CommandView>, skills: Seq<SkillView>)
    requires
        in_order(skills),
    ensures
        ({
            let all = with_skills(commands, skills);
            &&& all.len() >= commands.len()
            &&& forall|i: int|
                commands.len() <= i < all.len() ==> exists|x: int|
                    0 <= x < skills.len() && (#[trigger] all[i]).name == "/"@ + (
                    #[trigger] skills[x]).name
            &&& forall|i: int, j: int|
                commands.len() <= i < j < all.len() ==> text_lt(
                    (#[trigger] all[i]).name,
                    (#[trigger] all[j]).name,
                )
        }),
    decreases skills.len(),
{
    if skills.len() > 0 {
        let earlier = skills.drop_last();
        let before = with_skills(commands, earlier);
        let all = with_skills(commands, skills);
        let last = skills.last().name;
        let name = "/"@ + last;
        assert(forall|x: int| 0 <= x < earlier.len() ==> earlier[x] == skills[x]);
        lemma_added_ascend(commands, earlier);
        assert forall|i: int| commands.len() <= i < all.len() implies exists|x: int|
            0 <= x < skills.len() && (#[trigger] all[i]).name == "/"@ + (
            #[trigger] skills[x]).name by {
            if i < before.len() {
                let x = choose|x: int|
                    0 <= x < earlier.len() && before[i].name == "/"@ + (
                    #[trigger] earlier[x]).name;
                assert(all[i].name == "/"@ + skills[x].name);
            } else {
                assert(all[i].name == "/"@ + skills[skills.len() - 1].name);
            }
        }
        if !is_taken(before, name) {
            assert forall|i: int| commands.len() <= i < before.len() implies text_lt(
                (#[trigger] before[i]).name,
                name,
            ) by {
                let x = choose|x: int|
                    0 <= x < earlier.len() && before[i].name == "/"@ + (
                    #[trigger] earlier[x]).name;
                assert(!text_lt(skills[skills.len() - 1].name, skills[x].name));
                lemma_slash_keeps_order(last, skills[x].name);
                text_order_is_total(before[i].name, name);
                assert(ascii_lower_text(before[i].name) != ascii_lower_text(name));
            }
        }
    }
}

/// The commands of skills that the prompt offers ascend by name.
pub proof fn added_commands_ascend(skills: Seq<SkillView>)
    ensures
        forall|i: int, j: int|
            builtin_table().len() <= i < j < slash_commands(Some(skills)).len() ==> text_lt(
                (#[trigger] slash_commands(Some(skills))[i]).name,
                (#[trigger] slash_commands(Some(skills))[j]).name,
            ),
{
    let ranks = same_ranks(skills.len());
    let names = skill_names(skills);
    let order = sorted_places(ranks, names);
    let sorted = skills_by_name(skills);
    stable_order_exists(ranks, names);
    assert forall|x: int, y: int| 0 <= x < y < sorted.len() implies !text_lt(
        (#[trigger] sorted[y]).name,
        (#[trigger] sorted[x]).name,
    ) by {
        assert(goes_before(ranks, names, order[x], order[y]));
        text_order_is_total(names[order[x]], names[order[y]]);
    }
    lemma_added_ascend(builtin_table(), sorted);
}

} // verus!
