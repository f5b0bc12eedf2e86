//! What is shown and offered to the user, whatever there is to show.
use vstd::prelude::*;

use crate::api::{settings_message, SettingsError};
use crate::cli::OneShotError;
use crate::commit::CommitAction;
use crate::json::JsonView;
use crate::keys::AppEvent;
use crate::layout::{shapes_fit, Extent, Shape};
use crate::number::{decimal, digit_of, numeral, numeral_reads_back};
use crate::prompt_input::{
    after_event, command_choice, description_room, event_of, fitted, frame_of, longest_command,
    pressed, selection_of, KeyReply, PromptSignal, SessionStep, SessionView, SuggestionBehavior,
};
use crate::repl::{command_output, startup_tips, tip_line};
use crate::repl_commands::session_preview;
use crate::repl_completion::{
    command_names, match_ranks, matches_of, skill_command, with_prefix, CommandView,
    ReplCommandSource, SkillView,
};
use crate::order::{is_stable_order, sorted_places, stable_order_exists, text_lt};
use crate::screen::{
    card_line, card_width, char_width, columns_of, cut_text_fits, cut_to, last_user_text,
    loaded_history, loaded_message, loaded_messages, on_grey, preview_of, text_width, wrapped,
};
use crate::server::endpoint;
use crate::terminal_style::{styled, Style};
use crate::text::{
    is_blank, is_white, repeated, trim, trim_end, without_leading, without_line_ends,
    without_trailing,
};
use crate::text_laws::{has_no_margin, trim_takes_off_white_space, words_end_at_white_space};
use crate::tools::{definition, ToolError};

verus! {

// ---------------------------------------------------------------------------
// Columns
// ---------------------------------------------------------------------------
/// The printable characters of ASCII and those of the alphabets behind it take a
/// column each, the characters of Chinese, Japanese and Korean, full-width forms
/// and pictures two, and control characters none.
pub proof fn characters_take_columns(ch: char)
    ensures
        ' ' <= ch <= '~' ==> char_width(ch) == 1,
        '\u{A0}' <= ch < '\u{1100}' ==> char_width(ch) == 1,
        '\u{1100}' <= ch <= '\u{115F}' ==> char_width(ch) == 2,
        '\u{2E80}' <= ch <= '\u{A4CF}' ==> char_width(ch) == 2,
        '\u{AC00}' <= ch <= '\u{D7A3}' ==> char_width(ch) == 2,
        '\u{F900}' <= ch <= '\u{FAFF}' ==> char_width(ch) == 2,
        '\u{FE30}' <= ch <= '\u{FE6F}' ==> char_width(ch) == 2,
        '\u{FF00}' <= ch <= '\u{FF60}' ==> char_width(ch) == 2,
        '\u{FFE0}' <= ch <= '\u{FFE6}' ==> char_width(ch) == 2,
        '\u{1F300}' <= ch <= '\u{1FAFF}' ==> char_width(ch) == 2,
        '\u{20000}' <= ch <= '\u{2FFFD}' ==> char_width(ch) == 2,
        '\u{30000}' <= ch <= '\u{3FFFD}' ==> char_width(ch) == 2,
        ch < ' ' || '\u{7F}' <= ch <= '\u{9F}' ==> char_width(ch) == 0,
        char_width(ch) <= 2,
{
}

/// A text takes the columns of its parts, one of a single character those of the
/// character, and nothing takes none.
pub proof fn columns_add_up(one: Seq<char>, other: Seq<char>, ch: char)
    ensures
        text_width(one + other) == text_width(one) + text_width(other),
        text_width(seq![ch]) == char_width(ch),
        text_width(Seq::empty()) == 0,
    decreases other.len(),
{
    assert(seq![ch].drop_last() =~= Seq::<char>::empty());
    reveal_with_fuel(text_width, 2);
    if other.len() == 0 {
        assert(one + other =~= one);
    } else {
        columns_add_up(one, other.drop_last(), ch);
        assert((one + other).drop_last() =~= one + other.drop_last());
    }
}

/// So many characters of one column each take so many columns.
pub proof fn narrow_text_takes_its_length(text: Seq<char>)
    requires
        forall|i: int| 0 <= i < text.len() ==> ' ' <= #[trigger] text[i] <= '~',
    ensures
        text_width(text) == text.len(),
    decreases text.len(),
{
    if text.len() > 0 {
        assert(text[text.len() - 1] == text.last());
        assert forall|i: int| 0 <= i < text.drop_last().len() implies ' '
            <= #[trigger] text.drop_last()[i] <= '~' by {
            assert(text[i] == text.drop_last()[i]);
        }
        narrow_text_takes_its_length(text.drop_last());
    }
}

/// The columns of the terminal are read from a line with its rows and columns,
/// whatever stands behind them. There is always one.
pub proof fn columns_are_read(rows: nat, columns: nat, rest: Seq<char>)
    requires
        rows <= usize::MAX,
        columns <= usize::MAX,
        rest.len() > 0 ==> is_white(rest[0]),
    ensures
        columns_of(decimal(rows) + seq![' '] + decimal(columns) + rest) == Some(
            if columns == 0 {
                1
            } else {
                columns
            },
        ),
        columns_of(decimal(rows)) is None,
{
    lemma_decimal_is_a_word(rows);
    lemma_decimal_is_a_word(columns);
    let none = Seq::<char>::empty();
    let behind = seq![' '] + decimal(columns) + rest;
    assert(decimal(rows) + seq![' '] + decimal(columns) + rest =~= none + decimal(rows) + behind);
    assert(none + decimal(rows) + none =~= decimal(rows));
    words_end_at_white_space(none, decimal(rows), behind);
    words_end_at_white_space(none, decimal(rows), none);
    words_end_at_white_space(seq![' '], decimal(columns), rest);
    words_end_at_white_space(none, decimal(columns), none);
}

proof fn lemma_decimal_is_a_word(number: nat)
    requires
        number <= usize::MAX,
    ensures
        decimal(number).len() > 0,
        forall|i: int| 0 <= i < decimal(number).len() ==> !is_white(#[trigger] decimal(number)[i]),
        crate::number::word_value(decimal(number)) == Some(number),
{
    numeral_reads_back(number, 10);
    let text = decimal(number);
    assert(digit_of(text[0]) < 10);
    assert forall|i: int| 0 <= i < text.len() implies !is_white(#[trigger] text[i]) by {
        assert(digit_of(text[i]) < 10);
    }
}

// ---------------------------------------------------------------------------
// Cutting
// ---------------------------------------------------------------------------
proof fn lemma_trailing(text: Seq<char>, ch: char)
    ensures
        ({
            let left = without_trailing(text, ch);
            &&& left.len() <= text.len()
            &&& left == text.take(left.len() as int)
            &&& forall|i: int| left.len() <= i < text.len() ==> #[trigger] text[i] == ch
            &&& left.len() > 0 ==> left.last() != ch
        }),
    decreases text.len(),
{
    if text.len() > 0 && text.last() == ch {
        lemma_trailing(text.drop_last(), ch);
        let left = without_trailing(text, ch);
        assert(text.drop_last().take(left.len() as int) =~= text.take(left.len() as int));
        assert forall|i: int| left.len() <= i < text.len() implies #[trigger] text[i] == ch by {
            if i < text.len() - 1 {
                assert(text.drop_last()[i] == ch);
            }
        }
    } else {
        assert(text.take(text.len() as int) =~= text);
    }
}

/// A text that fits is not cut. One that does not keeps its beginning, but for
/// spaces before the dots that stand for the rest; where there is room for dots
/// alone, there are only dots.
pub proof fn cut_text_keeps_the_beginning(text: Seq<char>, most: nat)
    ensures
        text.len() <= most ==> cut_to(text, most) == text,
        text.len() > most && most <= 3 ==> cut_to(text, most).len() == most && forall|i: int|
            0 <= i < most ==> #[trigger] cut_to(text, most)[i] == '.',
        text.len() > most && most > 3 ==> ({
            let cut = cut_to(text, most);
            let kept = cut.len() - 3;
            &&& 0 <= kept <= most - 3
            &&& cut.take(kept) == text.take(kept)
            &&& cut.skip(kept) == seq!['.', '.', '.']
            &&& kept > 0 ==> text[kept - 1] != ' '
            &&& forall|i: int| kept <= i < most - 3 ==> #[trigger] text[i] == ' '
        }),
{
    reveal_strlit("...");
    if text.len() <= most {
        assert(most == 0 ==> text =~= Seq::<char>::empty());
    } else if most > 3 {
        let head = text.take(most - 3);
        lemma_trailing(head, ' ');
        let left = without_trailing(head, ' ');
        let kept = left.len() as int;
        let cut = cut_to(text, most);
        assert(cut.take(kept) =~= text.take(kept));
        assert(cut.skip(kept) =~= seq!['.', '.', '.']);
        if kept > 0 {
            assert(left.last() == text[kept - 1]);
        }
        assert forall|i: int| kept <= i < most - 3 implies #[trigger] text[i] == ' ' by {
            assert(head[i] == ' ');
        }
    }
}

/// A preview shows a short text as it is, the beginning of a long one with dots
/// behind it, and says that there is nothing where there is nothing.
pub proof fn preview_shows_the_beginning(text: Seq<char>, most: nat)
    ensures
        text.len() == 0 ==> preview_of(text, most) == "(empty)"@,
        0 < text.len() <= most ==> preview_of(text, most) == text,
        text.len() > most ==> preview_of(text, most) == text.take(most as int) + seq!['.', '.', '.'],
{
    reveal_strlit("...");
    assert("..."@ =~= seq!['.', '.', '.']);
}

// ---------------------------------------------------------------------------
// A loaded conversation
// ---------------------------------------------------------------------------
proof fn lemma_spaces(count: nat)
    ensures
        text_width(repeated(' ', count)) == count,
{
    let text = repeated(' ', count);
    assert forall|i: int| 0 <= i < text.len() implies ' ' <= #[trigger] text[i] <= '~' by {}
    narrow_text_takes_its_length(text);
}

/// A line on a card stands two columns from the left, as it is, and is filled up
/// so that the card is as wide everywhere.
pub proof fn card_is_as_wide_everywhere(line: Seq<char>, width: nat) -> (shown: Seq<char>)
    requires
        text_width(line) <= width,
    ensures
        card_line(line, width) == on_grey(shown),
        text_width(shown) == width + 4,
        shown.len() >= line.len() + 4,
        shown.take(2) == seq![' ', ' '],
        shown.subrange(2, 2 + line.len() as int) == line,
        forall|i: int| 2 + line.len() <= i < shown.len() ==> #[trigger] shown[i] == ' ',
{
    reveal_strlit("  ");
    let two = "  "@;
    assert(two =~= repeated(' ', 2));
    let padding = if text_width(line) < width {
        (width - text_width(line)) as nat
    } else {
        0
    };
    let shown = two + line + repeated(' ', padding) + two;
    lemma_spaces(2);
    lemma_spaces(padding);
    columns_add_up(two, line, ' ');
    columns_add_up(two + line, repeated(' ', padding), ' ');
    columns_add_up(two + line + repeated(' ', padding), two, ' ');
    assert(shown.take(2) =~= seq![' ', ' ']);
    assert(shown.subrange(2, 2 + line.len() as int) =~= line);
    shown
}

/// Of one message more in a conversation, what is shown follows what is shown of
/// the others: a message of the user on a card, line by line between two rims,
/// an answer line by line, the name of a tool that answered, and nothing else.
pub proof fn one_message_more_is_shown(
    messages: Seq<JsonView>,
    message: JsonView,
    content: Seq<char>,
    columns: nat,
)
    ensures
        ({
            let before = loaded_messages(messages, columns);
            let all = loaded_messages(messages.push(message), columns);
            let width = if columns < 21 {
                20
            } else {
                columns - 1
            };
            let list = wrapped(content, (width - 4) as nat);
            let role = message.text_at("role"@);
            let said = message.text_at("content"@) == Some(content) || (message.text_at("content"@)
                is None && content.len() == 0);
            &&& all.take(before.len() as int) == before
            &&& said && role == Some("user"@) ==> ({
                let shown = all.skip(before.len() as int);
                &&& shown.len() == list.len() + 3
                &&& shown[0] == on_grey(repeated(' ', width as nat))
                &&& forall|i: int|
                    0 <= i < list.len() ==> #[trigger] shown[i + 1] == card_line(
                        list[i],
                        (width - 4) as nat,
                    )
                &&& shown[(list.len() + 1) as int] == shown[0]
                &&& shown.last().len() == 0
            })
            &&& said && role == Some("assistant"@) ==> ({
                let shown = all.skip(before.len() as int);
                &&& shown.drop_last() == list
                &&& shown.last().len() == 0
            })
            &&& role == Some("tool"@) ==> ({
                let shown = all.skip(before.len() as int);
                &&& shown.len() == 1
                &&& forall|name: Seq<char>|
                    message.text_at("tool_name"@) == Some(name) ==> shown[0] == #[trigger] (styled(
                        Style::Dimmed,
                        "[tool]"@,
                    ) + " "@ + name)
            })
            &&& role != Some("user"@) && role != Some("assistant"@) && role != Some("tool"@)
                ==> all == before
        }),
{
    reveal_strlit("user");
    reveal_strlit("assistant");
    reveal_strlit("tool");
    assert("user"@.len() == 4 && "assistant"@.len() == 9 && "tool"@[0] == 't' && "user"@[0] == 'u');
    let before = loaded_messages(messages, columns);
    let added = loaded_message(message, columns);
    let all = loaded_messages(messages.push(message), columns);
    assert(messages.push(message).drop_last() =~= messages);
    assert(all == before + added);
    assert(all.take(before.len() as int) =~= before);
    assert(all.skip(before.len() as int) =~= added);
    if message.text_at("content"@) is None && content.len() == 0 {
        assert(content =~= Seq::<char>::empty());
    }
    let role = message.text_at("role"@);
    let width = card_width(columns);
    let list = wrapped(content, (width - 4) as nat);
    if role == Some("assistant"@) {
        assert(list.push(Seq::<char>::empty()).drop_last() =~= list);
    }
    if added.len() == 0 {
        assert(before + added =~= before);
    }
}

/// A loaded conversation is shown under its title; where there are no messages,
/// that is said.
pub proof fn loaded_conversation_is_shown(messages: Seq<JsonView>, columns: nat)
    ensures
        loaded_history(messages, columns).len() >= 2,
        loaded_history(messages, columns)[1].len() == 0,
        messages.len() == 0 ==> loaded_history(messages, columns).skip(2) == seq![
            styled(Style::Dimmed, "(empty)"@),
        ],
        messages.len() > 0 ==> loaded_history(messages, columns).skip(2) == loaded_messages(
            messages,
            columns,
        ),
{
    let all = loaded_history(messages, columns);
    assert(all.skip(2) =~= (if messages.len() == 0 {
        seq![styled(Style::Dimmed, "(empty)"@)]
    } else {
        loaded_messages(messages, columns)
    }));
}

/// A session is told by the last message of the user: one message more is that
/// one if and only if it comes from the user. A session that could not be read
/// says so.
pub proof fn session_is_told_by_the_last_message(
    messages: Seq<JsonView>,
    message: JsonView,
    content: Seq<char>,
)
    ensures
        message.text_at("role"@) == Some("user"@) && message.text_at("content"@) == Some(content)
            ==> last_user_text(messages.push(message)) == content,
        message.text_at("role"@) != Some("user"@) ==> last_user_text(messages.push(message))
            == last_user_text(messages),
        last_user_text(Seq::empty()) == "(no user message)"@,
        session_preview(None) == "(failed to load)"@,
        session_preview(Some(messages)) == preview_of(last_user_text(messages), 48),
{
    assert(messages.push(message).drop_last() =~= messages);
}

// ---------------------------------------------------------------------------
// Commands that are offered
// ---------------------------------------------------------------------------
proof fn lemma_with_prefix(commands: Seq<CommandView>, prefix: Seq<char>, place: int)
    requires
        0 <= place < commands.len(),
        prefix.is_prefix_of(commands[place].name),
    ensures
        with_prefix(commands, prefix).contains(commands[place]),
    decreases commands.len(),
{
    let before = with_prefix(commands.drop_last(), prefix);
    let all = with_prefix(commands, prefix);
    if place < commands.len() - 1 {
        lemma_with_prefix(commands.drop_last(), prefix, place);
        let at = choose|at: int| 0 <= at < before.len() && before[at] == commands[place];
        assert(all[at] == commands[place]);
    } else {
        assert(all[before.len() as int] == commands[place]);
    }
}

proof fn lemma_has_prefix(commands: Seq<CommandView>, prefix: Seq<char>, at: int)
    requires
        0 <= at < with_prefix(commands, prefix).len(),
    ensures
        prefix.is_prefix_of(with_prefix(commands, prefix)[at].name),
        commands.contains(with_prefix(commands, prefix)[at]),
        with_prefix(commands, prefix).len() <= commands.len(),
    decreases commands.len(),
{
    if commands.len() > 0 {
        let before = with_prefix(commands.drop_last(), prefix);
        if at < before.len() {
            lemma_has_prefix(commands.drop_last(), prefix, at);
            let found = before[at];
            let k = choose|k: int|
                0 <= k < commands.drop_last().len() && commands.drop_last()[k] == found;
            assert(commands[k] == found);
        } else {
            assert(commands[commands.len() - 1] == commands.last());
            if commands.len() > 1 && before.len() > 0 {
                lemma_has_prefix(commands.drop_last(), prefix, 0);
            }
        }
    }
}

/// The commands that match are all those that begin with what was typed, and no
/// others. The one that is meant exactly comes before the others, those that are
/// built in before skills, and otherwise they stand by name.
pub proof fn matching_commands_are_offered(commands: Seq<CommandView>, prefix: Seq<char>)
    ensures
        ({
            let found = matches_of(commands, prefix);
            &&& forall|k: int|
                0 <= k < commands.len() && prefix.is_prefix_of((#[trigger] commands[k]).name)
                    ==> found.contains(commands[k])
            &&& forall|x: int|
                0 <= x < found.len() ==> prefix.is_prefix_of((#[trigger] found[x]).name)
                    && commands.contains(found[x])
            &&& forall|x: int, y: int|
                0 <= x < y < found.len() ==> {
                    let one = #[trigger] found[x];
                    let other = #[trigger] found[y];
                    &&& other.name == prefix ==> one.name == prefix
                    &&& one.name != prefix && other.name != prefix && other.source
                        == ReplCommandSource::Builtin ==> one.source == ReplCommandSource::Builtin
                    &&& one.name != prefix && other.name != prefix && one.source == other.source
                        ==> one.name == other.name || text_lt(one.name, other.name)
                }
        }),
{
    let listed = with_prefix(commands, prefix);
    let ranks = match_ranks(listed, prefix);
    let names = command_names(listed);
    let order = sorted_places(ranks, names);
    let found = matches_of(commands, prefix);
    stable_order_exists(ranks, names);
    assert(is_stable_order(ranks, names, order));
    assert forall|k: int|
        0 <= k < commands.len() && prefix.is_prefix_of(
            (#[trigger] commands[k]).name,
        ) implies found.contains(commands[k]) by {
        lemma_with_prefix(commands, prefix, k);
        let at = choose|at: int| 0 <= at < listed.len() && listed[at] == commands[k];
        assert(order.contains(at));
        let x = choose|x: int| 0 <= x < order.len() && order[x] == at;
        assert(found[x] == commands[k]);
    }
    assert forall|x: int| 0 <= x < found.len() implies prefix.is_prefix_of(
        (#[trigger] found[x]).name,
    ) && commands.contains(found[x]) by {
        assert(0 <= order[x] < names.len());
        lemma_has_prefix(commands, prefix, order[x]);
    }
    assert forall|x: int, y: int| 0 <= x < y < found.len() implies {
        let one = #[trigger] found[x];
        let other = #[trigger] found[y];
        &&& other.name == prefix ==> one.name == prefix
        &&& one.name != prefix && other.name != prefix && other.source == ReplCommandSource::Builtin
            ==> one.source == ReplCommandSource::Builtin
        &&& one.name != prefix && other.name != prefix && one.source == other.source ==> one.name
            == other.name || text_lt(one.name, other.name)
    } by {
        assert(0 <= order[x] < names.len());
        assert(0 <= order[y] < names.len());
        assert(crate::order::goes_before(ranks, names, order[x], order[y]));
    }
}

/// The command of a skill is its name behind a slash, says what the skill does,
/// and takes arguments if and only if there is a hint at them, which is shown.
pub proof fn skill_is_offered_by_its_name(skill: SkillView)
    ensures
        ({
            let command = skill_command(skill);
            let hinted = skill.argument_hint is Some && !is_blank(skill.argument_hint->0);
            &&& command.name == seq!['/'] + skill.name
            &&& command.summary == skill.description
            &&& command.source == ReplCommandSource::Skill
            &&& command.takes_args <==> hinted
            &&& hinted ==> command.usage == seq!['/'] + skill.name + seq![' '] + trim(
                skill.argument_hint->0,
            )
            &&& !hinted ==> command.usage == seq!['/'] + skill.name
        }),
{
    reveal_strlit("/");
    reveal_strlit(" ");
    assert("/"@ =~= seq!['/']);
    assert(" "@ =~= seq![' ']);
}

/// The choice of a command is its name without the slash; where it takes
/// arguments its usage stands before what it does.
pub proof fn command_is_chosen_by_its_name(command: CommandView, name: Seq<char>)
    requires
        command.name == seq!['/'] + name,
        has_no_margin(name),
        name.len() > 0,
        name[0] != '/',
    ensures
        command_choice(command).0 == name,
        command.takes_args ==> command_choice(command).1 == trim(
            command.usage + seq![' ', ' '] + command.summary,
        ),
        !command.takes_args ==> command_choice(command).1 == trim(command.summary),
        selection_of(command.name) == name,
{
    reveal_strlit("  ");
    assert("  "@ =~= seq![' ', ' ']);
    let none = Seq::<char>::empty();
    let full = seq!['/'] + name;
    assert(full.last() == name.last());
    trim_takes_off_white_space(none, full, none);
    assert(none + full + none =~= full);
    assert(full.skip(1) =~= name);
    reveal_with_fuel(without_leading, 2);
    assert(without_leading(full, '/') == name);
    assert(trim_end(name) == name);
}

/// Every choice stays in its place with its command; its description fits beside
/// the longest command, and is as it was where it fits there.
pub proof fn fitted_choices_keep_their_commands(
    choices: Seq<(Seq<char>, Seq<char>)>,
    columns: nat,
    i: int,
)
    requires
        0 <= i < choices.len(),
        has_no_margin(choices[i].0),
        choices[i].0.len() > 0 ==> choices[i].0[0] != '/',
    ensures
        fitted(choices, columns).len() == choices.len(),
        fitted(choices, columns)[i].0 == choices[i].0,
        choices[i].0.len() <= longest_command(choices),
        has_no_margin(choices[i].1) && longest_command(choices) + 5 + choices[i].1.len() <= columns
            ==> fitted(choices, columns)[i].1 == choices[i].1,
        columns > longest_command(choices) + 5 ==> longest_command(choices) + 5 + fitted(
            choices,
            columns,
        )[i].1.len() <= columns,
        columns <= longest_command(choices) + 5 ==> fitted(choices, columns)[i].1.len() == 0,
{
    let none = Seq::<char>::empty();
    let (name, text) = choices[i];
    trim_takes_off_white_space(none, name, none);
    assert(none + name + none =~= name);
    lemma_longest(choices, i);
    let room = description_room(choices, columns);
    cut_text_fits(text, room);
    let (lead, trail) = crate::text_laws::trimmed_text_stands_inside(cut_to(text, room));
    assert(trim(cut_to(text, room)).len() <= cut_to(text, room).len());
    if has_no_margin(text) {
        trim_takes_off_white_space(none, text, none);
        assert(none + text + none =~= text);
        if longest_command(choices) + 5 + text.len() <= columns {
            cut_text_keeps_the_beginning(text, room);
        }
    }
}

proof fn lemma_longest(choices: Seq<(Seq<char>, Seq<char>)>, i: int)
    requires
        0 <= i < choices.len(),
    ensures
        choices[i].0.len() <= longest_command(choices),
    decreases choices.len(),
{
    if i < choices.len() - 1 {
        lemma_longest(choices.drop_last(), i);
        assert(choices.drop_last()[i] == choices[i]);
    }
}

/// What is read from the clipboard loses the ends of lines behind it and nothing
/// else.
pub proof fn clipboard_keeps_the_text(text: Seq<char>, ends: Seq<char>)
    requires
        text.len() > 0 ==> text.last() != '\n' && text.last() != '\r',
        forall|i: int| 0 <= i < ends.len() ==> #[trigger] ends[i] == '\n' || ends[i] == '\r',
    ensures
        without_line_ends(text + ends) == text,
    decreases ends.len(),
{
    if ends.len() == 0 {
        assert(text + ends =~= text);
    } else {
        assert(ends[ends.len() - 1] == ends.last());
        assert((text + ends).drop_last() =~= text + ends.drop_last());
        assert forall|i: int| 0 <= i < ends.drop_last().len() implies #[trigger] ends.drop_last()[i]
            == '\n' || ends.drop_last()[i] == '\r' by {
            assert(ends[i] == ends.drop_last()[i]);
        }
        clipboard_keeps_the_text(text, ends.drop_last());
    }
}

// ---------------------------------------------------------------------------
// The input line
// ---------------------------------------------------------------------------
/// An interrupt and the end of the input end a session and leave the line as it
/// is. A line that is submitted is what the session gives, whole. A choice that
/// is taken over is, too, if and only if it is to be returned at once. Nothing
/// else ends the session.
pub proof fn submitted_line_is_given(state: SessionView, event: AppEvent, text: Seq<char>)
    ensures
        ({
            let (input, step) = after_event(state, event);
            &&& event is Interrupted ==> input == state.input && step == SessionStep::Done(
                PromptSignal::<Seq<char>>::Interrupted,
            )
            &&& event is Eof ==> input == state.input && step == SessionStep::Done(
                PromptSignal::<Seq<char>>::Eof,
            )
            &&& event is Key ==> ({
                let (line, reply) = pressed(state.input, event_of(event->Key_0));
                let done = SessionStep::Done(PromptSignal::Submitted(text));
                &&& input == line
                &&& reply == KeyReply::Submitted(text) ==> step == done
                &&& reply == KeyReply::Suggested(text) && state.behavior
                    == SuggestionBehavior::ReturnImmediately ==> step == done
                &&& reply == KeyReply::Suggested(text) && state.behavior
                    == SuggestionBehavior::KeepEditing ==> step is Redraw
                &&& reply is Paste <==> step is ReadClipboard
                &&& reply is Nothing ==> step is Redraw
                &&& reply is Copy ==> step is Redraw
                &&& step is Done ==> reply is Submitted || reply is Suggested
            })
        }),
{
}

/// The lines below the input line are drawn where no choices are, and the input
/// line and the place in it stay where they are.
pub proof fn choices_take_the_place_of_the_footer(state: SessionView)
    ensures
        ({
            let line = crate::prompt_input::drawn(state.input, state.columns);
            let frame = frame_of(state);
            &&& frame.0.take(line.0.len() as int) == line.0
            &&& frame.1 == line.1 && frame.2 == line.2
            &&& crate::prompt_input::choices_shown(state.input) ==> frame.0.len() == line.0.len()
            &&& !crate::prompt_input::choices_shown(state.input) ==> frame.0.skip(
                line.0.len() as int,
            ) == state.footer
        }),
{
    let line = crate::prompt_input::drawn(state.input, state.columns);
    let frame = frame_of(state);
    assert(frame.0.take(line.0.len() as int) =~= line.0);
    if !crate::prompt_input::choices_shown(state.input) {
        assert(frame.0.skip(line.0.len() as int) =~= state.footer);
    }
}

// ---------------------------------------------------------------------------
// What commands print
// ---------------------------------------------------------------------------
/// The commands that need nothing from outside print what they are for: the
/// number of messages, the version, the messages themselves; nothing at the end.
/// Of every other one it is said, by its name, that it is not known.
pub proof fn commands_print_what_was_asked_for(
    command: Seq<char>,
    lower: Seq<char>,
    history: Seq<(Seq<char>, Seq<char>)>,
    version: Seq<char>,
)
    ensures
        ({
            let printed = command_output(command, lower, history, version);
            let ends_with = |text: Seq<char>, end: Seq<char>|
                text.len() >= end.len() && text.skip(text.len() - end.len()) == end;
            &&& lower == "/exit"@ || lower == "/quit"@ <==> printed.len() == 0
            &&& lower == "/count"@ ==> printed.len() == 1 && ends_with(
                printed[0],
                decimal(history.len()),
            )
            &&& lower == "/version"@ ==> printed.len() == 1 && ends_with(
                printed[0],
                styled(Style::White, version),
            )
            &&& lower == "/history"@ && history.len() > 0 ==> printed.len() == 2 && printed[1]
                == crate::types::history_json(history)
            &&& lower == "/history"@ && history.len() == 0 ==> printed.len() == 2 && ends_with(
                printed[1],
                styled(Style::Dimmed, "(empty)"@),
            )
            &&& lower == "/help"@ ==> printed == crate::repl::help_lines()
            &&& lower != "/exit"@ && lower != "/quit"@ && lower != "/count"@ && lower
                != "/version"@ && lower != "/history"@ && lower != "/help"@ && lower
                != "/clear"@ ==> printed.len() == 2 && ends_with(printed[0], command)
        }),
{
    reveal_strlit("/exit");
    reveal_strlit("/quit");
    reveal_strlit("/clear");
    reveal_strlit("/count");
    reveal_strlit("/version");
    reveal_strlit("/history");
    reveal_strlit("/help");
    assert("/exit"@[1] == 'e' && "/quit"@[1] == 'q' && "/clear"@[1] == 'c' && "/count"@[1] == 'c'
        && "/clear"@[2] == 'l' && "/count"@[2] == 'o' && "/version"@[1] == 'v' && "/history"@[1]
        == 'h' && "/help"@[1] == 'h' && "/history"@[2] == 'i' && "/help"@[2] == 'e');
    let printed = command_output(command, lower, history, version);
    let number = decimal(history.len());
    let white = styled(Style::White, version);
    let empty = styled(Style::Dimmed, "(empty)"@);
    if lower == "/count"@ {
        assert(printed[0].skip(printed[0].len() - number.len()) =~= number);
    }
    if lower == "/version"@ {
        assert(printed[0].skip(printed[0].len() - white.len()) =~= white);
    }
    if lower == "/history"@ && history.len() == 0 {
        assert(printed[1].skip(printed[1].len() - empty.len()) =~= empty);
    }
    if printed.len() == 2 && lower != "/history"@ {
        assert(printed[0].skip(printed[0].len() - command.len()) =~= command);
    }
}

/// A text in a style stands between the escape sequence that turns the style on
/// and the one that turns it off.
pub proof fn style_is_turned_on_and_off(text: Seq<char>)
    ensures
        ({
            let on = |code: Seq<char>| seq!['\u{1b}', '['] + code + seq!['m'];
            let colour_off = on(seq!['3', '9']);
            let weight_off = on(seq!['2', '2']);
            &&& styled(Style::Bold, text) == on(seq!['1']) + text + weight_off
            &&& styled(Style::Dimmed, text) == on(seq!['2']) + text + weight_off
            &&& styled(Style::Red, text) == on(seq!['3', '1']) + text + colour_off
            &&& styled(Style::Green, text) == on(seq!['3', '2']) + text + colour_off
            &&& styled(Style::Yellow, text) == on(seq!['3', '3']) + text + colour_off
            &&& styled(Style::Blue, text) == on(seq!['3', '4']) + text + colour_off
            &&& styled(Style::Cyan, text) == on(seq!['3', '6']) + text + colour_off
            &&& styled(Style::White, text) == on(seq!['3', '7']) + text + colour_off
        }),
{
    reveal_with_fuel(numeral, 3);
    assert(decimal(1) =~= seq!['1']);
    assert(decimal(2) =~= seq!['2']);
    assert(decimal(22) =~= seq!['2', '2']);
    assert(decimal(31) =~= seq!['3', '1']);
    assert(decimal(32) =~= seq!['3', '2']);
    assert(decimal(33) =~= seq!['3', '3']);
    assert(decimal(34) =~= seq!['3', '4']);
    assert(decimal(36) =~= seq!['3', '6']);
    assert(decimal(37) =~= seq!['3', '7']);
    assert(decimal(39) =~= seq!['3', '9']);
}

/// The tip at the start is one of the tips, and each of them comes up.
pub proof fn tips_come_up(seed: u64, place: int)
    requires
        0 <= place < 4,
        (seed as usize) % 4 == place,
    ensures
        startup_tips().len() == 4,
        ({
            let tip = styled(Style::White, startup_tips()[place]);
            tip_line(seed).len() >= tip.len() && tip_line(seed).skip(
                tip_line(seed).len() - tip.len(),
            ) == tip
        }),
{
    let tip = styled(Style::White, startup_tips()[place]);
    assert(tip_line(seed).skip(tip_line(seed).len() - tip.len()) =~= tip);
}

// ---------------------------------------------------------------------------
// Tools, addresses and the layout of text
// ---------------------------------------------------------------------------
/// The model is told the name, the description and the schema of a tool.
pub proof fn tool_is_described_to_the_model(
    name: Seq<char>,
    description: Seq<char>,
    schema: JsonView,
)
    ensures
        ({
            let value = definition(name, description, schema);
            &&& value.at("type"@) == JsonView::Text("function"@)
            &&& value.at("function"@).at("name"@) == JsonView::Text(name)
            &&& value.at("function"@).at("description"@) == JsonView::Text(description)
            &&& value.at("function"@).at("parameters"@) == schema
        }),
{
    reveal_strlit("type");
    reveal_strlit("function");
    reveal_strlit("name");
    reveal_strlit("description");
    reveal_strlit("parameters");
    assert("type"@.len() == 4 && "function"@.len() == 8);
    assert("name"@.len() == 4 && "description"@.len() == 11 && "parameters"@.len() == 10);
}

/// A host and a port stand with a colon between them; a host with colons of its
/// own stands in brackets.
pub proof fn endpoint_is_host_and_port(host: Seq<char>, port: nat)
    ensures
        !host.contains(':') ==> endpoint(host, port) == host + seq![':'] + decimal(port),
        host.contains(':') ==> endpoint(host, port) == seq!['['] + host + seq![']', ':'] + decimal(
            port,
        ),
{
}

/// Lines that are not in tables can be laid out wherever their marks have room:
/// how long they are makes no difference.
pub proof fn plain_lines_can_be_laid_out(shapes: Seq<Shape<Seq<Extent>>>, columns: u16)
    requires
        forall|i: int|
            0 <= i < shapes.len() ==> !((#[trigger] shapes[i]) is Row) && !(shapes[i] is Rule),
    ensures
        columns < 3 ==> shapes_fit(shapes, columns),
        (forall|i: int|
            0 <= i < shapes.len() && (#[trigger] shapes[i]) is Plain ==> shapes[i]->Plain_0.mark
                <= columns) ==> shapes_fit(shapes, columns),
        (forall|i: int|
            0 <= i < shapes.len() && (#[trigger] shapes[i]) is Plain ==> shapes[i]->Plain_0.all
                <= columns) ==> shapes_fit(shapes, columns),
        forall|i: int|
            0 <= i < shapes.len() && (#[trigger] shapes[i]) is Plain && columns >= 3
                && shapes[i]->Plain_0.mark > columns && shapes[i]->Plain_0.all > columns
                ==> !shapes_fit(shapes, columns),
{
    assert forall|from: int, to: int| !#[trigger] crate::layout::is_table(shapes, from, to) by {
        if crate::layout::is_table(shapes, from, to) {
            assert(crate::layout::in_table(shapes[from]));
        }
    }
}

// ---------------------------------------------------------------------------
// What is said
// ---------------------------------------------------------------------------
/// Whether a text has another somewhere in it.
pub open spec fn says(text: Seq<char>, part: Seq<char>) -> bool {
    exists|at: int| #[trigger] says_at(text, part, at)
}

/// Whether a text has another in it at this place.
pub open spec fn says_at(text: Seq<char>, part: Seq<char>, at: int) -> bool {
    &&& 0 <= at
    &&& at + part.len() <= text.len()
    &&& text.subrange(at, at + part.len()) == part
}

proof fn lemma_says(before: Seq<char>, part: Seq<char>, behind: Seq<char>)
    ensures
        says(before + part + behind, part),
{
    let text = before + part + behind;
    assert(text.subrange(before.len() as int, before.len() + part.len() as int) =~= part);
    assert(says_at(text, part, before.len() as int));
}

proof fn lemma_style_says(style: Style, text: Seq<char>)
    ensures
        says(styled(style, text), text),
{
    lemma_says(
        crate::terminal_style::escape(style.open_code()),
        text,
        crate::terminal_style::escape(style.close_code()),
    );
}

/// A text that a part of a text says is said by the whole.
pub proof fn whole_says_what_its_part_says(
    before: Seq<char>,
    part: Seq<char>,
    behind: Seq<char>,
    said: Seq<char>,
)
    requires
        says(part, said),
    ensures
        says(before + part + behind, said),
{
    let at = choose|at: int| #[trigger] says_at(part, said, at);
    let text = before + part + behind;
    let place = before.len() + at;
    assert(text.subrange(place, place + said.len()) =~= part.subrange(at, at + said.len()));
    assert(says_at(text, said, place));
}

/// The message to commit is shown, when it is suggested and when it was
/// committed, and an end without a commit is told.
pub proof fn commit_message_is_shown(message: Seq<char>)
    ensures
        crate::commit::commit_line(CommitAction::Confirm(message)) matches Some(line) && says(
            line,
            message,
        ),
        crate::commit::commit_line(CommitAction::Committed(message)) matches Some(line) && says(
            line,
            message,
        ),
        crate::commit::commit_line(CommitAction::Cancelled) is Some,
        crate::commit::commit_line(CommitAction::Nothing) is Some,
{
    let white = styled(Style::White, message);
    let none = Seq::<char>::empty();
    lemma_style_says(Style::White, message);
    let first = styled(Style::Bold, styled(Style::Cyan, "Suggested commit message:"@)) + " "@;
    let second = styled(Style::Green, "✅ Committed:"@) + " "@;
    whole_says_what_its_part_says(first, white, none, message);
    whole_says_what_its_part_says(second, white, none, message);
    assert(first + white + none =~= first + white);
    assert(second + white + none =~= second + white);
}

/// Below the banner stand, in this order, how the conversation starts, the theme
/// and the output style, and where the model is.
pub proof fn intro_tells_where_things_stand(
    status: Seq<char>,
    theme: Seq<char>,
    output_style: Seq<char>,
    place: Seq<char>,
)
    ensures
        ({
            let list = crate::repl::intro_lines(status, theme, output_style, place);
            let title = |text: Seq<char>| styled(Style::Dimmed, text);
            let value = |text: Seq<char>| styled(Style::White, text);
            &&& list.len() == 3
            &&& list[0] == title("session"@) + seq![' '] + value(status)
            &&& list[1] == title("ui"@) + " theme="@ + value(theme) + " output="@ + value(
                output_style,
            )
            &&& list[2] == title("endpoint"@) + seq![' '] + value(place)
        }),
{
    reveal_strlit(" ");
    assert(" "@ =~= seq![' ']);
}

/// A setting that was changed is told with its value and where it was saved.
pub proof fn changed_setting_is_told(label: Seq<char>, value: Seq<char>, path: Seq<char>)
    ensures
        says(crate::repl_commands::updated_text(label, value, path), label),
        says(crate::repl_commands::updated_text(label, value, path), value),
        says(crate::repl_commands::updated_text(label, value, path), path),
{
    let green = styled(Style::Green, label);
    let text = crate::repl_commands::updated_text(label, value, path);
    let none = Seq::<char>::empty();
    lemma_style_says(Style::Green, label);
    let rest = " "@ + value + " ("@ + path + ")"@;
    whole_says_what_its_part_says(none, green, rest, label);
    assert(text =~= none + green + rest);
    lemma_says(green + " "@, value, " ("@ + path + ")"@);
    assert(text =~= green + " "@ + value + (" ("@ + path + ")"@));
    lemma_says(green + " "@ + value + " ("@, path, ")"@);
}

/// Where the server is, is told.
pub proof fn place_of_the_server_is_told(style: Style, label: Seq<char>, address: Seq<char>)
    ensures
        says(crate::repl_commands::place_line(style, label, address), label),
        says(crate::repl_commands::place_line(style, label, address), address),
{
    let text = crate::repl_commands::place_line(style, label, address);
    let none = Seq::<char>::empty();
    let inner = styled(style, label);
    let bold = styled(Style::Bold, inner);
    lemma_style_says(style, label);
    whole_says_what_its_part_says(
        crate::terminal_style::escape(Style::Bold.open_code()),
        inner,
        crate::terminal_style::escape(Style::Bold.close_code()),
        label,
    );
    whole_says_what_its_part_says("\n"@, bold, " http://"@ + address, label);
    assert(text =~= "\n"@ + bold + (" http://"@ + address));
    lemma_says("\n"@ + bold + " http://"@, address, none);
    assert("\n"@ + bold + " http://"@ + address + none =~= text);
}

/// An error names what it is about: the setting that is missing, the file that
/// cannot be read, the address, the style, the tool.
pub proof fn errors_name_what_they_are_about(text: Seq<char>)
    ensures
        says(settings_message(SettingsError::Empty(text)), text),
        says(settings_message(SettingsError::Unreadable(text)), text),
        says(settings_message(SettingsError::Invalid(text)), text),
        says(crate::cli::error_message(OneShotError::InvalidAddress(text)), text),
        says(crate::cli::error_message(OneShotError::UnknownStyle(text)), text),
        says(crate::tools::error_message(ToolError::Unknown(text)), text),
        crate::tools::error_message(ToolError::Failed(text)) == text,
        settings_message(SettingsError::Unreadable(text)) != settings_message(
            SettingsError::Invalid(text),
        ),
{
    let none = Seq::<char>::empty();
    reveal_strlit("failed to read settings file: ");
    reveal_strlit("invalid settings JSON: ");
    lemma_says(none, text, " must not be empty"@);
    assert(none + text + " must not be empty"@ =~= text + " must not be empty"@);
    lemma_says("failed to read settings file: "@, text, none);
    assert("failed to read settings file: "@ + text + none =~= "failed to read settings file: "@
        + text);
    lemma_says("invalid settings JSON: "@, text, none);
    assert("invalid settings JSON: "@ + text + none =~= "invalid settings JSON: "@ + text);
    lemma_says("invalid server address: "@, text, none);
    assert("invalid server address: "@ + text + none =~= "invalid server address: "@ + text);
    lemma_says("unknown output style: "@, text, none);
    assert("unknown output style: "@ + text + none =~= "unknown output style: "@ + text);
    lemma_says("unknown tool: "@, text, none);
    assert("unknown tool: "@ + text + none =~= "unknown tool: "@ + text);
    assert(settings_message(SettingsError::Unreadable(text))[0] == 'f');
    assert(settings_message(SettingsError::Invalid(text))[0] == 'i');
}

/// The echo tool gives back the text that it is given, and fails where it is
/// given none.
pub proof fn echo_gives_the_text_back(input: JsonView, text: Seq<char>)
    ensures
        input.at("text"@) == JsonView::Text(text) ==> crate::tools::echo_result(input) == Ok::<
            Seq<char>,
            ToolError<Seq<char>>,
        >(text),
        !(input.at("text"@) is Text) ==> crate::tools::echo_result(input) is Err,
{
}

} // verus!
