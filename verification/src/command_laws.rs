//! What the functions around the prompt, the settings and the tools give back,
//! whatever they are given.
use vstd::prelude::*;

use crate::api::{
    complete_prompt_ollama, complete_prompt_openai, ensure_settings_file_with, lemma_body_keys,
    listed_models, load_settings_from_path, persist_model_to_path, resolve_settings_path_with,
    validate_non_empty, ClientError, FileContents, HttpOutcome, HttpRequest, LLMClient,
    LLMSettings, OpenAIChatResponse, Provider, SettingsError, SettingsPlan,
    SettingsView,
};
use crate::cli::{checked_style, effective_prompt, prompt_text, saved_memories_line, OneShotError};
use crate::engine::lemma_message_keys;
use crate::json::{values, Json, JsonView};
use crate::number::decimal;
use crate::prompt_input::{
    clipboard_text, picked_line, read_line_with_initial, select_option, InputChoice, PromptSignal,
};
use crate::repl::{after_lookup, failure_line, start_repl, ReplAction};
use crate::repl_commands::{
    checked_argument, chosen_session, compact_line, handle_config_command, handle_diff_command,
    handle_web_fetch_command, handle_web_search_command, model_options, requested_style,
    session_options, ConfigAction,
};
use crate::repl_completion::ReplCommandSpec;
use crate::server_flow::{ApiError, MessageFlow};
use crate::text::{is_blank, texts, trim};
use crate::tools::{Tool, ToolError, ToolRegistry};
use crate::types::OllamaChatResponse;

verus! {

// ---------------------------------------------------------------------------
// The command line
// ---------------------------------------------------------------------------
/// Whether a text ends with another.
pub open spec fn ends_with(text: Seq<char>, end: Seq<char>) -> bool {
    end.len() <= text.len() && text.skip(text.len() - end.len()) == end
}

/// The words of the command line are put in a row with a space between them.
pub proof fn prompt_has_all_words(one: Vec<String>, all: Vec<String>, first: String, more: String)
    requires
        one@.len() > 0,
        texts(all@) == texts(one@).push(texts(all@).last()),
        call_ensures(prompt_text, (&one,), first),
        call_ensures(prompt_text, (&all,), more),
    ensures
        more@ == first@ + seq![' '] + texts(all@).last(),
        one@.len() == 1 ==> first@ == one@[0]@,
{
    reveal_strlit(" ");
    assert(" "@ =~= seq![' ']);
    let list = texts(one@);
    crate::text_laws::joined_texts_stand_in_a_row(list, texts(all@).last(), " "@);
    if one@.len() == 1 {
        crate::text_laws::joined_texts_stand_in_a_row(list, list[0], " "@);
        assert(list =~= seq![list[0]]);
    }
}

/// A style that is known is taken, without the white space around its name; one
/// that is not is named in the error.
pub proof fn known_style_is_taken(
    name: &str,
    known: bool,
    style: Result<String, OneShotError<String>>,
)
    requires
        call_ensures(checked_style, (name, known), style),
    ensures
        style is Ok <==> known,
        known ==> style->Ok_0@ == trim(name@),
        !known ==> (style->Err_0 matches OneShotError::UnknownStyle(unknown) && unknown@ == name@),
{
}

/// A skill that was called speaks in the place of the prompt; without one the
/// prompt itself does.
pub proof fn skill_speaks_for_the_prompt(prompt: &str, message: &str, said: String, text: String)
    requires
        call_ensures(effective_prompt, (prompt, Some(message)), said),
        call_ensures(effective_prompt, (prompt, None), text),
    ensures
        said@ == message@,
        text@ == trim(prompt@),
{
}

/// Memories that were saved are named, and nothing is said where there are none.
pub proof fn saved_memories_are_named(
    saved: Vec<(String, String)>,
    line: Option<String>,
)
    requires
        call_ensures(saved_memories_line, (&saved,), line),
    ensures
        line is None <==> saved@.len() == 0,
        saved@.len() == 1 ==> ends_with(
            line->0@,
            seq!['['] + saved@[0].0@ + seq![']', ' '] + saved@[0].1@,
        ),
        saved@.len() == 2 ==> ends_with(
            line->0@,
            seq!['['] + saved@[0].0@ + seq![']', ' '] + saved@[0].1@ + seq![',', ' ', '[']
                + saved@[1].0@ + seq![']', ' '] + saved@[1].1@,
        ),
{
    reveal_strlit("[");
    reveal_strlit("] ");
    reveal_strlit(", ");
    assert("["@ =~= seq!['['] && "] "@ =~= seq![']', ' '] && ", "@ =~= seq![',', ' ']);
    let entries = crate::cli::saved_entries(saved@);
    if saved@.len() == 1 {
        let entry = seq!['['] + saved@[0].0@ + seq![']', ' '] + saved@[0].1@;
        assert(entries =~= seq![entry]);
        crate::text_laws::joined_texts_stand_in_a_row(entries, entry, ", "@);
        assert(line->0@.skip(line->0@.len() - entry.len()) =~= entry);
    } else if saved@.len() == 2 {
        let entry = seq!['['] + saved@[0].0@ + seq![']', ' '] + saved@[0].1@;
        let other = seq!['['] + saved@[1].0@ + seq![']', ' '] + saved@[1].1@;
        assert(entries =~= seq![entry].push(other));
        crate::text_laws::joined_texts_stand_in_a_row(seq![entry], other, ", "@);
        crate::text_laws::joined_texts_stand_in_a_row(seq![entry], entry, ", "@);
        let both = seq!['['] + saved@[0].0@ + seq![']', ' '] + saved@[0].1@ + seq![',', ' ', '[']
            + saved@[1].0@ + seq![']', ' '] + saved@[1].1@;
        assert(line->0@.skip(line->0@.len() - both.len()) =~= both);
    }
}

// ---------------------------------------------------------------------------
// The prompt
// ---------------------------------------------------------------------------
/// A skill that was found is run, with its arguments; a line that names none is
/// a command, and a failure is told.
pub proof fn found_skill_is_run(
    line: &str,
    name: &str,
    args: &str,
    lookup: Result<bool, String>,
    action: ReplAction<String>,
)
    requires
        call_ensures(after_lookup, (line, name, args, lookup), action),
    ensures
        lookup == Ok::<bool, String>(true) ==> (action matches ReplAction::RunSkill {
            name: skill,
            args: given,
        } && skill@ == name@ && given@ == args@),
        lookup == Ok::<bool, String>(false) ==> (action matches ReplAction::Command(command)
            && command@ == trim(line@)),
        lookup matches Err(error) ==> (action matches ReplAction::LookUpFailed(told) && told@
            == error@),
{
}

/// The prompt ends where the session at it was left, and nowhere else. A message
/// goes to the model whole.
pub proof fn prompt_ends_where_it_is_left(
    signal: PromptSignal<String>,
    plans: bool,
    skills: bool,
    action: ReplAction<String>,
)
    requires
        call_ensures(start_repl, (&signal, plans, skills), action),
    ensures
        action is Quit <==> !(signal is Submitted),
        signal matches PromptSignal::Submitted(text) ==> (is_blank(text@) ==> action is Ignore) && (
        !is_blank(text@) && trim(text@)[0] != '/' ==> (action matches ReplAction::Turn(said)
            && said@ == trim(text@))),
{
    match signal {
        PromptSignal::Submitted(text) => {
            crate::line_laws::messages_go_to_the_model(text@, plans, skills);
        },
        _ => {},
    }
}

/// A failure is told with its message.
pub proof fn failure_is_told(action: ReplAction<String>, error: &str, line: String)
    requires
        call_ensures(failure_line, (&action, error), line),
    ensures
        ends_with(line@, error@),
{
    assert(line@.skip(line@.len() - error@.len()) =~= error@);
}

/// What was submitted is what was chosen, or what the line says; leaving the
/// input chooses and says nothing.
pub proof fn submitted_text_is_taken(
    text: String,
    selection: Option<String>,
    line: String,
    left: PromptSignal<String>,
    nothing: Option<String>,
    empty: String,
)
    requires
        call_ensures(select_option, (PromptSignal::Submitted(text),), selection),
        call_ensures(read_line_with_initial, (PromptSignal::Submitted(text),), line),
        !(left is Submitted),
        call_ensures(select_option, (left,), nothing),
        call_ensures(read_line_with_initial, (left,), empty),
    ensures
        selection is Some,
        line@ == text@,
        nothing is None,
        empty@.len() == 0,
{
}

/// The clipboard gives text if and only if it has some besides ends of lines.
pub proof fn clipboard_gives_its_text(output: &str, text: Option<String>, kept: Seq<char>, ends:
    Seq<char>)
    requires
        call_ensures(clipboard_text, (output,), text),
        output@ == kept + ends,
        kept.len() > 0 ==> kept.last() != '\n' && kept.last() != '\r',
        forall|i: int| 0 <= i < ends.len() ==> #[trigger] ends[i] == '\n' || ends[i] == '\r',
    ensures
        kept.len() == 0 <==> text is None,
        kept.len() > 0 ==> text->0@ == kept,
{
    crate::show_laws::clipboard_keeps_the_text(kept, ends);
}

/// A command that was picked by its name is put into the line with a space
/// behind it if and only if it takes arguments.
pub proof fn picked_command_is_put_into_the_line(
    commands: Vec<ReplCommandSpec>,
    chosen: &str,
    line: Option<String>,
    nothing: Option<String>,
)
    requires
        call_ensures(picked_line, (&commands, Some(chosen)), line),
        call_ensures(picked_line, (&commands, None), nothing),
    ensures
        nothing is None,
        line is Some ==> exists|k: int|
            0 <= k < commands@.len() && line->0@ == (#[trigger] commands@[k]).name@ + (
            if commands@[k].takes_args {
                seq![' ']
            } else {
                Seq::empty()
            }) && crate::prompt_input::command_choice(commands@[k]@).0 == chosen@,
        line is None ==> forall|k: int|
            0 <= k < commands@.len() ==> crate::prompt_input::command_choice(
                (#[trigger] commands@[k])@,
            ).0 != chosen@,
{
    reveal_strlit(" ");
    assert(" "@ =~= seq![' ']);
    let list = crate::repl_completion::command_views(commands@);
    if line is Some {
        let place = choose|place: int| #[trigger]
            crate::prompt_input::is_picked(list, chosen@, place) && line->0@
                == crate::prompt_input::completed(list[place]);
        assert(list[place] == commands@[place]@);
    } else {
        assert forall|k: int| 0 <= k < commands@.len() implies crate::prompt_input::command_choice(
            (#[trigger] commands@[k])@,
        ).0 != chosen@ by {
            assert(list[k] == commands@[k]@);
        }
    }
}

// ---------------------------------------------------------------------------
// Commands
// ---------------------------------------------------------------------------
/// The changes are shown whole, where there are any.
pub proof fn changes_are_shown(diff: &str, line: String)
    requires
        call_ensures(handle_diff_command, (diff,), line),
        !is_blank(diff@),
    ensures
        ends_with(line@, diff@),
{
    assert(line@.skip(line@.len() - diff@.len()) =~= diff@);
}

/// A search wants a query, a fetch an address, and every argument that is wanted
/// has to say something.
pub proof fn wanted_arguments_are_asked_for(
    text: &str,
    wanted: &'static str,
    checked: Result<(), &'static str>,
    searched: Result<(), &'static str>,
    fetched: Result<(), &'static str>,
)
    requires
        call_ensures(checked_argument, (text, wanted), checked),
        call_ensures(handle_web_search_command, (text,), searched),
        call_ensures(handle_web_fetch_command, (text,), fetched),
    ensures
        checked is Err <==> is_blank(text@),
        searched is Err <==> is_blank(text@),
        fetched is Err <==> is_blank(text@),
        is_blank(text@) ==> checked->Err_0@ == wanted@,
{
}

/// A style that is asked for is named without the white space around it, and
/// none is asked for where nothing is said.
pub proof fn style_is_asked_for_by_name(text: &str, name: Option<String>)
    requires
        call_ensures(requested_style, (text,), name),
    ensures
        name is None <==> is_blank(text@),
        !is_blank(text@) ==> name->0@ == trim(text@),
{
}

/// The menu of settings leads to the theme and to the tips.
pub proof fn menu_leads_to_the_settings(
    choice: Option<&str>,
    action: ConfigAction,
)
    requires
        call_ensures(handle_config_command, (choice,), action),
    ensures
        action is Cancelled <==> choice is None,
        action is Theme <==> choice is Some && choice->0@ == "theme"@,
        action is Tips <==> choice is Some && choice->0@ == "tips"@,
{
    reveal_strlit("theme");
    reveal_strlit("tips");
    assert("theme"@.len() == 5 && "tips"@.len() == 4);
}

/// The session that was chosen is the first of its id; one that is not there is
/// named in the error.
pub proof fn chosen_session_has_the_id(
    ids: Vec<String>,
    chosen: &str,
    place: Result<usize, String>,
)
    requires
        call_ensures(chosen_session, (&ids, chosen), place),
    ensures
        place is Ok <==> exists|k: int| 0 <= k < ids@.len() && (#[trigger] ids@[k])@ == chosen@,
        place matches Ok(at) ==> at < ids@.len() && ids@[at as int]@ == chosen@ && forall|k: int|
            0 <= k < at ==> (#[trigger] ids@[k])@ != chosen@,
        place matches Err(message) ==> ends_with(message@, chosen@),
{
    if place is Ok {
        let at = place->Ok_0 as int;
        assert(ids@[at]@ == chosen@);
    } else {
        let message = place->Err_0@;
        assert(message.skip(message.len() - chosen@.len()) =~= chosen@);
        assert forall|k: int| 0 <= k < ids@.len() implies (#[trigger] ids@[k])@ != chosen@ by {
            assert(texts(ids@)[k] == ids@[k]@);
        }
    }
}

/// The sessions are offered in their order, each by its id and with the last
/// message of the user.
pub proof fn sessions_are_offered(
    sessions: Vec<(String, Option<Vec<Json>>)>,
    choices: Vec<InputChoice>,
    i: int,
)
    requires
        call_ensures(session_options, (&sessions,), choices),
        0 <= i < sessions@.len(),
        crate::text_laws::has_no_margin(sessions@[i].0@),
        sessions@[i].0@.len() > 0 ==> sessions@[i].0@[0] != '/',
    ensures
        choices@.len() == sessions@.len(),
        choices@[i].command@ == sessions@[i].0@,
        sessions@[i].1 matches Some(messages) ==> choices@[i].description@ == trim(
            crate::screen::preview_of(crate::screen::last_user_text(values(messages@)), 48),
        ),
        sessions@[i].1 is None ==> choices@[i].description@ == trim("(failed to load)"@),
{
    let none = Seq::<char>::empty();
    let id = sessions@[i].0@;
    crate::text_laws::trim_takes_off_white_space(none, id, none);
    assert(none + id + none =~= id);
    let views = crate::prompt_input::choice_views(choices@);
    assert(views.len() == choices@.len());
    assert(views[i] == choices@[i]@);
}

/// The models are offered in their order, by their names, and the one that is
/// used is told from the others.
pub proof fn models_are_offered(
    models: Vec<String>,
    current: &str,
    choices: Vec<InputChoice>,
    i: int,
)
    requires
        call_ensures(model_options, (&models, current), choices),
        0 <= i < models@.len(),
        crate::text_laws::has_no_margin(models@[i]@),
        models@[i]@.len() > 0 ==> models@[i]@[0] != '/',
    ensures
        choices@.len() == models@.len(),
        choices@[i].command@ == models@[i]@,
        models@[i]@ == current@ ==> choices@[i].description@ == trim("Current model"@),
        models@[i]@ != current@ ==> choices@[i].description@ == trim("Available model"@),
{
    let none = Seq::<char>::empty();
    let name = models@[i]@;
    crate::text_laws::trim_takes_off_white_space(none, name, none);
    assert(none + name + none =~= name);
    let views = crate::prompt_input::choice_views(choices@);
    assert(views.len() == choices@.len());
    assert(views[i] == choices@[i]@);
}

/// The size of a conversation that was compacted is told.
pub proof fn compacted_size_is_told(tokens: u64, line: String)
    requires
        call_ensures(compact_line, (Some(tokens),), line),
    ensures
        ends_with(line@, decimal(tokens as nat)),
{
    assert(line@.skip(line@.len() - decimal(tokens as nat).len()) =~= decimal(tokens as nat));
}

// ---------------------------------------------------------------------------
// Settings
// ---------------------------------------------------------------------------
/// Settings are read if and only if their file can be read, holds settings and
/// has all that is needed; they are then those of the file.
pub proof fn good_settings_are_read(
    path: &str,
    settings: LLMSettings,
    loaded: Result<LLMSettings, SettingsError<String>>,
    unread: Result<LLMSettings, SettingsError<String>>,
    invalid: Result<LLMSettings, SettingsError<String>>,
)
    requires
        call_ensures(load_settings_from_path, (path, FileContents::Settings(settings)), loaded),
        call_ensures(load_settings_from_path, (path, FileContents::Unreadable), unread),
        call_ensures(load_settings_from_path, (path, FileContents::Invalid), invalid),
    ensures
        loaded matches Ok(found) ==> found == settings,
        loaded is Err <==> crate::api::settings_problem(settings@) is Some,
        unread matches Err(error) && (error matches SettingsError::Unreadable(place) && place@
            == path@),
        invalid matches Err(error) && (error matches SettingsError::Invalid(place) && place@
            == path@),
{
}

/// The settings file is the one in the home directory: it is used where it is
/// there and made where it is not.
pub proof fn settings_file_is_in_the_home_directory(
    home: Seq<char>,
    exists: bool,
    path: Result<Seq<char>, SettingsError<String>>,
    plan: Result<SettingsPlan<Seq<char>>, SettingsError<String>>,
    lost: Result<SettingsPlan<Seq<char>>, SettingsError<String>>,
)
    requires
        call_ensures(resolve_settings_path_with::<Seq<char>>, (Some(home), exists), path),
        call_ensures(ensure_settings_file_with::<Seq<char>>, (Some(home), exists), plan),
        call_ensures(ensure_settings_file_with::<Seq<char>>, (None, exists), lost),
    ensures
        path is Ok <==> exists,
        exists ==> path->Ok_0 == home && (plan matches Ok(SettingsPlan::Use(used)) && used == home),
        !exists ==> (plan matches Ok(SettingsPlan::Create(made)) && made == home),
        lost matches Err(SettingsError::NoHome),
{
}

/// A model is saved with the settings of its provider if and only if it has a
/// name and the file could be read; the name is saved without the white space
/// around it and the other provider keeps its settings.
pub proof fn model_is_saved(
    path: &str,
    known: LLMSettings,
    provider: Provider,
    base_url: &str,
    model: &str,
    saved: Result<LLMSettings, SettingsError<String>>,
)
    requires
        call_ensures(
            persist_model_to_path,
            (path, Some(FileContents::Settings(known)), provider, base_url, model),
            saved,
        ),
    ensures
        saved is Err <==> is_blank(model@),
        saved is Ok && provider == Provider::Ollama ==> saved->Ok_0@.ollama is Some
            && saved->Ok_0@.ollama->0.model == trim(model@) && saved->Ok_0@.openai == known@.openai,
        saved is Ok && provider == Provider::OpenAI ==> saved->Ok_0@.openai is Some
            && saved->Ok_0@.openai->0.model == trim(model@) && saved->Ok_0@.ollama == known@.ollama,
{
}

/// What is written for settings says all of them, each under its name; a
/// provider without settings is null. A new file has the usual place and model
/// of Ollama.
pub proof fn written_settings_say_all(settings: SettingsView)
    ensures
        ({
            let value = crate::api::settings_value(settings);
            let ollama = value.at("ollama"@);
            let openai = value.at("openai"@);
            let first = crate::api::default_settings();
            &&& settings.ollama is None ==> ollama is Null
            &&& settings.ollama matches Some(known) ==> ollama.at("url"@) == JsonView::Text(
                known.url,
            ) && ollama.at("model"@) == JsonView::Text(known.model)
            &&& settings.openai is None ==> openai is Null
            &&& settings.openai matches Some(known) ==> openai.at("base_url"@) == JsonView::Text(
                known.base_url,
            ) && openai.at("api_key"@) == JsonView::Text(known.api_key) && openai.at("model"@)
                == JsonView::Text(known.model)
            &&& first.at("ollama"@).at("url"@) == JsonView::Text("http://localhost:11434"@)
            &&& first.at("ollama"@).at("model"@) == JsonView::Text("qwen3.5:4b"@)
            &&& first.field("openai"@) is None
        }),
{
    reveal_strlit("ollama");
    reveal_strlit("openai");
    reveal_strlit("url");
    reveal_strlit("model");
    reveal_strlit("base_url");
    reveal_strlit("api_key");
    assert("ollama"@[1] == 'l' && "openai"@[1] == 'p');
    assert("url"@.len() == 3 && "model"@.len() == 5 && "base_url"@.len() == 8 && "api_key"@.len()
        == 7);
}

/// What is written for a conversation says the role and the content of each
/// message, in their order.
pub proof fn written_conversation_says_all(messages: Seq<(Seq<char>, Seq<char>)>, i: int)
    requires
        0 <= i < messages.len(),
    ensures
        crate::types::history_value(messages) matches JsonView::Array(list) && list.len()
            == messages.len() && list[i].at("role"@) == JsonView::Text(messages[i].0)
            && list[i].at("content"@) == JsonView::Text(messages[i].1),
{
    lemma_message_keys();
}

/// What has to say something is refused by its name where it does not.
pub proof fn blank_setting_is_named(
    label: &str,
    value: &str,
    checked: Result<(), SettingsError<String>>,
)
    requires
        call_ensures(validate_non_empty, (label, value), checked),
    ensures
        checked is Err <==> is_blank(value@),
        is_blank(value@) ==> (checked->Err_0 matches SettingsError::Empty(name) && name@
            == label@),
{
}

// ---------------------------------------------------------------------------
// Requests and answers
// ---------------------------------------------------------------------------
/// A question is put to the model of the settings as the only message, from the
/// user and whole, with the most tokens that were asked for and without tools.
pub proof fn question_is_put_to_the_model(
    client: LLMClient,
    prompt: &str,
    max_tokens: u32,
    request: HttpRequest,
)
    requires
        call_ensures(
            LLMClient::complete_prompt,
            (&client, prompt, max_tokens),
            Ok::<HttpRequest, ClientError<String>>(request),
        ),
    ensures
        request.body is Some,
        request.body->0@.at("model"@) == JsonView::Text(client@.model),
        request.body->0@.at("messages"@) is Array,
        request.body->0@.at("messages"@)->Array_0.len() == 1,
        request.body->0@.at("messages"@)->Array_0[0].at("role"@) == JsonView::Text("user"@),
        request.body->0@.at("messages"@)->Array_0[0].at("content"@) == JsonView::Text(prompt@),
        request.body->0@.field("tools"@) is None,
{
    lemma_body_keys();
    lemma_message_keys();
    crate::api::question_is_sent_as_asked(prompt@, prompt@);
}

/// The answer to a question is what the provider said, of OpenAI in the first of
/// its choices. Where nothing was said it is empty, and where no answer came it
/// is an error.
pub proof fn answer_is_what_was_said(
    ollama: HttpOutcome<OllamaChatResponse>,
    openai: HttpOutcome<OpenAIChatResponse>,
    one: Result<String, ClientError<String>>,
    other: Result<String, ClientError<String>>,
)
    requires
        call_ensures(complete_prompt_ollama, (ollama,), one),
        call_ensures(complete_prompt_openai, (openai,), other),
    ensures
        one is Ok <==> ollama is Reply,
        ollama matches HttpOutcome::Reply(sent) ==> match sent.message.content {
            Some(text) => one->Ok_0@ == text@,
            None => one->Ok_0@.len() == 0,
        },
        other is Ok <==> openai is Reply && openai->Reply_0.choices@.len() > 0,
        openai matches HttpOutcome::Reply(sent) ==> sent.choices@.len() > 0 ==> match sent.choices@[
            0].message.content {
            Some(text) => other->Ok_0@ == text@,
            None => other->Ok_0@.len() == 0,
        },
{
}

/// The models that the provider has are listed by name, each of them once.
pub proof fn every_model_is_listed_once(
    provider: Provider,
    names: Vec<String>,
    models: Result<Vec<String>, ClientError<String>>,
)
    requires
        call_ensures(listed_models, (provider, HttpOutcome::Reply(names)), models),
    ensures
        models is Ok,
        forall|i: int|
            0 <= i < names@.len() ==> texts(models->Ok_0@).contains((#[trigger] names@[i])@),
        forall|k: int|
            0 <= k < models->Ok_0@.len() ==> texts(names@).contains(
                (#[trigger] models->Ok_0@[k])@,
            ),
        forall|j: int, k: int|
            0 <= j < k < models->Ok_0@.len() ==> crate::order::text_lt(
                (#[trigger] models->Ok_0@[j])@,
                (#[trigger] models->Ok_0@[k])@,
            ),
{
    let list = texts(models->Ok_0@);
    let set = texts(names@).to_set();
    assert forall|i: int| 0 <= i < names@.len() implies list.contains((#[trigger] names@[i])@) by {
        assert(texts(names@)[i] == names@[i]@);
        assert(set.contains(names@[i]@));
    }
    assert forall|k: int| 0 <= k < models->Ok_0@.len() implies texts(names@).contains(
        (#[trigger] models->Ok_0@[k])@,
    ) by {
        assert(list[k] == models->Ok_0@[k]@);
        assert(list.contains(list[k]));
        assert(set.contains(list[k]));
    }
    assert forall|j: int, k: int| 0 <= j < k < models->Ok_0@.len() implies crate::order::text_lt(
        (#[trigger] models->Ok_0@[j])@,
        (#[trigger] models->Ok_0@[k])@,
    ) by {
        assert(list[j] == models->Ok_0@[j]@ && list[k] == models->Ok_0@[k]@);
    }
}

/// What is answered to a request that failed says why.
pub proof fn error_is_answered(error: ApiError, body: Json)
    requires
        call_ensures(ApiError::body, (&error,), body),
    ensures
        body@.at("error"@) == JsonView::Text(error@.1),
{
}

/// The replies of a request are the messages behind those that there were when
/// the loop began.
pub proof fn replies_stand_behind_the_start(flow: MessageFlow, replies: Vec<Json>, i: int)
    requires
        call_ensures(MessageFlow::replies, (&flow,), replies),
        flow@.start <= flow@.messages.len(),
        0 <= i < replies@.len(),
    ensures
        replies@.len() == flow@.messages.len() - flow@.start,
        replies@[i]@ == flow@.messages[flow@.start + i],
{
    assert(values(replies@).len() == replies@.len());
    assert(values(replies@)[i] == replies@[i]@);
}

// ---------------------------------------------------------------------------
// Tools
// ---------------------------------------------------------------------------
/// A tool that is registered is found by its name and gives the result itself;
/// of a name that none has it is said that it is not known.
pub proof fn tool_answers_by_its_name<T: Tool>(
    tools: ToolRegistry<T>,
    name: &str,
    input: Json,
    found: Option<&T>,
    result: Result<String, ToolError<String>>,
)
    requires
        tools.well_formed(),
        call_ensures(ToolRegistry::<T>::lookup, (&tools, name), found),
        call_ensures(ToolRegistry::<T>::execute, (&tools, name, input), result),
    ensures
        found is Some <==> tools@.dom().contains(name@),
        found matches Some(tool) ==> *tool == tools@[name@] && call_ensures(
            T::execute,
            (tool, input),
            result,
        ),
        found is None ==> (result matches Err(ToolError::Unknown(unknown)) && unknown@ == name@),
{
}

} // verus!
