//! What the functions that change something change, and what they leave as it
//! is.
use vstd::prelude::*;

use crate::api::LLMClient;
use crate::commit::{CommitAction, CommitEvent, CommitFlow, CommitStage};
use crate::config::{AppConfig, Theme};
use crate::engine::{due_call, AgentLoop};
use crate::json::{values, Json, JsonView};
use crate::markdown::MarkdownRenderer;
use crate::repl::{handle_command, CommandOutcome};
use crate::repl_commands::{
    configure_theme, configure_tips, handle_manual_compact, handle_output_style_command,
    handle_resume_command, ServerAction, ServerControl, SettingOutcome,
};
use crate::repl_turn::{TurnAction, TurnEvent, TurnFlow};
use crate::server::ServerError;
use crate::server_flow::{FlowAction, FlowEvent, FlowStage, MessageFlow, SessionLocks};
use crate::text::{ascii_lower_text, is_ascii_text, is_blank, trim};
use crate::tools::{may_be_named, Tool, ToolRegistry};
use crate::types::{AgentResponse, ConversationHistory};

verus! {

// ---------------------------------------------------------------------------
// Settings
// ---------------------------------------------------------------------------
/// A model that is set is the one that is used from now on; where the provider
/// is reached, the key and the most tokens stay.
pub proof fn set_model_is_used(client: &mut LLMClient, model: String)
    requires
        call_ensures(LLMClient::set_model, (client, model), ()),
    ensures
        final(client)@.model == model@,
        final(client)@.provider == old(client)@.provider,
        final(client)@.base_url == old(client)@.base_url,
        final(client)@.api_key == old(client)@.api_key,
        final(client)@.max_tokens == old(client)@.max_tokens,
{
}

/// The most tokens that are set are those that are asked for from now on; all
/// the rest stays.
pub proof fn set_tokens_are_asked_for(client: &mut LLMClient, max_tokens: u32)
    requires
        call_ensures(LLMClient::set_max_tokens, (client, max_tokens), ()),
    ensures
        final(client)@.max_tokens == max_tokens,
        final(client)@.provider == old(client)@.provider,
        final(client)@.base_url == old(client)@.base_url,
        final(client)@.api_key == old(client)@.api_key,
        final(client)@.model == old(client)@.model,
{
}

/// The theme that was chosen by its name is set, and nothing else is changed.
/// A choice that there is not, and none, change nothing.
pub proof fn chosen_theme_is_set(
    config: &mut AppConfig,
    choice: Option<&str>,
    outcome: SettingOutcome,
)
    requires
        call_ensures(configure_theme, (config, choice), outcome),
    ensures
        final(config)@.output_style == old(config)@.output_style,
        final(config)@.tips == old(config)@.tips,
        choice is None <==> outcome is Cancelled,
        choice is Some && choice->0@ == "default"@ ==> outcome is Changed && final(config)@.theme
            == Theme::Default,
        choice is Some && choice->0@ == "light"@ ==> outcome is Changed && final(config)@.theme
            == Theme::Light,
        choice is Some && choice->0@ == "dark"@ ==> outcome is Changed && final(config)@.theme
            == Theme::Dark,
        !(outcome is Changed) ==> final(config)@.theme == old(config)@.theme,
        outcome is Changed ==> choice->0@ == "default"@ || choice->0@ == "light"@ || choice->0@
            == "dark"@,
{
    reveal_strlit("default");
    reveal_strlit("light");
    reveal_strlit("dark");
    assert("light"@[0] == 'l' && "dark"@.len() == 4 && "default"@.len() == 7 && "light"@.len()
        == 5);
}

/// The tips are turned on or off as was chosen, and nothing else is changed.
pub proof fn chosen_tips_are_set(
    config: &mut AppConfig,
    choice: Option<&str>,
    outcome: SettingOutcome,
)
    requires
        call_ensures(configure_tips, (config, choice), outcome),
    ensures
        final(config)@.output_style == old(config)@.output_style,
        final(config)@.theme == old(config)@.theme,
        choice is None <==> outcome is Cancelled,
        choice is Some && choice->0@ == "on"@ ==> outcome is Changed && final(config)@.tips,
        choice is Some && choice->0@ == "off"@ ==> outcome is Changed && !final(config)@.tips,
        !(outcome is Changed) ==> final(config)@.tips == old(config)@.tips,
        outcome is Changed ==> choice->0@ == "on"@ || choice->0@ == "off"@,
{
    reveal_strlit("on");
    reveal_strlit("off");
    assert("on"@.len() == 2 && "off"@.len() == 3);
}

/// A style is switched to if and only if it is known; nothing else is changed.
pub proof fn known_style_is_switched_to(
    config: &mut AppConfig,
    name: &str,
    known: bool,
    switched: Result<(), String>,
)
    requires
        call_ensures(handle_output_style_command, (config, name, known), switched),
    ensures
        switched is Ok <==> known,
        known ==> final(config)@.output_style == name@,
        !known ==> final(config)@.output_style == old(config)@.output_style,
        final(config)@.theme == old(config)@.theme,
        final(config)@.tips == old(config)@.tips,
{
}

// ---------------------------------------------------------------------------
// Conversations
// ---------------------------------------------------------------------------
/// A conversation that was compacted takes the place of the one before, message
/// by message; where it could not be, that one stays.
pub proof fn compacted_messages_take_the_place(
    messages: &mut Vec<Json>,
    compacted: Option<Vec<Json>>,
    changed: bool,
    i: int,
)
    requires
        call_ensures(handle_manual_compact, (messages, compacted), changed),
    ensures
        changed <==> compacted is Some,
        compacted matches Some(list) ==> final(messages)@.len() == list@.len() && (0 <= i
            < list@.len() ==> final(messages)@[i]@ == list@[i]@),
        compacted is None ==> final(messages)@.len() == old(messages)@.len() && (0 <= i < old(messages)@.len() ==> final(messages)@[i]@ == old(messages)@[i]@),
{
    let after = values(final(messages)@);
    assert(after.len() == final(messages)@.len());
    if compacted is Some {
        let list = compacted->0;
        assert(values(list@).len() == list@.len());
        if 0 <= i < list@.len() {
            assert(after[i] == final(messages)@[i]@);
            assert(values(list@)[i] == list@[i]@);
        }
    } else {
        assert(values(old(messages)@).len() == old(messages)@.len());
        if 0 <= i < old(messages)@.len() {
            assert(after[i] == final(messages)@[i]@);
            assert(values(old(messages)@)[i] == old(messages)@[i]@);
        }
    }
}

/// A conversation that is resumed is the one that goes on, and as many of its
/// messages are shown as are counted.
pub proof fn resumed_conversation_goes_on(
    messages: &mut Vec<Json>,
    shown: &mut ConversationHistory,
    resumed: Vec<Json>,
    visible: usize,
)
    requires
        call_ensures(handle_resume_command, (messages, shown, resumed), visible),
    ensures
        values(final(messages)@) == values(resumed@),
        final(shown)@ == crate::history::shown_history(values(resumed@)),
        visible == final(shown)@.len(),
{
}

/// Messages of the user and of the assistant are put behind the others, whole;
/// clearing leaves none.
pub proof fn added_messages_stand_behind(
    history: &mut ConversationHistory,
    other: &mut ConversationHistory,
    cleared: &mut ConversationHistory,
    text: &str,
)
    requires
        call_ensures(ConversationHistory::add_user_message, (history, text), ()),
        call_ensures(ConversationHistory::add_assistant_message, (other, text), ()),
        call_ensures(ConversationHistory::clear, (cleared,), ()),
    ensures
        final(history)@ == old(history)@.push(("user"@, text@)),
        final(other)@ == old(other)@.push(("assistant"@, text@)),
        final(cleared)@.len() == 0,
{
}

/// Only clearing changes what is shown, and only leaving ends the prompt, in
/// upper case and lower case alike.
pub proof fn only_clearing_changes_the_history(
    command: &str,
    history: &mut ConversationHistory,
    version: &str,
    outcome: CommandOutcome,
)
    requires
        call_ensures(handle_command, (command, history, version), outcome),
        is_ascii_text(command@),
    ensures
        ascii_lower_text(command@) == "/clear"@ ==> final(history)@.len() == 0,
        ascii_lower_text(command@) != "/clear"@ ==> final(history)@ == old(history)@,
        outcome.exit <==> ascii_lower_text(command@) == "/exit"@ || ascii_lower_text(command@)
            == "/quit"@,
{
}

// ---------------------------------------------------------------------------
// Courses
// ---------------------------------------------------------------------------
/// A reply that stops for tools and calls one at least, be it a single one, does
/// not end the loop: its first call is due. Every other reply ends the loop with
/// its text. Either way the reply joins the conversation behind the rest.
pub proof fn reply_is_taken(
    agent: &mut AgentLoop,
    messages: &mut Vec<Json>,
    reply: AgentResponse,
    end: Option<String>,
)
    requires
        old(agent).well_formed(),
        old(agent)@.reply is None,
        call_ensures(AgentLoop::take_reply, (agent, messages, reply), end),
    ensures
        end is None <==> reply.stop_reason@ == "tool_use"@ && reply.tool_uses@.len() >= 1,
        reply.stop_reason@ == "tool_use"@ && reply.tool_uses@.len() >= 1 ==> due_call(
            final(agent)@,
        ) == Some(reply.tool_uses@[0]@),
        end matches Some(text) ==> text@ == reply.text@ && due_call(final(agent)@) is None,
        final(messages)@.len() == old(messages)@.len() + 1,
        final(messages)@.last()@.at("role"@) == JsonView::Text("assistant"@),
        final(messages)@.last()@.at("content"@) == JsonView::Text(reply.text@),
{
}

/// As long as calls are left the next one is due; with the last result all of
/// them join the conversation, as many as there were calls, and none is due.
pub proof fn result_is_taken(
    agent: &mut AgentLoop,
    messages: &mut Vec<Json>,
    outcome: Result<String, String>,
)
    requires
        old(agent).well_formed(),
        old(agent)@.reply is Some,
        call_ensures(AgentLoop::take_outcome, (agent, messages, outcome), ()),
    ensures
        ({
            let calls = old(agent)@.reply->0.tool_uses;
            let next = old(agent)@.results.len() + 1;
            &&& next < calls.len() ==> due_call(final(agent)@) == Some(calls[next as int])
                && final(messages)@.len() == old(messages)@.len()
            &&& next == calls.len() ==> due_call(final(agent)@) is None && final(messages)@.len()
                == old(messages)@.len() + calls.len()
        }),
{
}

/// The message that was agreed on is the one that is committed: the edited one,
/// without the white space around it, or else the suggested one, at once where
/// changes are staged and after staging all of them where none are.
pub proof fn agreed_message_is_committed(
    flow: &mut CommitFlow,
    event: CommitEvent<String>,
    action: CommitAction<String>,
    message: Seq<char>,
)
    requires
        crate::commit::fits(old(flow)@.stage, event),
        call_ensures(CommitFlow::handle_commit_command, (flow, event), action),
        (event matches CommitEvent::Edited(text) && !is_blank(text@) && message == trim(text@)) || (
        event matches CommitEvent::Choice(Some(choice)) && choice@ == "yes"@ && message == old(flow)@.message),
    ensures
        final(flow)@.message == message,
        old(flow)@.staged ==> (action matches CommitAction::Commit(text) && text@ == message),
        !old(flow)@.staged ==> action is StageAll && final(flow)@.stage == CommitStage::Stage,
{
}

/// Once all changes are staged, the message that was agreed on is committed.
pub proof fn staged_changes_are_committed(
    flow: &mut CommitFlow,
    action: CommitAction<String>,
)
    requires
        old(flow)@.stage == CommitStage::Stage,
        call_ensures(CommitFlow::handle_commit_command, (flow, CommitEvent::Done), action),
    ensures
        action matches CommitAction::Commit(text) && text@ == old(flow)@.message,
        final(flow)@.message == old(flow)@.message,
{
}

/// What the agent loop said is what a request is answered, for its session and
/// with the model.
pub proof fn request_is_answered(
    flow: &mut MessageFlow,
    action: FlowAction<String>,
)
    requires
        old(flow)@.stage == FlowStage::StoreReplies,
        call_ensures(MessageFlow::process_message, (flow, FlowEvent::Done), action),
    ensures
        action matches FlowAction::Answer { session_id, reply, model } && session_id@ == old(flow)@.session_id && reply@ == old(flow)@.reply && model@ == old(flow)@.model,
{
}

/// A turn begins with the message of the user, whole, behind the conversation
/// and behind what is shown of it.
pub proof fn turn_takes_the_message(
    messages: &mut Vec<Json>,
    shown: &mut ConversationHistory,
    input: &str,
    has_session: bool,
    made: (TurnFlow, TurnAction<String>),
)
    requires
        call_ensures(TurnFlow::begin, (messages, shown, input, has_session), made),
    ensures
        final(messages)@.len() == old(messages)@.len() + 1,
        final(messages)@.last()@.at("role"@) == JsonView::Text("user"@),
        final(messages)@.last()@.at("content"@) == JsonView::Text(input@),
        final(shown)@ == old(shown)@.push(("user"@, input@)),
        has_session <==> made.1 is StoreMessage,
{
}

/// A turn changes the conversation only where that was compacted.
pub proof fn turn_keeps_the_conversation(
    flow: &mut TurnFlow,
    messages: &mut Vec<Json>,
    shown: &mut ConversationHistory,
    event: TurnEvent<String, Vec<Json>>,
    action: TurnAction<String>,
)
    requires
        crate::repl_turn::fits(old(flow).stage(), event),
        call_ensures(TurnFlow::run_user_turn, (flow, messages, shown, event), action),
        !(event is Compacted),
    ensures
        values(final(messages)@) == values(old(messages)@),
{
}

// ---------------------------------------------------------------------------
// The server, sessions and tools
// ---------------------------------------------------------------------------
/// A server that was started is known by its place, and one that stopped is
/// known no more.
pub proof fn server_is_known_while_it_runs(
    control: &mut ServerControl,
    other: &mut ServerControl,
    address: &str,
    error: Option<&str>,
    line: String,
    news: String,
)
    requires
        call_ensures(ServerControl::started, (control, address), line),
        call_ensures(ServerControl::reaped, (other, error), news),
    ensures
        final(control)@ == Some(address@),
        crate::command_laws::ends_with(line@, address@),
        final(other)@ is None,
        error matches Some(message) ==> crate::command_laws::ends_with(news@, message@),
{
    assert(line@.skip(line@.len() - address@.len()) =~= address@);
    if error is Some {
        let message = error->0@;
        assert(news@.skip(news@.len() - message.len()) =~= message);
    }
}

/// A command to the server makes it forgotten if and only if it is to be stopped,
/// which it is only where one runs. What cannot be read changes nothing.
pub proof fn stopped_server_is_forgotten(
    control: &mut ServerControl,
    args: &str,
    action: Result<ServerAction, ServerError>,
)
    requires
        call_ensures(ServerControl::handle_server_command, (control, args), action),
    ensures
        (action matches Ok(ServerAction::Stop)) ==> old(control)@ is Some && final(control)@ is None,
        !(action matches Ok(ServerAction::Stop)) ==> final(control)@ == old(control)@,
        (action matches Ok(ServerAction::Start(_))) ==> old(control)@ is None,
{
}

/// A session has one lock, whoever asks for it and however often; the locks of
/// other sessions stay where they are.
pub proof fn session_keeps_its_lock(
    locks: &mut SessionLocks,
    id: &str,
    place: usize,
    i: int,
)
    requires
        old(locks).well_formed(),
        call_ensures(SessionLocks::session_lock, (locks, id), place),
        0 <= i < old(locks)@.len(),
    ensures
        final(locks)@[i] == old(locks)@[i],
        final(locks)@[place as int] == id@,
        old(locks)@[i] == id@ ==> place == i,
        final(locks)@.len() == old(locks)@.len() + if old(locks)@.contains(id@) {
            0int
        } else {
            1
        },
{
    if old(locks)@[i] == id@ {
        assert(final(locks)@[i] == final(locks)@[place as int]);
        if place < i {
            assert(final(locks)@[place as int] != final(locks)@[i]);
        } else if i < place {
            assert(final(locks)@[i] != final(locks)@[place as int]);
        }
    }
}

/// A tool that is registered is there under a name that it gave; the tools of
/// other names stay.
pub proof fn registered_tool_is_there<T: Tool>(tools: &mut ToolRegistry<T>, tool: T)
    requires
        old(tools).well_formed(),
        call_ensures(ToolRegistry::<T>::register, (tools, tool), ()),
    ensures
        exists|name: Seq<char>|
            {
                &&& #[trigger] may_be_named(tool, name)
                &&& final(tools)@.dom().contains(name)
                &&& final(tools)@[name] == tool
                &&& forall|other: Seq<char>|
                    other != name ==> (#[trigger] final(tools)@.dom().contains(other)
                        <==> old(tools)@.dom().contains(other))
                &&& forall|other: Seq<char>| #[trigger]
                    old(tools)@.dom().contains(other) && other != name ==> final(tools)@[other]
                        == old(tools)@[other]
            },
{
    let name = choose|name: Seq<char>| #[trigger]
        may_be_named(tool, name) && final(tools)@ == old(tools)@.insert(name, tool);
    assert(may_be_named(tool, name));
}

// ---------------------------------------------------------------------------
// Text in pieces
// ---------------------------------------------------------------------------
/// Nothing of a text that comes in pieces is lost: what is complete and what is
/// left are what was left and what came, and what is left has no complete line.
pub proof fn pieces_are_kept(
    renderer: &mut MarkdownRenderer,
    chunk: &str,
    complete: Option<String>,
)
    requires
        call_ensures(MarkdownRenderer::take_complete, (renderer, chunk), complete),
    ensures
        complete matches Some(text) ==> text@ + final(renderer).pending() == old(renderer).pending() + chunk@ && text@.len() > 0 && text@.last() == '\n',
        complete is None ==> final(renderer).pending() == old(renderer).pending() + chunk@,
        !final(renderer).pending().contains('\n'),
{
    let all = old(renderer).pending() + chunk@;
    let end = crate::markdown::lines_end(all) as int;
    crate::markdown::lemma_lines_end(all);
    if complete is None {
        assert(all.skip(0) =~= all);
    }
}

/// At the end what is left comes out, whole, and nothing is left.
pub proof fn rest_comes_out(renderer: &mut MarkdownRenderer, rest: Option<String>)
    requires
        call_ensures(MarkdownRenderer::take_rest, (renderer,), rest),
    ensures
        old(renderer).pending().len() == 0 <==> rest is None,
        rest matches Some(text) ==> text@ == old(renderer).pending(),
        final(renderer).pending().len() == 0,
{
}

} // verus!
