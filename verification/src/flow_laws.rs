//! What a message comes to on its way through the server and through a turn at
//! the prompt, step by step.
use vstd::prelude::*;

use crate::engine::{lemma_message_keys, user_message};
use crate::history::{shown_history, visible_count};
use crate::json::JsonView;
use crate::repl_turn::{next_turn, turn_start, TurnAction, TurnEvent, TurnStage, TurnView};
use crate::server_flow::{
    first_step, flow_start, next_step, FlowAction, FlowEvent, FlowStage, FlowView, RequestView,
};
use crate::text::{is_blank, trim};

verus! {

// ---------------------------------------------------------------------------
// Messages of the user
// ---------------------------------------------------------------------------
/// A message of the user says what the user said, and that it was the user.
pub proof fn user_message_says_it(text: Seq<char>)
    ensures
        user_message(text).at("role"@) == JsonView::Text("user"@),
        user_message(text).at("content"@) == JsonView::Text(text),
{
    lemma_message_keys();
}

// ---------------------------------------------------------------------------
// The server
// ---------------------------------------------------------------------------
/// A request that is not blank is taken up with the message, the session and
/// the style that it names, each without the white space around it; a session
/// or a style of nothing but white space is none. A session that is named is
/// opened, and one is made only where none is named.
pub proof fn request_is_taken_up(request: RequestView)
    requires
        !is_blank(request.message),
    ensures
        ({
            let start = flow_start(request);
            let names_session = request.session_id is Some && !is_blank(request.session_id->0);
            let names_style = request.output_style is Some && !is_blank(request.output_style->0);
            &&& start.stage == FlowStage::Session
            &&& start.message == trim(request.message)
            &&& start.messages.len() == 0
            &&& names_session ==> start.wanted_session == Some(trim(request.session_id->0))
                && first_step(request) == FlowAction::LoadSession(trim(request.session_id->0))
            &&& !names_session ==> start.wanted_session is None && first_step(request)
                is CreateSession
            &&& names_style ==> start.wanted_style == Some(trim(request.output_style->0))
            &&& !names_style ==> start.wanted_style is None
        }),
{
}

/// The lock of the session that was opened is taken before anything of it is
/// read. Then the messages of a session that was named are read, and those of a
/// new one, which has none, are not.
pub proof fn session_is_locked_before_it_is_read(state: FlowView, id: Seq<char>)
    ensures
        ({
            let (opened, first) = next_step(state, FlowEvent::Session(id));
            let (locked, second) = next_step(opened, FlowEvent::Locked);
            &&& first == FlowAction::TakeLock(id)
            &&& opened.session_id == id && opened.stage == FlowStage::Lock
            &&& state.wanted_session is Some ==> second is LoadMessages && locked.stage
                == FlowStage::Messages
            &&& state.wanted_session is None ==> second is BuildClient && locked.stage
                == FlowStage::Client
            &&& locked.messages == state.messages && locked.session_id == id
        }),
{
}

/// The messages that were read are the conversation, as they are.
pub proof fn stored_messages_are_taken_over(state: FlowView, messages: Seq<JsonView>)
    ensures
        ({
            let (next, action) = next_step(state, FlowEvent::Messages(messages));
            next.messages == messages && next.session_id == state.session_id && action
                is BuildClient && next.stage == FlowStage::Client
        }),
{
}

/// The client and the tools are set up and the configuration is read, in this
/// order; the model is the one of the client. The style is then the one that
/// was asked for, or that of the configuration where none was, and it is looked
/// up before it is used.
pub proof fn style_is_found_and_looked_up(
    state: FlowView,
    model: Seq<char>,
    default: Seq<char>,
)
    ensures
        ({
            let (client, first) = next_step(state, FlowEvent::Client(model));
            let (tools, second) = next_step(client, FlowEvent::Done);
            let (styled, third) = next_step(tools, FlowEvent::Config(default));
            let style = match state.wanted_style {
                Some(style) => style,
                None => default,
            };
            &&& first is BuildRegistry && client.model == model
            &&& second is LoadConfig && tools.model == model
            &&& third == FlowAction::CheckStyle(style)
            &&& styled.style == style && styled.model == model && styled.messages
                == state.messages && styled.session_id == state.session_id
        }),
{
}

/// A style that is not known is refused as a bad request that names it; one that
/// is known goes into the system prompt, with the number of messages that the
/// user and the assistant have spoken.
pub proof fn unknown_style_is_refused(state: FlowView)
    ensures
        ({
            let (known, prompt) = next_step(state, FlowEvent::StyleKnown(true));
            let (unknown, refusal) = next_step(state, FlowEvent::StyleKnown(false));
            &&& refusal == (FlowAction::Refuse {
                status: 400,
                message: "unknown output style: "@ + state.style,
            })
            &&& unknown.stage == FlowStage::Over
            &&& prompt == (FlowAction::BuildPrompt {
                visible: visible_count(state.messages) as usize,
                style: state.style,
            })
            &&& known.stage == FlowStage::Prompt && known.messages == state.messages
        }),
{
}

/// The message of the user joins the conversation behind all that was said, and
/// is stored before the agent loop runs on the whole of it.
pub proof fn message_joins_the_conversation(state: FlowView)
    requires
        state.stage == FlowStage::Prompt,
    ensures
        ({
            let (stored, first) = next_step(state, FlowEvent::Done);
            let (run, second) = next_step(stored, FlowEvent::Done);
            &&& first is StoreMessage
            &&& stored.messages.len() == state.messages.len() + 1
            &&& stored.messages.take(state.messages.len() as int) == state.messages
            &&& stored.messages.last().at("role"@) == JsonView::Text("user"@)
            &&& stored.messages.last().at("content"@) == JsonView::Text(state.message)
            &&& second is RunAgent
            &&& run.messages == stored.messages
            &&& run.start == run.messages.len()
        }),
{
    user_message_says_it(state.message);
    let stored = next_step(state, FlowEvent::Done).0;
    assert(stored.messages.take(state.messages.len() as int) =~= state.messages);
}

/// What the agent loop ended with is the answer, after all that it added behind
/// the conversation was stored; the answer is for the session that was opened
/// and names the model that spoke.
pub proof fn reply_of_the_loop_is_the_answer(
    state: FlowView,
    reply: Seq<char>,
    added: Seq<JsonView>,
)
    requires
        state.stage == FlowStage::Agent,
        state.start == state.messages.len(),
    ensures
        ({
            let messages = state.messages + added;
            let (stored, first) = next_step(state, FlowEvent::Finished { reply, messages });
            let (last, second) = next_step(stored, FlowEvent::Done);
            &&& first is StoreReplies
            &&& stored.messages.skip(stored.start as int) == added
            &&& second == (FlowAction::Answer {
                session_id: state.session_id,
                reply,
                model: state.model,
            })
            &&& last.stage == FlowStage::Over
        }),
{
    assert((state.messages + added).skip(state.messages.len() as int) =~= added);
}

/// A step that failed is answered with its message: as not found where it was to
/// open a session that was named, and as trouble of the server else. Nothing
/// follows.
pub proof fn failed_step_is_answered(state: FlowView, message: Seq<char>)
    ensures
        ({
            let (next, action) = next_step(state, FlowEvent::Failed(message));
            &&& next.stage == FlowStage::Over
            &&& state.stage == FlowStage::Session && state.wanted_session is Some ==> action == (
            FlowAction::Refuse { status: 404, message })
            &&& !(state.stage == FlowStage::Session && state.wanted_session is Some) ==> action
                == (FlowAction::Refuse { status: 500, message })
        }),
{
}

// ---------------------------------------------------------------------------
// A turn at the prompt
// ---------------------------------------------------------------------------
/// A turn begins with the message of the user behind all that was said, and
/// shows it. It is stored first of all, in a session that is made where there
/// is none.
pub proof fn turn_begins_with_the_message(
    messages: Seq<JsonView>,
    shown: Seq<(Seq<char>, Seq<char>)>,
    input: Seq<char>,
    has_session: bool,
)
    ensures
        ({
            let (state, action) = turn_start(messages, shown, input, has_session);
            let (made, behind) = next_turn(state, TurnEvent::Done);
            &&& state.messages.len() == messages.len() + 1
            &&& state.messages.take(messages.len() as int) == messages
            &&& state.messages.last().at("role"@) == JsonView::Text("user"@)
            &&& state.messages.last().at("content"@) == JsonView::Text(input)
            &&& state.shown == shown.push(("user"@, input))
            &&& state.failure is None
            &&& has_session ==> action is StoreMessage && behind is Compact
            &&& !has_session ==> action is CreateSession && behind is StoreMessage
            &&& made.messages == state.messages
        }),
{
    user_message_says_it(input);
    let state = turn_start(messages, shown, input, has_session).0;
    assert(state.messages.take(messages.len() as int) =~= messages);
}

/// A conversation that was compacted is taken over as it came, stored as a whole
/// and shown anew; one that was not stays as it is, and so does what is shown.
/// Either way the prompt is built next, for the conversation as it then stands.
pub proof fn compacted_conversation_is_taken_over(state: TurnView, compacted: Seq<JsonView>)
    requires
        state.stage == TurnStage::Compaction,
    ensures
        ({
            let (taken, first) = next_turn(state, TurnEvent::Compacted(Some(compacted)));
            let (stored, second) = next_turn(taken, TurnEvent::Done);
            let (kept, third) = next_turn(state, TurnEvent::Compacted(None));
            &&& first is StoreAll && taken.messages == compacted
            &&& second is BuildPrompt && stored.messages == compacted && stored.start
                == compacted.len() && stored.shown == shown_history(compacted)
            &&& third is BuildPrompt && kept.messages == state.messages && kept.start
                == state.messages.len() && kept.shown == state.shown
        }),
{
}

/// After the prompt the agent loop runs, what it added is stored, what is shown
/// is made from the whole conversation, memories are taken out of it, the skill
/// is cleared, and the turn is over; nothing of the conversation changes on the
/// way.
pub proof fn turn_runs_to_its_end(state: TurnView)
    requires
        state.stage == TurnStage::Prompt,
        state.failure is None,
    ensures
        ({
            let (s1, a1) = next_turn(state, TurnEvent::Done);
            let (s2, a2) = next_turn(s1, TurnEvent::Done);
            let (s3, a3) = next_turn(s2, TurnEvent::Done);
            let (s4, a4) = next_turn(s3, TurnEvent::Done);
            let (s5, a5) = next_turn(s4, TurnEvent::Done);
            &&& a1 is RunAgent && s1.start == state.start
            &&& a2 is StoreReplies && s2.start == state.start
            &&& a3 is SaveMemories && s3.shown == shown_history(state.messages)
            &&& a4 is ClearSkill
            &&& a5 is Finish && s5.stage == TurnStage::Over
            &&& s5.messages == state.messages && s5.shown == shown_history(state.messages)
        }),
{
}

/// Whatever fails in a turn ends it with that very message, and the conversation
/// stays. What is shown changes only where the agent loop failed, and is then
/// what the conversation holds.
pub proof fn failed_turn_keeps_the_conversation(state: TurnView, message: Seq<char>)
    ensures
        ({
            let (failed, first) = next_turn(state, TurnEvent::Failed(message));
            let (over, second) = next_turn(failed, TurnEvent::Done);
            &&& first is ClearSkill
            &&& second == TurnAction::Fail(message)
            &&& over.messages == state.messages
            &&& state.stage != TurnStage::Agent ==> over.shown == state.shown
            &&& state.stage == TurnStage::Agent ==> over.shown == shown_history(state.messages)
        }),
{
}

// ---------------------------------------------------------------------------
// What is shown
// ---------------------------------------------------------------------------
/// Of a conversation that grows by a message, what is shown grows by it if and
/// only if the user or the assistant spoke it: by the role and the content, which
/// is empty where it is no text. What was shown stays in its place, and the
/// number of spoken messages grows likewise.
pub proof fn spoken_messages_are_shown(messages: Seq<JsonView>, message: JsonView)
    ensures
        ({
            let role = message.text_at("role"@);
            let content = match message.text_at("content"@) {
                Some(text) => text,
                None => Seq::empty(),
            };
            let spoken = role == Some("user"@) || role == Some("assistant"@);
            &&& spoken ==> shown_history(messages.push(message)) == shown_history(messages).push(
                (role->0, content),
            ) && visible_count(messages.push(message)) == visible_count(messages) + 1
            &&& !spoken ==> shown_history(messages.push(message)) == shown_history(messages)
                && visible_count(messages.push(message)) == visible_count(messages)
            &&& shown_history(Seq::empty()).len() == 0 && visible_count(Seq::empty()) == 0
        }),
{
    assert(messages.push(message).drop_last() =~= messages);
}

/// A turn in which the assistant only answers shows the message and the answer
/// behind what was shown.
pub proof fn answer_is_shown_behind_the_message(
    messages: Seq<JsonView>,
    input: Seq<char>,
    answer: JsonView,
)
    requires
        answer.text_at("role"@) == Some("assistant"@),
        answer.text_at("content"@) is Some,
    ensures
        shown_history(messages.push(user_message(input)).push(answer)) == shown_history(
            messages,
        ).push(("user"@, input)).push(("assistant"@, answer.text_at("content"@)->0)),
{
    user_message_says_it(input);
    spoken_messages_are_shown(messages, user_message(input));
    spoken_messages_are_shown(messages.push(user_message(input)), answer);
}

} // verus!
