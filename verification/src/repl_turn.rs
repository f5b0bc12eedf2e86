//! A turn at the prompt: the user's message goes to the model, and the
//! conversation goes on.
//!
//! Stored sessions and the model are reached from outside. `TurnFlow` says
//! what is to be done next and keeps the conversation and what is shown of it.
use vstd::prelude::*;

use crate::engine::{build_user_message, user_message};
use crate::history::{rebuild_display_history, shown_history};
use crate::json::{lemma_values_push, values, Json, JsonView};
use crate::types::{opt_text, ConversationHistory};

verus! {

/// What is to be done next in a turn, over a type of text.
pub enum TurnAction<T> {
    /// Make a session for the conversation.
    CreateSession,
    /// Store the last message of the conversation.
    StoreMessage,
    /// Compact the conversation, where it has become too long.
    Compact,
    /// Store the whole conversation in place of what is stored.
    StoreAll,
    /// Build the system prompt.
    BuildPrompt,
    /// Run the agent loop on the conversation.
    RunAgent,
    /// Store what the agent loop added.
    StoreReplies,
    /// Have memories taken out of the conversation.
    SaveMemories,
    /// See to it that no skill is active any more.
    ClearSkill,
    /// The turn is over.
    Finish,
    /// The turn is over and failed, with this message.
    Fail(T),
}

/// What came of the last step, over a type of text and of message lists.
pub enum TurnEvent<T, M> {
    /// What was to be done is done.
    Done,
    /// The conversation was compacted to these messages, or not at all.
    Compacted(Option<M>),
    /// It failed, with this message.
    Failed(T),
}

/// How far a turn has come: what it waits for.
#[derive(Debug, Clone, Copy, PartialEq, Eq, Structural)]
pub enum TurnStage {
    Session,
    Message,
    Compaction,
    Compacted,
    Prompt,
    Agent,
    Replies,
    Memories,
    Clearing,
    Over,
}

/// Where a turn stands: the conversation, what is shown of it, how long it was
/// before the agent loop, and what failed, if something did.
pub struct TurnView {
    pub stage: TurnStage,
    pub messages: Seq<JsonView>,
    pub shown: Seq<(Seq<char>, Seq<char>)>,
    pub start: nat,
    pub failure: Option<Seq<char>>,
}

/// The characters of an action's text.
pub open spec fn action_view(action: TurnAction<String>) -> TurnAction<Seq<char>> {
    match action {
        TurnAction::CreateSession => TurnAction::CreateSession,
        TurnAction::StoreMessage => TurnAction::StoreMessage,
        TurnAction::Compact => TurnAction::Compact,
        TurnAction::StoreAll => TurnAction::StoreAll,
        TurnAction::BuildPrompt => TurnAction::BuildPrompt,
        TurnAction::RunAgent => TurnAction::RunAgent,
        TurnAction::StoreReplies => TurnAction::StoreReplies,
        TurnAction::SaveMemories => TurnAction::SaveMemories,
        TurnAction::ClearSkill => TurnAction::ClearSkill,
        TurnAction::Finish => TurnAction::Finish,
        TurnAction::Fail(message) => TurnAction::Fail(message@),
    }
}

/// What an event's text and messages are.
pub open spec fn event_view(event: TurnEvent<String, Vec<Json>>) -> TurnEvent<
    Seq<char>,
    Seq<JsonView>,
> {
    match event {
        TurnEvent::Done => TurnEvent::Done,
        TurnEvent::Compacted(Some(messages)) => TurnEvent::Compacted(Some(values(messages@))),
        TurnEvent::Compacted(None) => TurnEvent::Compacted(None),
        TurnEvent::Failed(message) => TurnEvent::Failed(message@),
    }
}

/// A turn that begins: the message has joined the conversation and is shown.
pub open spec fn turn_start(
    messages: Seq<JsonView>,
    shown: Seq<(Seq<char>, Seq<char>)>,
    input: Seq<char>,
    has_session: bool,
) -> (TurnView, TurnAction<Seq<char>>) {
    (
        TurnView {
            stage: if has_session {
                TurnStage::Message
            } else {
                TurnStage::Session
            },
            messages: messages.push(user_message(input)),
            shown: shown.push(("user"@, input)),
            start: 0,
            failure: None,
        },
        if has_session {
            TurnAction::StoreMessage
        } else {
            TurnAction::CreateSession
        },
    )
}

/// Whether the event can come of what the turn waits for. Having memories
/// taken out and clearing the skill do not fail.
pub open spec fn fits<T, M>(stage: TurnStage, event: TurnEvent<T, M>) -> bool {
    match event {
        TurnEvent::Done => stage != TurnStage::Compaction && stage != TurnStage::Over,
        TurnEvent::Compacted(_) => stage == TurnStage::Compaction,
        TurnEvent::Failed(_) => stage != TurnStage::Memories && stage != TurnStage::Clearing
            && stage != TurnStage::Over,
    }
}

/// The turn after an event that fits, and what is to be done next. What is
/// shown is made anew from the conversation when that was compacted, and when
/// the agent loop is over, whether it went well or not. Before the turn is
/// over, whether it went well or not, the skill is cleared.
pub open spec fn next_turn(
    state: TurnView,
    event: TurnEvent<Seq<char>, Seq<JsonView>>,
) -> (TurnView, TurnAction<Seq<char>>) {
    let anew = shown_history(state.messages);
    match event {
        TurnEvent::Done => match state.stage {
            TurnStage::Session => (
                TurnView { stage: TurnStage::Message, ..state },
                TurnAction::StoreMessage,
            ),
            TurnStage::Message => (
                TurnView { stage: TurnStage::Compaction, ..state },
                TurnAction::Compact,
            ),
            TurnStage::Compacted => (
                TurnView {
                    stage: TurnStage::Prompt,
                    shown: anew,
                    start: state.messages.len(),
                    ..state
                },
                TurnAction::BuildPrompt,
            ),
            TurnStage::Prompt => (
                TurnView { stage: TurnStage::Agent, ..state },
                TurnAction::RunAgent,
            ),
            TurnStage::Agent => (
                TurnView { stage: TurnStage::Replies, ..state },
                TurnAction::StoreReplies,
            ),
            TurnStage::Replies => (
                TurnView { stage: TurnStage::Memories, shown: anew, ..state },
                TurnAction::SaveMemories,
            ),
            TurnStage::Memories => (
                TurnView { stage: TurnStage::Clearing, ..state },
                TurnAction::ClearSkill,
            ),
            _ => (
                TurnView { stage: TurnStage::Over, ..state },
                match state.failure {
                    Some(message) => TurnAction::Fail(message),
                    None => TurnAction::Finish,
                },
            ),
        },
        TurnEvent::Compacted(Some(messages)) => (
            TurnView { stage: TurnStage::Compacted, messages, ..state },
            TurnAction::StoreAll,
        ),
        TurnEvent::Compacted(None) => (
            TurnView { stage: TurnStage::Prompt, start: state.messages.len(), ..state },
            TurnAction::BuildPrompt,
        ),
        TurnEvent::Failed(message) => (
            TurnView {
                stage: TurnStage::Clearing,
                shown: if state.stage == TurnStage::Agent {
                    anew
                } else {
                    state.shown
                },
                failure: Some(message),
                ..state
            },
            TurnAction::ClearSkill,
        ),
    }
}

/// The course of a turn.
pub struct TurnFlow {
    stage: TurnStage,
    start: usize,
    failure: Option<String>,
}

impl TurnFlow {
    /// Where the turn stands, with the conversation and what is shown of it.
    pub open spec fn state(
        &self,
        messages: Seq<JsonView>,
        shown: Seq<(Seq<char>, Seq<char>)>,
    ) -> TurnView {
        TurnView {
            stage: self.stage(),
            messages,
            shown,
            start: self.start(),
            failure: self.failure(),
        }
    }

    /// What the turn waits for.
    pub closed spec fn stage(&self) -> TurnStage {
        self.stage
    }

    /// How long the conversation was before the agent loop.
    pub closed spec fn start(&self) -> nat {
        self.start as nat
    }

    /// What failed, if something did.
    pub closed spec fn failure(&self) -> Option<Seq<char>> {
        opt_text(self.failure)
    }

    /// How long the conversation was before the agent loop.
    pub fn loop_start(&self) -> (start: usize)
        ensures
            start == self.start(),
    {
        self.start
    }

    /// Takes the message of the user and says what is to be done first. The
    /// conversation and what is shown of it stay with the caller, where the
    /// agent loop adds to them.
    pub fn begin(
        messages: &mut Vec<Json>,
        shown: &mut ConversationHistory,
        input: &str,
        has_session: bool,
    ) -> (made: (TurnFlow, TurnAction<String>))
        ensures
            (
                made.0.state(values(final(messages)@), final(shown)@),
                action_view(made.1),
            ) == turn_start(values(old(messages)@), old(shown)@, input@, has_session),
            final(messages)@.len() == old(messages)@.len() + 1,
            values(final(messages)@).drop_last() == values(old(messages)@),
            final(messages)@.last()@.at("role"@) == JsonView::Text("user"@),
            final(messages)@.last()@.at("content"@) == JsonView::Text(input@),
            final(shown)@ == old(shown)@.push(("user"@, input@)),
            has_session ==> made.1 is StoreMessage,
            !has_session ==> made.1 is CreateSession,
    {
        let message: Json = build_user_message(input);
        proof {
            lemma_values_push(messages@, message);
        }
        messages.push(message);
        shown.add_user_message(input);
        if has_session {
            (
                TurnFlow { stage: TurnStage::Message, start: 0, failure: None },
                TurnAction::StoreMessage,
            )
        } else {
            (
                TurnFlow { stage: TurnStage::Session, start: 0, failure: None },
                TurnAction::CreateSession,
            )
        }
    }

    /// Takes what came of the last step and says what is to be done next.
    pub fn run_user_turn(
        &mut self,
        messages: &mut Vec<Json>,
        shown: &mut ConversationHistory,
        event: TurnEvent<String, Vec<Json>>,
    ) -> (action: TurnAction<String>)
        requires
            fits(old(self).stage(), event),
        ensures
            (
                final(self).state(values(final(messages)@), final(shown)@),
                action_view(action),
            ) == next_turn(
                old(self).state(values(old(messages)@), old(shown)@),
                event_view(event),
            ),
            event matches TurnEvent::Compacted(Some(compacted)) ==> values(final(messages)@)
                == values(compacted@),
            !(event matches TurnEvent::Compacted(Some(_))) ==> values(final(messages)@) == values(
                old(messages)@,
            ),
            action matches TurnAction::Fail(message) ==> old(self).failure() == Some(message@),
            event matches TurnEvent::Failed(message) ==> final(self).failure() == Some(message@)
                && action is ClearSkill,
    {
        match event {
            TurnEvent::Done => match self.stage {
                TurnStage::Session => {
                    self.stage = TurnStage::Message;
                    TurnAction::StoreMessage
                },
                TurnStage::Message => {
                    self.stage = TurnStage::Compaction;
                    TurnAction::Compact
                },
                TurnStage::Compacted => {
                    self.stage = TurnStage::Prompt;
                    self.start = messages.len();
                    *shown = rebuild_display_history(messages);
                    TurnAction::BuildPrompt
                },
                TurnStage::Prompt => {
                    self.stage = TurnStage::Agent;
                    TurnAction::RunAgent
                },
                TurnStage::Agent => {
                    self.stage = TurnStage::Replies;
                    TurnAction::StoreReplies
                },
                TurnStage::Replies => {
                    self.stage = TurnStage::Memories;
                    *shown = rebuild_display_history(messages);
                    TurnAction::SaveMemories
                },
                TurnStage::Memories => {
                    self.stage = TurnStage::Clearing;
                    TurnAction::ClearSkill
                },
                _ => {
                    self.stage = TurnStage::Over;
                    match &self.failure {
                        Some(message) => TurnAction::Fail(message.clone()),
                        None => TurnAction::Finish,
                    }
                },
            },
            TurnEvent::Compacted(Some(compacted)) => {
                self.stage = TurnStage::Compacted;
                *messages = compacted;
                TurnAction::StoreAll
            },
            TurnEvent::Compacted(None) => {
                self.stage = TurnStage::Prompt;
                self.start = messages.len();
                TurnAction::BuildPrompt
            },
            TurnEvent::Failed(message) => {
                if self.stage == TurnStage::Agent {
                    *shown = rebuild_display_history(messages);
                }
                self.stage = TurnStage::Clearing;
                self.failure = Some(message);
                TurnAction::ClearSkill
            },
        }
    }

    /// The messages that the agent loop added, which are to be stored.
    pub fn replies(&self, messages: &Vec<Json>) -> (added: Vec<Json>)
        requires
            self.start() <= messages.len(),
        ensures
            values(added@) == values(messages@).skip(self.start() as int),
    {
        let mut added: Vec<Json> = Vec::new();
        let mut i: usize = self.start;
        while i < messages.len()
            invariant
                self.start <= i <= messages.len(),
                added.len() == i - self.start,
                forall|k: int|
                    0 <= k < added.len() ==> (#[trigger] added@[k]).view() == messages@[self.start
                        + k].view(),
            decreases messages.len() - i,
        {
            added.push(messages[i].clone());
            i += 1;
        }
        assert(values(added@) =~= values(messages@).skip(self.start as int));
        added
    }
}

// ---------------------------------------------------------------------------
// Laws
// ---------------------------------------------------------------------------
/// The turn after a list of events.
pub open spec fn after_events(
    state: TurnView,
    events: Seq<TurnEvent<Seq<char>, Seq<JsonView>>>,
) -> TurnView
    decreases events.len(),
{
    if events.len() == 0 {
        state
    } else {
        after_events(next_turn(state, events[0]).0, events.skip(1))
    }
}

/// The message of the user is never lost: whatever happens short of a
/// compaction, the conversation begins with what it was and the message.
pub proof fn message_stays(
    messages: Seq<JsonView>,
    shown: Seq<(Seq<char>, Seq<char>)>,
    input: Seq<char>,
    has_session: bool,
    events: Seq<TurnEvent<Seq<char>, Seq<JsonView>>>,
)
    requires
        forall|i: int|
            0 <= i < events.len() ==> !(#[trigger] events[i] matches TurnEvent::Compacted(Some(_))),
    ensures
        after_events(turn_start(messages, shown, input, has_session).0, events).messages
            == messages.push(user_message(input)),
{
    lemma_messages_stay(turn_start(messages, shown, input, has_session).0, events);
}

proof fn lemma_messages_stay(
    state: TurnView,
    events: Seq<TurnEvent<Seq<char>, Seq<JsonView>>>,
)
    requires
        forall|i: int|
            0 <= i < events.len() ==> !(#[trigger] events[i] matches TurnEvent::Compacted(Some(_))),
    ensures
        after_events(state, events).messages == state.messages,
    decreases events.len(),
{
    if events.len() > 0 {
        assert(!(events[0] matches TurnEvent::Compacted(Some(_))));
        assert forall|i: int| 0 <= i < events.skip(1).len() implies !(#[trigger] events.skip(
            1,
        )[i] matches TurnEvent::Compacted(Some(_))) by {
            assert(events.skip(1)[i] == events[i + 1]);
        }
        lemma_messages_stay(next_turn(state, events[0]).0, events.skip(1));
    }
}

/// When the agent loop is over, what is shown is what the conversation holds,
/// whether the loop went well and its messages were stored, or it failed. The
/// turn then ends accordingly.
pub proof fn shown_matches_conversation(state: TurnView, message: Seq<char>)
    requires
        state.stage == TurnStage::Agent,
        state.failure is None,
    ensures
        ({
            let stored = next_turn(state, TurnEvent::Done).0;
            let remembered = next_turn(stored, TurnEvent::Done);
            let cleared = next_turn(remembered.0, TurnEvent::Done);
            let finished = next_turn(cleared.0, TurnEvent::Done);
            let failed = next_turn(state, TurnEvent::Failed(message));
            let ended = next_turn(failed.0, TurnEvent::Done);
            &&& remembered.1 is SaveMemories
            &&& cleared.1 is ClearSkill
            &&& finished.0.shown == shown_history(state.messages)
            &&& finished.1 is Finish
            &&& failed.1 is ClearSkill
            &&& ended.0.shown == shown_history(state.messages)
            &&& ended.1 == TurnAction::<Seq<char>>::Fail(message)
        }),
{
}

/// A turn ends, well or not, only right after the skill was cleared: the step
/// before its last has it cleared, and its first step is not its last.
pub proof fn skill_is_cleared_before_the_end(
    state: TurnView,
    event: TurnEvent<Seq<char>, Seq<JsonView>>,
    last: TurnEvent<Seq<char>, Seq<JsonView>>,
)
    requires
        fits(state.stage, event),
        fits(next_turn(state, event).0.stage, last),
        next_turn(next_turn(state, event).0, last).0.stage == TurnStage::Over,
    ensures
        next_turn(state, event).1 is ClearSkill,
        ({
            let end = next_turn(next_turn(state, event).0, last).1;
            end is Finish || end is Fail
        }),
        forall|
            messages: Seq<JsonView>,
            shown: Seq<(Seq<char>, Seq<char>)>,
            input: Seq<char>,
            has_session: bool,
        |
            next_turn(
                (#[trigger] turn_start(messages, shown, input, has_session)).0,
                last,
            ).0.stage != TurnStage::Over,
{
}

/// Something that failed fails the turn, with its message: what came before is
/// not taken for a success.
pub proof fn failure_ends_the_turn(state: TurnView, message: Seq<char>)
    requires
        fits(state.stage, TurnEvent::<Seq<char>, Seq<JsonView>>::Failed(message)),
    ensures
        next_turn(next_turn(state, TurnEvent::Failed(message)).0, TurnEvent::Done).1
            == TurnAction::<Seq<char>>::Fail(message),
{
}

} // verus!
