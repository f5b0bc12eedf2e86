//! How the server answers a message: over HTTP, or over a WebSocket.
//!
//! Stored sessions, the model and the sockets are reached from outside.
//! `MessageFlow` says what is to be done next for a request and what the
//! answer is; every failure outside comes back to it as an event.
use vstd::prelude::*;

use crate::engine::{build_user_message, user_message};
use crate::history::{visible_count, visible_message_count};
use crate::json::{lemma_values_push, put, values, Json, JsonView};
use crate::text::{blank, is_blank, joined, same_text, texts, trim, trimmed};
use crate::types::opt_text;

verus! {

// ---------------------------------------------------------------------------
// Requests and answers
// ---------------------------------------------------------------------------
/// A message for the assistant, with the session it belongs to and the output
/// style it asks for, where it names them.
#[derive(Debug)]
pub struct MessageRequest {
    pub message: String,
    pub session_id: Option<String>,
    pub output_style: Option<String>,
}

/// What a request is.
pub struct RequestView {
    pub message: Seq<char>,
    pub session_id: Option<Seq<char>>,
    pub output_style: Option<Seq<char>>,
}

impl MessageRequest {
    /// What the request is.
    pub open spec fn view(&self) -> RequestView {
        RequestView {
            message: self.message@,
            session_id: opt_text(self.session_id),
            output_style: opt_text(self.output_style),
        }
    }
}

/// The answer to a request.
#[derive(Debug)]
pub struct MessageResponse {
    pub session_id: String,
    pub reply: String,
    pub model: String,
}

/// What an answer is.
pub struct AnswerView {
    pub session_id: Seq<char>,
    pub reply: Seq<char>,
    pub model: Seq<char>,
}

impl MessageResponse {
    /// What the answer is.
    pub open spec fn view(&self) -> AnswerView {
        AnswerView { session_id: self.session_id@, reply: self.reply@, model: self.model@ }
    }
}

/// A refusal: the HTTP status and what is wrong.
#[derive(Debug)]
pub struct ApiError {
    pub status: u16,
    pub message: String,
}

impl ApiError {
    /// The status and the message.
    pub open spec fn view(&self) -> (int, Seq<char>) {
        (self.status as int, self.message@)
    }

    /// The request itself is wrong.
    pub fn bad_request(message: &str) -> (error: ApiError)
        ensures
            error@ == (400int, message@),
    {
        ApiError { status: 400, message: message.to_owned() }
    }

    /// What the request names does not exist.
    pub fn not_found(message: &str) -> (error: ApiError)
        ensures
            error@ == (404int, message@),
    {
        ApiError { status: 404, message: message.to_owned() }
    }

    /// Something failed on the way to an answer.
    pub fn internal(message: &str) -> (error: ApiError)
        ensures
            error@ == (500int, message@),
    {
        ApiError { status: 500, message: message.to_owned() }
    }

    /// The body of the HTTP response.
    pub fn body(&self) -> (body: Json)
        ensures
            body@ == JsonView::Object(map!["error"@ => JsonView::Text(self@.1)]),
    {
        let mut entries: Vec<(String, Json)> = Vec::new();
        put(&mut entries, "error", Json::text(self.message.as_str()));
        Json::Object(entries)
    }
}

/// What an optional text comes to without the white space around it: nothing
/// where only white space is left.
pub open spec fn given(text: Option<Seq<char>>) -> Option<Seq<char>> {
    match text {
        Some(text) => if is_blank(text) {
            None
        } else {
            Some(trim(text))
        },
        None => None,
    }
}

fn given_text(text: &Option<String>) -> (found: Option<String>)
    ensures
        opt_text(found) == given(opt_text(*text)),
{
    match text {
        Some(text) => {
            if blank(text.as_str()) {
                None
            } else {
                Some(trimmed(text.as_str()).to_owned())
            }
        },
        None => None,
    }
}

// ---------------------------------------------------------------------------
// The steps to an answer
// ---------------------------------------------------------------------------
/// What is to be done next for a request, over a type of text.
pub enum FlowAction<T> {
    /// Open the stored session with this id.
    LoadSession(T),
    /// Make a new session.
    CreateSession,
    /// Wait for the session's lock and keep it until the flow ends.
    TakeLock(T),
    /// Read the messages of the session.
    LoadMessages,
    /// Set up the model client.
    BuildClient,
    /// Set up the tools, for the session.
    BuildRegistry,
    /// Read the configuration.
    LoadConfig,
    /// Find out whether there is such an output style.
    CheckStyle(T),
    /// Build the system prompt for the output style, where `visible` messages
    /// have been spoken already.
    BuildPrompt { visible: usize, style: T },
    /// Store the last message of the conversation.
    StoreMessage,
    /// Run the agent loop on a copy of the conversation.
    RunAgent,
    /// Store what the agent loop added.
    StoreReplies,
    /// Send the answer.
    Answer { session_id: T, reply: T, model: T },
    /// Refuse the request.
    Refuse { status: u16, message: T },
}

/// What came of the last step, over a type of text and of message lists.
pub enum FlowEvent<T, M> {
    /// The session is open; this is its id.
    Session(T),
    /// The lock was taken.
    Locked,
    /// The messages of the session.
    Messages(M),
    /// The client is set up, for this model.
    Client(T),
    /// The configuration was read; this is its output style.
    Config(T),
    /// Whether there is such an output style.
    StyleKnown(bool),
    /// The agent loop ended with this text, and left this conversation.
    Finished { reply: T, messages: M },
    /// What was to be done is done.
    Done,
    /// It failed, with this message.
    Failed(T),
}

/// How far the flow has come: what it waits for.
#[derive(Debug, Clone, Copy, PartialEq, Eq, Structural)]
pub enum FlowStage {
    Session,
    Lock,
    Messages,
    Client,
    Registry,
    Config,
    Style,
    Prompt,
    StoreMessage,
    Agent,
    StoreReplies,
    Over,
}

/// The characters of an action's texts.
pub open spec fn action_view(action: FlowAction<String>) -> FlowAction<Seq<char>> {
    match action {
        FlowAction::LoadSession(id) => FlowAction::LoadSession(id@),
        FlowAction::CreateSession => FlowAction::CreateSession,
        FlowAction::TakeLock(id) => FlowAction::TakeLock(id@),
        FlowAction::LoadMessages => FlowAction::LoadMessages,
        FlowAction::BuildClient => FlowAction::BuildClient,
        FlowAction::BuildRegistry => FlowAction::BuildRegistry,
        FlowAction::LoadConfig => FlowAction::LoadConfig,
        FlowAction::CheckStyle(style) => FlowAction::CheckStyle(style@),
        FlowAction::BuildPrompt { visible, style } => FlowAction::BuildPrompt {
            visible,
            style: style@,
        },
        FlowAction::StoreMessage => FlowAction::StoreMessage,
        FlowAction::RunAgent => FlowAction::RunAgent,
        FlowAction::StoreReplies => FlowAction::StoreReplies,
        FlowAction::Answer { session_id, reply, model } => FlowAction::Answer {
            session_id: session_id@,
            reply: reply@,
            model: model@,
        },
        FlowAction::Refuse { status, message } => FlowAction::Refuse { status, message: message@ },
    }
}

/// What an event's texts and messages are.
pub open spec fn event_view(event: FlowEvent<String, Vec<Json>>) -> FlowEvent<
    Seq<char>,
    Seq<JsonView>,
> {
    match event {
        FlowEvent::Session(id) => FlowEvent::Session(id@),
        FlowEvent::Locked => FlowEvent::Locked,
        FlowEvent::Messages(messages) => FlowEvent::Messages(values(messages@)),
        FlowEvent::Client(model) => FlowEvent::Client(model@),
        FlowEvent::Config(style) => FlowEvent::Config(style@),
        FlowEvent::StyleKnown(known) => FlowEvent::StyleKnown(known),
        FlowEvent::Finished { reply, messages } => FlowEvent::Finished {
            reply: reply@,
            messages: values(messages@),
        },
        FlowEvent::Done => FlowEvent::Done,
        FlowEvent::Failed(message) => FlowEvent::Failed(message@),
    }
}

/// Where a flow stands.
pub struct FlowView {
    pub stage: FlowStage,
    /// The message of the user, the session and the style that were asked for.
    pub message: Seq<char>,
    pub wanted_session: Option<Seq<char>>,
    pub wanted_style: Option<Seq<char>>,
    /// What has been found out since.
    pub session_id: Seq<char>,
    pub messages: Seq<JsonView>,
    pub model: Seq<char>,
    pub style: Seq<char>,
    /// How long the conversation was before the agent loop.
    pub start: nat,
    pub reply: Seq<char>,
}

/// The flow of a request before its first step. That of a refused request is
/// over.
pub open spec fn flow_start(request: RequestView) -> FlowView {
    FlowView {
        stage: if is_blank(request.message) {
            FlowStage::Over
        } else {
            FlowStage::Session
        },
        message: trim(request.message),
        wanted_session: given(request.session_id),
        wanted_style: given(request.output_style),
        session_id: Seq::empty(),
        messages: Seq::empty(),
        model: Seq::empty(),
        style: Seq::empty(),
        start: 0,
        reply: Seq::empty(),
    }
}

/// The first step for a request.
pub open spec fn first_step(request: RequestView) -> FlowAction<Seq<char>> {
    if is_blank(request.message) {
        FlowAction::Refuse { status: 400, message: "message must not be empty"@ }
    } else {
        match given(request.session_id) {
            Some(id) => FlowAction::LoadSession(id),
            None => FlowAction::CreateSession,
        }
    }
}

/// Whether the event can come of what the flow waits for.
pub open spec fn fits<T, M>(stage: FlowStage, event: FlowEvent<T, M>) -> bool {
    match event {
        FlowEvent::Session(_) => stage == FlowStage::Session,
        FlowEvent::Locked => stage == FlowStage::Lock,
        FlowEvent::Messages(_) => stage == FlowStage::Messages,
        FlowEvent::Client(_) => stage == FlowStage::Client,
        FlowEvent::Config(_) => stage == FlowStage::Config,
        FlowEvent::StyleKnown(_) => stage == FlowStage::Style,
        FlowEvent::Finished { reply: _, messages: _ } => stage == FlowStage::Agent,
        FlowEvent::Done => stage == FlowStage::Registry || stage == FlowStage::Prompt || stage
            == FlowStage::StoreMessage || stage == FlowStage::StoreReplies,
        FlowEvent::Failed(_) => stage != FlowStage::Lock && stage != FlowStage::Over,
    }
}

/// The flow after an event that fits, and what is to be done next.
pub open spec fn next_step(
    state: FlowView,
    event: FlowEvent<Seq<char>, Seq<JsonView>>,
) -> (FlowView, FlowAction<Seq<char>>) {
    match event {
        FlowEvent::Session(id) => (
            FlowView { stage: FlowStage::Lock, session_id: id, ..state },
            FlowAction::TakeLock(id),
        ),
        FlowEvent::Locked => if state.wanted_session is Some {
            (FlowView { stage: FlowStage::Messages, ..state }, FlowAction::LoadMessages)
        } else {
            (FlowView { stage: FlowStage::Client, ..state }, FlowAction::BuildClient)
        },
        FlowEvent::Messages(messages) => (
            FlowView { stage: FlowStage::Client, messages, ..state },
            FlowAction::BuildClient,
        ),
        FlowEvent::Client(model) => (
            FlowView { stage: FlowStage::Registry, model, ..state },
            FlowAction::BuildRegistry,
        ),
        FlowEvent::Config(default) => {
            let style = match state.wanted_style {
                Some(style) => style,
                None => default,
            };
            (FlowView { stage: FlowStage::Style, style, ..state }, FlowAction::CheckStyle(style))
        },
        FlowEvent::StyleKnown(known) => if known {
            (
                FlowView { stage: FlowStage::Prompt, ..state },
                FlowAction::BuildPrompt {
                    visible: visible_count(state.messages) as usize,
                    style: state.style,
                },
            )
        } else {
            (
                FlowView { stage: FlowStage::Over, ..state },
                FlowAction::Refuse {
                    status: 400,
                    message: "unknown output style: "@ + state.style,
                },
            )
        },
        FlowEvent::Finished { reply, messages } => (
            FlowView { stage: FlowStage::StoreReplies, reply, messages, ..state },
            FlowAction::StoreReplies,
        ),
        FlowEvent::Done => match state.stage {
            FlowStage::Registry => (
                FlowView { stage: FlowStage::Config, ..state },
                FlowAction::LoadConfig,
            ),
            FlowStage::Prompt => (
                FlowView {
                    stage: FlowStage::StoreMessage,
                    messages: state.messages.push(user_message(state.message)),
                    ..state
                },
                FlowAction::StoreMessage,
            ),
            FlowStage::StoreMessage => (
                FlowView { stage: FlowStage::Agent, start: state.messages.len(), ..state },
                FlowAction::RunAgent,
            ),
            _ => (
                FlowView { stage: FlowStage::Over, ..state },
                FlowAction::Answer {
                    session_id: state.session_id,
                    reply: state.reply,
                    model: state.model,
                },
            ),
        },
        FlowEvent::Failed(message) => (
            FlowView { stage: FlowStage::Over, ..state },
            FlowAction::Refuse { status: failure_status(state), message },
        ),
    }
}

/// The status of a refusal because a step failed: a session that was asked
/// for is not there, everything else is the server's own trouble.
pub open spec fn failure_status(state: FlowView) -> u16 {
    if state.stage == FlowStage::Session && state.wanted_session is Some {
        404
    } else {
        500
    }
}

fn refuse(error: ApiError) -> (action: FlowAction<String>)
    ensures
        action_view(action) == (FlowAction::<Seq<char>>::Refuse {
            status: error@.0 as u16,
            message: error@.1,
        }),
{
    FlowAction::Refuse { status: error.status, message: error.message }
}

/// The course of one request.
pub struct MessageFlow {
    messages: Vec<Json>,
    stage: FlowStage,
    message: String,
    wanted_session: Option<String>,
    wanted_style: Option<String>,
    session_id: String,
    model: String,
    style: String,
    start: usize,
    reply: String,
}

impl MessageFlow {
    /// Where the flow stands.
    pub closed spec fn view(&self) -> FlowView {
        FlowView {
            stage: self.stage,
            message: self.message@,
            wanted_session: opt_text(self.wanted_session),
            wanted_style: opt_text(self.wanted_style),
            session_id: self.session_id@,
            messages: values(self.messages@),
            model: self.model@,
            style: self.style@,
            start: self.start as nat,
            reply: self.reply@,
        }
    }

    /// Takes a request and says what is to be done first. The flow of a
    /// refused request is over.
    pub fn begin(request: &MessageRequest) -> (made: (MessageFlow, FlowAction<String>))
        ensures
            made.0@ == flow_start(request@),
            action_view(made.1) == first_step(request@),
            is_blank(request.message@) <==> made.1 is Refuse,
            !is_blank(request.message@) ==> made.0@.message == trim(request.message@),
            made.1 matches FlowAction::LoadSession(id) ==> request.session_id is Some && id@ == trim(
                request.session_id->0@,
            ),
            made.1 is CreateSession <==> !is_blank(request.message@) && (request.session_id is None
                || is_blank(request.session_id->0@)),
            made.0@.wanted_style is Some <==> request.output_style is Some && !is_blank(
                request.output_style->0@,
            ),
            made.0@.wanted_style matches Some(style) ==> style == trim(request.output_style->0@),
    {
        let wanted: Option<String> = given_text(&request.session_id);
        let (stage, action): (FlowStage, FlowAction<String>) = if blank(request.message.as_str()) {
            (FlowStage::Over, refuse(ApiError::bad_request("message must not be empty")))
        } else {
            (
                FlowStage::Session,
                match &wanted {
                    Some(id) => FlowAction::LoadSession(id.clone()),
                    None => FlowAction::CreateSession,
                },
            )
        };
        let flow: MessageFlow = MessageFlow {
            messages: Vec::new(),
            stage,
            message: trimmed(request.message.as_str()).to_owned(),
            wanted_session: wanted,
            wanted_style: given_text(&request.output_style),
            session_id: String::new(),
            model: String::new(),
            style: String::new(),
            start: 0,
            reply: String::new(),
        };
        assert(values(flow.messages@) =~= Seq::<JsonView>::empty());
        assert(flow.session_id@ =~= Seq::<char>::empty());
        (flow, action)
    }

    /// The id of the session, once it is open.
    pub fn session_id(&self) -> (id: &str)
        ensures
            id@ == self@.session_id,
    {
        self.session_id.as_str()
    }

    /// The conversation, as far as it is known.
    pub fn messages(&self) -> (messages: &Vec<Json>)
        ensures
            values(messages@) == self@.messages,
    {
        &self.messages
    }

    /// How long the conversation was before the agent loop.
    pub fn loop_start(&self) -> (start: usize)
        ensures
            start == self@.start,
    {
        self.start
    }

    /// Takes what came of the last step and says what is to be done next.
    pub fn process_message(&mut self, event: FlowEvent<String, Vec<Json>>) -> (action: FlowAction<
        String,
    >)
        requires
            fits(old(self)@.stage, event),
        ensures
            (final(self)@, action_view(action)) == next_step(old(self)@, event_view(event)),
            event matches FlowEvent::Session(id) ==> final(self)@.session_id == id@ && (
            action matches FlowAction::TakeLock(locked) && locked@ == id@),
            event matches FlowEvent::Messages(messages) ==> final(self)@.messages == values(
                messages@,
            ),
            event matches FlowEvent::Config(default) ==> (
            action matches FlowAction::CheckStyle(style) && style@ == match old(
                self,
            )@.wanted_style {
                Some(wanted) => wanted,
                None => default@,
            }),
            event matches FlowEvent::Finished { reply, messages } ==> final(self)@.reply == reply@
                && final(self)@.messages == values(messages@),
            event matches FlowEvent::Failed(message) ==> (action matches FlowAction::Refuse {
                status: _,
                message: told,
            } && told@ == message@),
            action matches FlowAction::Answer { session_id, reply, model } ==> session_id@ == old(
                self,
            )@.session_id && reply@ == old(self)@.reply && model@ == old(self)@.model,
            action is Answer <==> event is Done && old(self)@.stage == FlowStage::StoreReplies,
    {
        let ghost state = self@;
        match event {
            FlowEvent::Session(id) => {
                self.stage = FlowStage::Lock;
                self.session_id = id.clone();
                FlowAction::TakeLock(id)
            },
            FlowEvent::Locked => {
                if self.wanted_session.is_some() {
                    self.stage = FlowStage::Messages;
                    FlowAction::LoadMessages
                } else {
                    self.stage = FlowStage::Client;
                    FlowAction::BuildClient
                }
            },
            FlowEvent::Messages(messages) => {
                self.stage = FlowStage::Client;
                self.messages = messages;
                FlowAction::BuildClient
            },
            FlowEvent::Client(model) => {
                self.stage = FlowStage::Registry;
                self.model = model;
                FlowAction::BuildRegistry
            },
            FlowEvent::Config(default) => {
                self.stage = FlowStage::Style;
                self.style = match &self.wanted_style {
                    Some(style) => style.clone(),
                    None => default,
                };
                FlowAction::CheckStyle(self.style.clone())
            },
            FlowEvent::StyleKnown(known) => {
                if known {
                    self.stage = FlowStage::Prompt;
                    FlowAction::BuildPrompt {
                        visible: visible_message_count(&self.messages),
                        style: self.style.clone(),
                    }
                } else {
                    self.stage = FlowStage::Over;
                    let message: String = joined("unknown output style: ", self.style.as_str());
                    refuse(ApiError::bad_request(message.as_str()))
                }
            },
            FlowEvent::Finished { reply, messages } => {
                self.stage = FlowStage::StoreReplies;
                self.reply = reply;
                self.messages = messages;
                FlowAction::StoreReplies
            },
            FlowEvent::Done => match self.stage {
                FlowStage::Registry => {
                    self.stage = FlowStage::Config;
                    FlowAction::LoadConfig
                },
                FlowStage::Prompt => {
                    self.stage = FlowStage::StoreMessage;
                    let message: Json = build_user_message(self.message.as_str());
                    proof {
                        lemma_values_push(self.messages@, message);
                    }
                    self.messages.push(message);
                    FlowAction::StoreMessage
                },
                FlowStage::StoreMessage => {
                    self.stage = FlowStage::Agent;
                    self.start = self.messages.len();
                    FlowAction::RunAgent
                },
                _ => {
                    self.stage = FlowStage::Over;
                    FlowAction::Answer {
                        session_id: self.session_id.clone(),
                        reply: self.reply.clone(),
                        model: self.model.clone(),
                    }
                },
            },
            FlowEvent::Failed(message) => {
                let missing: bool = self.stage == FlowStage::Session
                    && self.wanted_session.is_some();
                self.stage = FlowStage::Over;
                if missing {
                    refuse(ApiError::not_found(message.as_str()))
                } else {
                    refuse(ApiError::internal(message.as_str()))
                }
            },
        }
    }

    /// The messages that the agent loop added, which are to be stored. The
    /// loop takes none away.
    pub fn replies(&self) -> (messages: Vec<Json>)
        requires
            self@.start <= self@.messages.len(),
        ensures
            values(messages@) == self@.messages.skip(self@.start as int),
    {
        let mut messages: Vec<Json> = Vec::new();
        let mut i: usize = self.start;
        while i < self.messages.len()
            invariant
                self.start <= i <= self.messages.len(),
                messages.len() == i - self.start,
                forall|k: int|
                    0 <= k < messages.len() ==> (#[trigger] messages@[k]).view()
                        == self.messages@[self.start + k].view(),
            decreases self.messages.len() - i,
        {
            messages.push(self.messages[i].clone());
            i += 1;
        }
        assert(values(messages@) =~= self@.messages.skip(self@.start as int));
        messages
    }
}

// ---------------------------------------------------------------------------
// Laws of the flow
// ---------------------------------------------------------------------------
/// A message of nothing but white space is refused as a bad request before
/// anything is done for it, and nothing is done afterwards; no other message
/// is refused so.
pub proof fn blank_message_is_refused(
    request: RequestView,
    event: FlowEvent<Seq<char>, Seq<JsonView>>,
)
    ensures
        is_blank(request.message) ==> !fits(flow_start(request).stage, event),
        first_step(request) is Refuse <==> is_blank(request.message),
        is_blank(request.message) ==> first_step(request) == (FlowAction::<Seq<char>>::Refuse {
            status: 400,
            message: "message must not be empty"@,
        }),
{
}

/// A session is made if and only if the request, not refused, names none.
pub proof fn session_is_made_where_none_is_named(request: RequestView)
    requires
        !is_blank(request.message),
    ensures
        first_step(request) is CreateSession <==> (request.session_id is None || is_blank(
            request.session_id->0,
        )),
{
}

/// Whatever fails ends the flow with a refusal that carries the message of
/// the failure. It is "not found" for a session that the request named, and
/// an internal error for everything else.
pub proof fn failure_is_reported(state: FlowView, message: Seq<char>)
    requires
        fits(state.stage, FlowEvent::<Seq<char>, Seq<JsonView>>::Failed(message)),
    ensures
        ({
            let (next, action) = next_step(state, FlowEvent::Failed(message));
            &&& next.stage == FlowStage::Over
            &&& action == (FlowAction::<Seq<char>>::Refuse {
                status: failure_status(state),
                message,
            })
            &&& failure_status(state) == 404 <==> (state.stage == FlowStage::Session
                && state.wanted_session is Some)
            &&& failure_status(state) != 404 ==> failure_status(state) == 500
        }),
{
}

/// What a request asks for is kept until its flow is over.
pub proof fn request_is_kept(state: FlowView, event: FlowEvent<Seq<char>, Seq<JsonView>>)
    ensures
        next_step(state, event).0.message == state.message,
        next_step(state, event).0.wanted_session == state.wanted_session,
        next_step(state, event).0.wanted_style == state.wanted_style,
{
}

/// The output style is the one that the request names, and the one of the
/// configuration where it names none.
pub proof fn default_style_is_used_where_none_is_named(
    request: RequestView,
    state: FlowView,
    default: Seq<char>,
)
    requires
        state.wanted_style == flow_start(request).wanted_style,
    ensures
        ({
            let named = request.output_style is Some && !is_blank(request.output_style->0);
            next_step(state, FlowEvent::Config(default)).1 == FlowAction::CheckStyle(
                if named {
                    trim(request.output_style->0)
                } else {
                    default
                },
            )
        }),
{
}

/// The flow after a list of events.
pub open spec fn after_events(
    state: FlowView,
    events: Seq<FlowEvent<Seq<char>, Seq<JsonView>>>,
) -> FlowView
    decreases events.len(),
{
    if events.len() == 0 {
        state
    } else {
        after_events(next_step(state, events[0]).0, events.skip(1))
    }
}

proof fn lemma_after_first(
    state: FlowView,
    events: Seq<FlowEvent<Seq<char>, Seq<JsonView>>>,
    event: FlowEvent<Seq<char>, Seq<JsonView>>,
)
    ensures
        after_events(state, seq![event] + events) == after_events(
            next_step(state, event).0,
            events,
        ),
{
    assert((seq![event] + events).skip(1) =~= events);
}

/// The events up to the agent loop where nothing fails.
pub open spec fn smooth_events(
    named: bool,
    id: Seq<char>,
    stored: Seq<JsonView>,
    model: Seq<char>,
    default_style: Seq<char>,
) -> Seq<FlowEvent<Seq<char>, Seq<JsonView>>> {
    let behind = seq![FlowEvent::Client(model)] + (seq![FlowEvent::Done] + (seq![
        FlowEvent::Config(default_style),
    ] + (seq![FlowEvent::StyleKnown(true)] + (seq![FlowEvent::Done] + (seq![FlowEvent::Done]
        + Seq::empty())))));
    seq![FlowEvent::Session(id)] + (seq![FlowEvent::Locked] + if named {
        seq![FlowEvent::Messages(stored)] + behind
    } else {
        behind
    })
}

/// Where nothing fails, the agent loop gets the messages that the session
/// holds, none for a new session, followed by the user's message without the
/// white space around it; the answer is then what the loop ends with, for
/// that session and that model.
pub proof fn conversation_goes_on(
    request: RequestView,
    id: Seq<char>,
    stored: Seq<JsonView>,
    model: Seq<char>,
    default_style: Seq<char>,
    added: Seq<JsonView>,
    text: Seq<char>,
)
    requires
        !is_blank(request.message),
    ensures
        ({
            let named = given(request.session_id) is Some;
            let known = if named {
                stored
            } else {
                Seq::empty()
            };
            let state = after_events(
                flow_start(request),
                smooth_events(named, id, stored, model, default_style),
            );
            let (last, store) = next_step(
                state,
                FlowEvent::Finished { reply: text, messages: state.messages + added },
            );
            &&& state.stage == FlowStage::Agent
            &&& state.messages == known.push(user_message(trim(request.message)))
            &&& state.start == state.messages.len()
            &&& store is StoreReplies
            &&& last.messages.skip(last.start as int) == added
            &&& next_step(last, FlowEvent::Done).1 == (FlowAction::Answer {
                session_id: id,
                reply: text,
                model,
            })
        }),
{
    let named = given(request.session_id) is Some;
    let start = flow_start(request);
    let e6 = seq![FlowEvent::<Seq<char>, Seq<JsonView>>::Done] + Seq::empty();
    let e5 = seq![FlowEvent::Done] + e6;
    let e4 = seq![FlowEvent::StyleKnown(true)] + e5;
    let e3 = seq![FlowEvent::Config(default_style)] + e4;
    let e2 = seq![FlowEvent::Done] + e3;
    let e1 = seq![FlowEvent::Client(model)] + e2;
    let e0 = if named {
        seq![FlowEvent::Messages(stored)] + e1
    } else {
        e1
    };
    let s1 = next_step(start, FlowEvent::Session(id)).0;
    lemma_after_first(start, seq![FlowEvent::Locked] + e0, FlowEvent::Session(id));
    let s2 = next_step(s1, FlowEvent::Locked).0;
    lemma_after_first(s1, e0, FlowEvent::Locked);
    let s3 = if named {
        next_step(s2, FlowEvent::Messages(stored)).0
    } else {
        s2
    };
    if named {
        lemma_after_first(s2, e1, FlowEvent::Messages(stored));
    }
    let s4 = next_step(s3, FlowEvent::Client(model)).0;
    lemma_after_first(s3, e2, FlowEvent::Client(model));
    let s5 = next_step(s4, FlowEvent::Done).0;
    lemma_after_first(s4, e3, FlowEvent::Done);
    let s6 = next_step(s5, FlowEvent::Config(default_style)).0;
    lemma_after_first(s5, e4, FlowEvent::Config(default_style));
    let s7 = next_step(s6, FlowEvent::StyleKnown(true)).0;
    lemma_after_first(s6, e5, FlowEvent::StyleKnown(true));
    let s8 = next_step(s7, FlowEvent::Done).0;
    lemma_after_first(s7, e6, FlowEvent::Done);
    let s9 = next_step(s8, FlowEvent::Done).0;
    lemma_after_first(s8, Seq::empty(), FlowEvent::Done);
    assert(after_events(s9, Seq::empty()) == s9);
    assert((s9.messages + added).skip(s9.messages.len() as int) =~= added);
}

// ---------------------------------------------------------------------------
// WebSockets
// ---------------------------------------------------------------------------
/// A request over a WebSocket.
#[derive(Debug)]
pub struct WsRequest {
    pub message_type: String,
    pub message: String,
    pub session_id: Option<String>,
    pub output_style: Option<String>,
}

impl WsRequest {
    /// The type and the request.
    pub open spec fn view(&self) -> (Seq<char>, RequestView) {
        (
            self.message_type@,
            RequestView {
                message: self.message@,
                session_id: opt_text(self.session_id),
                output_style: opt_text(self.output_style),
            },
        )
    }
}

/// What comes over a WebSocket.
pub enum WsEvent {
    /// A text, with the request that it holds, where it holds one.
    Text(Option<WsRequest>),
    Close,
    Ping,
    /// Any other frame.
    Other,
    /// The connection failed.
    Broken,
}

/// What is to be done about it.
pub enum WsAction {
    /// Answer the request.
    Process(MessageRequest),
    /// Send an error with this message and go on.
    SendError(String),
    /// Send the ping's payload back.
    Pong,
    /// Wait for what comes next.
    Wait,
    /// End the connection.
    Stop,
}

/// What an action is.
pub enum WsActionView {
    Process(RequestView),
    SendError(Seq<char>),
    Pong,
    Wait,
    Stop,
}

impl WsAction {
    /// What the action is.
    pub open spec fn view(&self) -> WsActionView {
        match self {
            WsAction::Process(request) => WsActionView::Process(request@),
            WsAction::SendError(message) => WsActionView::SendError(message@),
            WsAction::Pong => WsActionView::Pong,
            WsAction::Wait => WsActionView::Wait,
            WsAction::Stop => WsActionView::Stop,
        }
    }
}

/// What is to be done about what came over a WebSocket.
pub open spec fn ws_action(event: WsEvent) -> WsActionView {
    match event {
        WsEvent::Text(None) => WsActionView::SendError("invalid request json"@),
        WsEvent::Text(Some(request)) => if request@.0 == "message"@ {
            WsActionView::Process(request@.1)
        } else {
            WsActionView::SendError("unsupported websocket message type"@)
        },
        WsEvent::Ping => WsActionView::Pong,
        WsEvent::Other => WsActionView::Wait,
        WsEvent::Close | WsEvent::Broken => WsActionView::Stop,
    }
}

/// Says what is to be done about what came over a WebSocket.
pub fn handle_ws(event: WsEvent) -> (action: WsAction)
    ensures
        action@ == ws_action(event),
        match event {
            WsEvent::Text(Some(request)) => if request.message_type@ == "message"@ {
                action matches WsAction::Process(sent) && sent.message@ == request.message@
                    && sent.session_id == request.session_id && sent.output_style
                    == request.output_style
            } else {
                action matches WsAction::SendError(message) && message@
                    == "unsupported websocket message type"@
            },
            WsEvent::Text(None) => action matches WsAction::SendError(message) && message@
                == "invalid request json"@,
            WsEvent::Ping => action is Pong,
            WsEvent::Other => action is Wait,
            WsEvent::Close => action is Stop,
            WsEvent::Broken => action is Stop,
        },
{
    match event {
        WsEvent::Text(None) => WsAction::SendError("invalid request json".to_owned()),
        WsEvent::Text(Some(request)) => {
            if same_text(request.message_type.as_str(), "message") {
                WsAction::Process(
                    MessageRequest {
                        message: request.message,
                        session_id: request.session_id,
                        output_style: request.output_style,
                    },
                )
            } else {
                WsAction::SendError("unsupported websocket message type".to_owned())
            }
        },
        WsEvent::Ping => WsAction::Pong,
        WsEvent::Other => WsAction::Wait,
        WsEvent::Close => WsAction::Stop,
        WsEvent::Broken => WsAction::Stop,
    }
}

/// A request that comes over a WebSocket is processed as it was sent: the
/// message, the session and the output style are those of the frame, each where
/// the frame has it.
pub proof fn frame_is_processed_as_sent(request: WsRequest)
    requires
        request.message_type@ == "message"@,
    ensures
        ws_action(WsEvent::Text(Some(request))) matches WsActionView::Process(sent)
            && sent.message == request.message@ && (match request.session_id {
            Some(id) => sent.session_id == Some(id@),
            None => sent.session_id is None,
        }) && (match request.output_style {
            Some(style) => sent.output_style == Some(style@),
            None => sent.output_style is None,
        }),
{
}

/// The same of the request that is handed on: it has the fields of the frame.
pub proof fn handled_frame_keeps_its_fields(request: WsRequest, action: WsAction)
    requires
        call_ensures(handle_ws, (WsEvent::Text(Some(request)),), action),
        request.message_type@ == "message"@,
    ensures
        action matches WsAction::Process(sent) && sent.message@ == request.message@
            && sent.session_id == request.session_id && sent.output_style
            == request.output_style,
{
}

/// A frame that holds no request, or one of another type, is answered with an
/// error and not processed, and the connection goes on; it ends only where the
/// other side closes it or it breaks.
pub proof fn other_frames_are_not_processed(event: WsEvent, action: WsAction)
    requires
        call_ensures(handle_ws, (event,), action),
    ensures
        action is Process <==> (event matches WsEvent::Text(Some(request))
            && request.message_type@ == "message"@),
        action is Stop <==> event is Close || event is Broken,
        action is Pong <==> event is Ping,
        action is Wait <==> event is Other,
        ws_action(event) is Process <==> (event matches WsEvent::Text(Some(request))
            && request.message_type@ == "message"@),
        ws_action(event) is Stop <==> event is Close || event is Broken,
        event matches WsEvent::Text(None) ==> ws_action(event) == WsActionView::SendError(
            "invalid request json"@,
        ),
{
}

/// A reply over a WebSocket: the answer of the assistant, or an error.
pub enum WsReply {
    Assistant(MessageResponse),
    Error(String),
}

/// The reply to a request that was processed. A refusal is sent as its
/// message, without the status.
pub fn ws_reply(result: Result<MessageResponse, ApiError>) -> (reply: WsReply)
    ensures
        match result {
            Ok(answer) => reply matches WsReply::Assistant(sent) && sent@ == answer@,
            Err(error) => reply matches WsReply::Error(sent) && sent@ == error@.1,
        },
        result matches Ok(answer) ==> (reply matches WsReply::Assistant(sent) && sent == answer),
        result matches Err(error) ==> (reply matches WsReply::Error(sent) && sent
            == error.message),
{
    match result {
        Ok(answer) => WsReply::Assistant(answer),
        Err(error) => WsReply::Error(error.message),
    }
}

impl WsReply {
    /// The word by which the other side tells replies apart.
    pub fn message_type(&self) -> (name: &'static str)
        ensures
            name@ == (if self is Assistant {
                "assistant"@
            } else {
                "error"@
            }),
    {
        match self {
            WsReply::Assistant(_) => "assistant",
            WsReply::Error(_) => "error",
        }
    }
}

// ---------------------------------------------------------------------------
// Session locks
// ---------------------------------------------------------------------------
/// The places of the session locks: each session has one of its own, which it
/// keeps.
pub struct SessionLocks {
    ids: Vec<String>,
}

/// Whether no text occurs twice.
pub open spec fn all_distinct(list: Seq<Seq<char>>) -> bool {
    forall|i: int, j: int|
        0 <= i < j < list.len() ==> #[trigger] list[i] != #[trigger] list[j]
}

impl SessionLocks {
    /// The sessions, each at its place.
    pub closed spec fn view(&self) -> Seq<Seq<char>> {
        texts(self.ids@)
    }

    /// No session has two places.
    pub open spec fn well_formed(&self) -> bool {
        all_distinct(self@)
    }

    /// No session has a lock yet.
    pub fn new() -> (locks: SessionLocks)
        ensures
            locks.well_formed(),
            locks@ == Seq::<Seq<char>>::empty(),
    {
        let locks: SessionLocks = SessionLocks { ids: Vec::new() };
        assert(texts(locks.ids@) =~= Seq::<Seq<char>>::empty());
        locks
    }

    /// The place of the session's lock. A session without one gets the next
    /// place; all others stay where they are.
    pub fn session_lock(&mut self, session_id: &str) -> (place: usize)
        requires
            old(self).well_formed(),
        ensures
            final(self).well_formed(),
            place < final(self)@.len(),
            final(self)@[place as int] == session_id@,
            if old(self)@.contains(session_id@) {
                final(self)@ == old(self)@
            } else {
                final(self)@ == old(self)@.push(session_id@)
            },
    {
        let mut i: usize = 0;
        while i < self.ids.len()
            invariant
                i <= self.ids.len(),
                *self == *old(self),
                old(self).well_formed(),
                forall|k: int| 0 <= k < i ==> self.ids@[k]@ != session_id@,
            decreases self.ids.len() - i,
        {
            if same_text(self.ids[i].as_str(), session_id) {
                assert(self@[i as int] == session_id@);
                return i;
            }
            i += 1;
        }
        assert(!self@.contains(session_id@)) by {
            if self@.contains(session_id@) {
                let k = choose|k: int| 0 <= k < self@.len() && self@[k] == session_id@;
                assert(self.ids@[k]@ == session_id@);
            }
        }
        self.ids.push(session_id.to_owned());
        assert(self@ =~= old(self)@.push(session_id@));
        i
    }
}

/// Two sessions share a place if and only if they are the same: requests of
/// one session wait for each other, requests of different sessions do not.
pub proof fn places_tell_sessions_apart(sessions: Seq<Seq<char>>, i: int, j: int)
    requires
        all_distinct(sessions),
        0 <= i < sessions.len(),
        0 <= j < sessions.len(),
    ensures
        i == j <==> sessions[i] == sessions[j],
{
}

} // verus!
