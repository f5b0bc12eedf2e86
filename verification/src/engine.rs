//! The agent loop: the model is called, its reply joins the conversation, the
//! tools it asks for are run, their results join the conversation, and so on
//! until a reply asks for no tool.
//!
//! Calling the model and running a tool happen outside. `AgentLoop` decides
//! what is due next and keeps the conversation.
use vstd::prelude::*;

use crate::json::{lemma_values_push, put, values, Json, JsonView};
use crate::text::same_text;
use crate::types::{
    call_views, AgentResponse, CallView, ResponseView, ToolUseCall,
};

verus! {

// ---------------------------------------------------------------------------
// Messages
// ---------------------------------------------------------------------------
/// The JSON value of a tool call in an assistant message.
pub open spec fn call_value(call: CallView) -> JsonView {
    JsonView::Object(
        map![
            "function"@ => JsonView::Object(
                map!["name"@ => JsonView::Text(call.name), "arguments"@ => call.arguments],
            ),
        ],
    )
}

/// The JSON values of a list of tool calls.
pub open spec fn call_values(calls: Seq<CallView>) -> Seq<JsonView> {
    Seq::new(calls.len(), |i: int| call_value(calls[i]))
}

/// The assistant message of a reply. Tool calls appear in it only where there
/// are some.
pub open spec fn assistant_message(text: Seq<char>, calls: Seq<CallView>) -> JsonView {
    let message = map![
        "role"@ => JsonView::Text("assistant"@),
        "content"@ => JsonView::Text(text),
    ];
    JsonView::Object(
        if calls.len() == 0 {
            message
        } else {
            message.insert("tool_calls"@, JsonView::Array(call_values(calls)))
        },
    )
}

/// A user message.
pub open spec fn user_message(text: Seq<char>) -> JsonView {
    JsonView::Object(map!["role"@ => JsonView::Text("user"@), "content"@ => JsonView::Text(text)])
}

/// What a tool gave: its result, or the message of its failure.
pub open spec fn outcome_text(outcome: Result<Seq<char>, Seq<char>>) -> Seq<char> {
    match outcome {
        Ok(text) => text,
        Err(text) => text,
    }
}

/// The message with what a tool gave.
pub open spec fn tool_message(
    name: Seq<char>,
    outcome: Result<Seq<char>, Seq<char>>,
) -> JsonView {
    JsonView::Object(
        map![
            "role"@ => JsonView::Text("tool"@),
            "tool_name"@ => JsonView::Text(name),
            "content"@ => JsonView::Text(outcome_text(outcome)),
            "is_error"@ => JsonView::Bool(outcome is Err),
        ],
    )
}

/// The characters of a result or of the message of a failure.
pub open spec fn outcome_view(outcome: Result<String, String>) -> Result<Seq<char>, Seq<char>> {
    match outcome {
        Ok(text) => Ok(text@),
        Err(text) => Err(text@),
    }
}

/// The keys of messages differ.
pub(crate) proof fn lemma_message_keys()
    ensures
        "role"@ != "content"@,
        "role"@ != "tool_calls"@,
        "role"@ != "tool_name"@,
        "role"@ != "is_error"@,
        "content"@ != "tool_calls"@,
        "content"@ != "tool_name"@,
        "content"@ != "is_error"@,
        "tool_name"@ != "is_error"@,
        "name"@ != "arguments"@,
{
    reveal_strlit("role");
    reveal_strlit("content");
    reveal_strlit("tool_calls");
    reveal_strlit("tool_name");
    reveal_strlit("is_error");
    reveal_strlit("name");
    reveal_strlit("arguments");
    assert("role"@.len() == 4 && "content"@.len() == 7 && "tool_calls"@.len() == 10);
    assert("tool_name"@.len() == 9 && "is_error"@.len() == 8);
    assert("name"@.len() == 4 && "arguments"@.len() == 9);
}

fn call_json(call: &ToolUseCall) -> (value: Json)
    ensures
        value@ == call_value(call@),
{
    let mut function: Vec<(String, Json)> = Vec::new();
    put(&mut function, "name", Json::text(call.name.as_str()));
    put(&mut function, "arguments", call.arguments.clone());
    let mut entries: Vec<(String, Json)> = Vec::new();
    put(&mut entries, "function", Json::Object(function));
    Json::Object(entries)
}

/// Builds the assistant message of a reply.
pub fn build_assistant_message(text: &str, tool_uses: &Vec<ToolUseCall>) -> (message: Json)
    ensures
        message@ == assistant_message(text@, call_views(tool_uses@)),
        message@.at("role"@) == JsonView::Text("assistant"@),
        message@.at("content"@) == JsonView::Text(text@),
        message@.field("tool_calls"@) is Some <==> tool_uses@.len() > 0,
        tool_uses@.len() > 0 ==> message@.at("tool_calls"@) is Array
            && message@.at("tool_calls"@)->Array_0.len() == tool_uses@.len() && forall|i: int|
            #![trigger tool_uses@[i]]
            0 <= i < tool_uses@.len() ==> ({
                let call = message@.at("tool_calls"@)->Array_0[i].at("function"@);
                call.at("name"@) == JsonView::Text(tool_uses@[i].name@) && call.at("arguments"@)
                    == tool_uses@[i].arguments@
            }),
{
    proof {
        lemma_message_keys();
    }
    let mut entries: Vec<(String, Json)> = Vec::new();
    put(&mut entries, "role", Json::text("assistant"));
    put(&mut entries, "content", Json::text(text));
    if tool_uses.len() > 0 {
        let mut calls: Vec<Json> = Vec::new();
        let mut i: usize = 0;
        while i < tool_uses.len()
            invariant
                i <= tool_uses.len(),
                calls.len() == i,
                forall|k: int|
                    0 <= k < i ==> (#[trigger] calls@[k]).view() == call_value(tool_uses@[k]@),
            decreases tool_uses.len() - i,
        {
            calls.push(call_json(&tool_uses[i]));
            i += 1;
        }
        assert(values(calls@) =~= call_values(call_views(tool_uses@)));
        put(&mut entries, "tool_calls", Json::Array(calls));
    }
    Json::Object(entries)
}

/// Builds a user message.
pub fn build_user_message(text: &str) -> (message: Json)
    ensures
        message@ == user_message(text@),
        message@.at("role"@) == JsonView::Text("user"@),
        message@.at("content"@) == JsonView::Text(text@),
{
    proof {
        lemma_message_keys();
    }
    let mut entries: Vec<(String, Json)> = Vec::new();
    put(&mut entries, "role", Json::text("user"));
    put(&mut entries, "content", Json::text(text));
    Json::Object(entries)
}

/// Builds the message with what the tool `name` gave.
pub fn build_tool_message(name: &str, outcome: &Result<String, String>) -> (message: Json)
    ensures
        message@ == tool_message(name@, outcome_view(*outcome)),
        message@.at("role"@) == JsonView::Text("tool"@),
        message@.at("tool_name"@) == JsonView::Text(name@),
        message@.at("content"@) == JsonView::Text(
            match *outcome {
                Ok(text) => text@,
                Err(text) => text@,
            },
        ),
        message@.at("is_error"@) == JsonView::Bool(*outcome is Err),
{
    proof {
        lemma_message_keys();
    }
    let (content, is_error): (&String, bool) = match outcome {
        Ok(text) => (text, false),
        Err(text) => (text, true),
    };
    let mut entries: Vec<(String, Json)> = Vec::new();
    put(&mut entries, "role", Json::text("tool"));
    put(&mut entries, "tool_name", Json::text(name));
    put(&mut entries, "content", Json::text(content.as_str()));
    put(&mut entries, "is_error", Json::Bool(is_error));
    Json::Object(entries)
}

// ---------------------------------------------------------------------------
// The loop
// ---------------------------------------------------------------------------
/// Where the loop stands: the reply whose tools are being run, if there is
/// one, and the messages with what they gave so far.
pub struct LoopView {
    pub reply: Option<ResponseView>,
    pub results: Seq<JsonView>,
}

/// Whether a reply asks for tools to be run.
pub open spec fn asks_for_tools(reply: ResponseView) -> bool {
    reply.stop_reason == "tool_use"@ && reply.tool_uses.len() > 0
}

/// The loop before the first call of the model and between rounds.
pub open spec fn idle() -> LoopView {
    LoopView { reply: None, results: Seq::empty() }
}

/// The loop and the conversation after a reply.
pub open spec fn after_reply(
    messages: Seq<JsonView>,
    reply: ResponseView,
) -> (LoopView, Seq<JsonView>) {
    (
        if asks_for_tools(reply) {
            LoopView { reply: Some(reply), results: Seq::empty() }
        } else {
            idle()
        },
        messages.push(assistant_message(reply.text, reply.tool_uses)),
    )
}

/// The tool call that is due, `None` where the model is to be called.
pub open spec fn due_call(state: LoopView) -> Option<CallView> {
    match state.reply {
        Some(reply) => Some(reply.tool_uses[state.results.len() as int]),
        None => None,
    }
}

/// The loop and the conversation after the due tool gave `outcome`. The
/// results join the conversation together, when the last tool has been run.
pub open spec fn after_tool(
    state: LoopView,
    messages: Seq<JsonView>,
    outcome: Result<Seq<char>, Seq<char>>,
) -> (LoopView, Seq<JsonView>) {
    let results = state.results.push(tool_message(due_call(state)->0.name, outcome));
    if results.len() == state.reply->0.tool_uses.len() {
        (idle(), messages + results)
    } else {
        (LoopView { reply: state.reply, results }, messages)
    }
}

/// What is due next and what has been gathered since the last reply.
pub struct AgentLoop {
    reply: Option<AgentResponse>,
    results: Vec<Json>,
}

impl AgentLoop {
    /// Where the loop stands.
    pub closed spec fn view(&self) -> LoopView {
        LoopView {
            reply: match self.reply {
                Some(reply) => Some(reply@),
                None => None,
            },
            results: values(self.results@),
        }
    }

    /// A reply whose tools are being run asked for them, and one of them is
    /// still to be run; between rounds there are no results.
    pub open spec fn well_formed(&self) -> bool {
        match self@.reply {
            Some(reply) => asks_for_tools(reply) && self@.results.len() < reply.tool_uses.len(),
            None => self@.results.len() == 0,
        }
    }

    /// The loop before the first call of the model.
    pub fn new() -> (made: AgentLoop)
        ensures
            made.well_formed(),
            made@ == idle(),
    {
        let made: AgentLoop = AgentLoop { reply: None, results: Vec::new() };
        assert(values(made.results@) =~= Seq::<JsonView>::empty());
        made
    }

    /// The tool call that is due: `None` where the model is to be called.
    pub fn next_call(&self) -> (call: Option<&ToolUseCall>)
        requires
            self.well_formed(),
        ensures
            call is Some <==> due_call(self@) is Some,
            call is Some ==> call->0@ == due_call(self@)->0,
    {
        match &self.reply {
            Some(reply) => {
                assert(self@.results.len() == self.results.len());
                Some(&reply.tool_uses[self.results.len()])
            },
            None => None,
        }
    }

    /// Takes a reply of the model. The result is the reply's text where the
    /// loop ends with it.
    pub fn take_reply(&mut self, messages: &mut Vec<Json>, reply: AgentResponse) -> (end: Option<
        String,
    >)
        requires
            old(self).well_formed(),
            old(self)@.reply is None,
        ensures
            final(self).well_formed(),
            (final(self)@, values(final(messages)@)) == after_reply(
                values(old(messages)@),
                reply@,
            ),
            end is Some <==> !asks_for_tools(reply@),
            end is Some ==> end->0@ == reply@.text,
            end is None <==> reply.stop_reason@ == "tool_use"@ && reply.tool_uses@.len() >= 1,
            end is None ==> due_call(final(self)@) == Some(reply.tool_uses@[0]@),
            end is Some ==> end->0@ == reply.text@ && due_call(final(self)@) is None,
            final(messages)@.len() == old(messages)@.len() + 1,
            forall|i: int|
                0 <= i < old(messages)@.len() ==> #[trigger] final(messages)@[i]
                    == old(messages)@[i],
            final(messages)@.last()@.at("role"@) == JsonView::Text("assistant"@),
            final(messages)@.last()@.at("content"@) == JsonView::Text(reply.text@),
    {
        let message: Json = build_assistant_message(reply.text.as_str(), &reply.tool_uses);
        proof {
            lemma_values_push(messages@, message);
        }
        messages.push(message);
        self.results = Vec::new();
        assert(values(self.results@) =~= Seq::<JsonView>::empty());
        if same_text(reply.stop_reason.as_str(), "tool_use") && reply.tool_uses.len() > 0 {
            self.reply = Some(reply);
            None
        } else {
            self.reply = None;
            Some(reply.text)
        }
    }

    /// Takes what the due tool gave: its result, or the message of its
    /// failure.
    pub fn take_outcome(&mut self, messages: &mut Vec<Json>, outcome: Result<String, String>)
        requires
            old(self).well_formed(),
            old(self)@.reply is Some,
        ensures
            final(self).well_formed(),
            (final(self)@, values(final(messages)@)) == after_tool(
                old(self)@,
                values(old(messages)@),
                outcome_view(outcome),
            ),
            forall|i: int|
                0 <= i < old(messages)@.len() ==> #[trigger] final(messages)@[i]
                    == old(messages)@[i],
            ({
                let calls = old(self)@.reply->0.tool_uses;
                let done = old(self)@.results.len();
                &&& done + 1 < calls.len() ==> due_call(final(self)@) == Some(calls[(done + 1) as int])
                    && final(messages)@.len() == old(messages)@.len()
                &&& done + 1 == calls.len() ==> due_call(final(self)@) is None
                    && final(messages)@.len() == old(messages)@.len() + calls.len()
            }),
    {
        let ghost state = self@;
        let ghost before = messages@;
        match &self.reply {
            Some(reply) => {
                let count: usize = reply.tool_uses.len();
                assert(state.results.len() == self.results.len());
                let message: Json = build_tool_message(
                    reply.tool_uses[self.results.len()].name.as_str(),
                    &outcome,
                );
                proof {
                    lemma_values_push(self.results@, message);
                }
                self.results.push(message);
                if self.results.len() == count {
                    let ghost results = self.results@;
                    messages.append(&mut self.results);
                    self.reply = None;
                    assert(values(messages@) =~= values(before) + values(results));
                    assert(values(self.results@) =~= Seq::<JsonView>::empty());
                }
            },
            None => {},
        }
    }
}

// ---------------------------------------------------------------------------
// Laws
// ---------------------------------------------------------------------------
/// The loop and the conversation after the tools of the reply have given
/// `outcomes`, one after the other.
pub open spec fn after_tools(
    state: LoopView,
    messages: Seq<JsonView>,
    outcomes: Seq<Result<Seq<char>, Seq<char>>>,
) -> (LoopView, Seq<JsonView>)
    decreases outcomes.len(),
{
    if outcomes.len() == 0 {
        (state, messages)
    } else {
        let (next, conversation) = after_tool(state, messages, outcomes[0]);
        after_tools(next, conversation, outcomes.skip(1))
    }
}

/// The messages with what the tools gave, in the order of the calls.
pub open spec fn tool_messages(
    calls: Seq<CallView>,
    outcomes: Seq<Result<Seq<char>, Seq<char>>>,
) -> Seq<JsonView> {
    Seq::new(outcomes.len(), |i: int| tool_message(calls[i].name, outcomes[i]))
}

proof fn lemma_tools(
    state: LoopView,
    messages: Seq<JsonView>,
    outcomes: Seq<Result<Seq<char>, Seq<char>>>,
)
    requires
        state.reply is Some,
        outcomes.len() > 0,
        state.results.len() + outcomes.len() == state.reply->0.tool_uses.len(),
    ensures
        after_tools(state, messages, outcomes) == (
            idle(),
            messages + state.results + tool_messages(
                state.reply->0.tool_uses.skip(state.results.len() as int),
                outcomes,
            ),
        ),
    decreases outcomes.len(),
{
    let calls = state.reply->0.tool_uses;
    let done = state.results.len() as int;
    let message = tool_message(calls[done].name, outcomes[0]);
    let (next, conversation) = after_tool(state, messages, outcomes[0]);
    let rest = tool_messages(calls.skip(done), outcomes);
    if outcomes.len() == 1 {
        assert(messages + state.results.push(message) =~= messages + state.results + rest);
        assert(after_tools(next, conversation, outcomes.skip(1)) == (next, conversation));
    } else {
        lemma_tools(next, conversation, outcomes.skip(1));
        let later = tool_messages(calls.skip(done + 1), outcomes.skip(1));
        assert(messages + state.results.push(message) + later =~= messages + state.results + rest);
    }
}

/// A round of the loop, a reply with the outcomes of all the tools it asks
/// for, adds to the conversation one assistant message and behind it one
/// message for each call, in the order of the calls. What was there before
/// stays as it was, and the model is called next.
pub proof fn round_appends_reply_and_results(
    messages: Seq<JsonView>,
    reply: ResponseView,
    outcomes: Seq<Result<Seq<char>, Seq<char>>>,
)
    requires
        asks_for_tools(reply),
        outcomes.len() == reply.tool_uses.len(),
    ensures
        ({
            let (state, conversation) = after_reply(messages, reply);
            after_tools(state, conversation, outcomes) == (
                idle(),
                messages.push(assistant_message(reply.text, reply.tool_uses)) + tool_messages(
                    reply.tool_uses,
                    outcomes,
                ),
            )
        }),
{
    let (state, conversation) = after_reply(messages, reply);
    lemma_tools(state, conversation, outcomes);
    assert(reply.tool_uses.skip(0) =~= reply.tool_uses);
    assert(conversation + Seq::<JsonView>::empty() =~= conversation);
}

/// A reply that asks for no tool ends the loop and adds one message.
pub proof fn last_reply_appends_one_message(messages: Seq<JsonView>, reply: ResponseView)
    requires
        !asks_for_tools(reply),
    ensures
        after_reply(messages, reply) == (
            idle(),
            messages.push(assistant_message(reply.text, reply.tool_uses)),
        ),
{
}

/// A reply that stopped to have tools run, and calls one at least, does not end
/// the loop: its first call is due, and the reply is kept with all its calls.
/// Every other reply ends the loop, and no call is due. Either way the reply
/// joins the conversation as one message of the assistant, behind all that was
/// there.
pub proof fn calls_are_run_before_the_loop_ends(messages: Seq<JsonView>, reply: ResponseView)
    ensures
        ({
            let (state, conversation) = after_reply(messages, reply);
            let goes_on = reply.stop_reason == "tool_use"@ && reply.tool_uses.len() >= 1;
            &&& goes_on ==> due_call(state) == Some(reply.tool_uses[0])
            &&& goes_on ==> state.reply == Some(reply) && state.results.len() == 0
            &&& !goes_on ==> due_call(state) is None && state.results.len() == 0
            &&& conversation.len() == messages.len() + 1
            &&& conversation.take(messages.len() as int) == messages
            &&& conversation.last().at("role"@) == JsonView::Text("assistant"@)
            &&& conversation.last().at("content"@) == JsonView::Text(reply.text)
        }),
{
    lemma_message_keys();
    let conversation = after_reply(messages, reply).1;
    assert(conversation.take(messages.len() as int) =~= messages);
}

/// The message of a reply carries its calls, each with its name and arguments,
/// in their order, and carries none where there are none.
pub proof fn calls_stand_in_the_message(text: Seq<char>, calls: Seq<CallView>, i: int)
    requires
        0 <= i < calls.len(),
    ensures
        ({
            let listed = assistant_message(text, calls).at("tool_calls"@)->Array_0;
            &&& assistant_message(text, calls).at("tool_calls"@) is Array
            &&& listed.len() == calls.len()
            &&& listed[i].at("function"@).at("name"@) == JsonView::Text(calls[i].name)
            &&& listed[i].at("function"@).at("arguments"@) == calls[i].arguments
            &&& assistant_message(text, Seq::empty()).field("tool_calls"@) is None
        }),
{
    lemma_message_keys();
}

/// While the tools of a reply are run, the calls are due one after the other in
/// the order of the reply, none is passed over and none comes twice, and the
/// conversation waits.
pub proof fn calls_are_due_in_order(
    messages: Seq<JsonView>,
    reply: ResponseView,
    outcomes: Seq<Result<Seq<char>, Seq<char>>>,
)
    requires
        reply.stop_reason == "tool_use"@,
        outcomes.len() < reply.tool_uses.len(),
    ensures
        ({
            let (state, conversation) = after_reply(messages, reply);
            let (now, spoken) = after_tools(state, conversation, outcomes);
            &&& due_call(now) == Some(reply.tool_uses[outcomes.len() as int])
            &&& spoken == conversation
        }),
{
    let (state, conversation) = after_reply(messages, reply);
    lemma_calls_in_order(state, conversation, outcomes);
}

proof fn lemma_calls_in_order(
    state: LoopView,
    messages: Seq<JsonView>,
    outcomes: Seq<Result<Seq<char>, Seq<char>>>,
)
    requires
        state.reply is Some,
        state.results.len() + outcomes.len() < state.reply->0.tool_uses.len(),
    ensures
        ({
            let (now, spoken) = after_tools(state, messages, outcomes);
            &&& now.reply == state.reply
            &&& now.results.len() == state.results.len() + outcomes.len()
            &&& spoken == messages
        }),
    decreases outcomes.len(),
{
    if outcomes.len() > 0 {
        let (next, conversation) = after_tool(state, messages, outcomes[0]);
        lemma_calls_in_order(next, conversation, outcomes.skip(1));
    }
}

/// When the last tool of a reply has been run, the conversation has grown by the
/// reply and one message for each call. The message for a call names its tool
/// and holds what that very tool gave, and says whether it failed; no call is
/// due then, so that the model is called with all of this.
pub proof fn every_result_joins_the_conversation(
    messages: Seq<JsonView>,
    reply: ResponseView,
    outcomes: Seq<Result<Seq<char>, Seq<char>>>,
    i: int,
)
    requires
        reply.stop_reason == "tool_use"@,
        outcomes.len() == reply.tool_uses.len(),
        0 <= i < outcomes.len(),
    ensures
        ({
            let (state, conversation) = after_reply(messages, reply);
            let (now, spoken) = after_tools(state, conversation, outcomes);
            let result = spoken[messages.len() + 1 + i];
            &&& due_call(now) is None
            &&& spoken.len() == messages.len() + 1 + reply.tool_uses.len()
            &&& spoken.take(messages.len() as int) == messages
            &&& spoken[messages.len() as int].at("content"@) == JsonView::Text(reply.text)
            &&& result.at("role"@) == JsonView::Text("tool"@)
            &&& result.at("tool_name"@) == JsonView::Text(reply.tool_uses[i].name)
            &&& outcomes[i] matches Ok(text) ==> result.at("content"@) == JsonView::Text(text)
                && result.at("is_error"@) == JsonView::Bool(false)
            &&& outcomes[i] matches Err(text) ==> result.at("content"@) == JsonView::Text(text)
                && result.at("is_error"@) == JsonView::Bool(true)
        }),
{
    lemma_message_keys();
    round_appends_reply_and_results(messages, reply, outcomes);
    let (state, conversation) = after_reply(messages, reply);
    let spoken = after_tools(state, conversation, outcomes).1;
    assert(spoken.take(messages.len() as int) =~= messages);
}

} // verus!
