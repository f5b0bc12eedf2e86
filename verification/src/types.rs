//! The data that passes between the modules: messages, model replies, tool
//! calls, and the history that is shown to the user.
use vstd::prelude::*;

use crate::json::{compact_json, parsed_json, Json, JsonView};
use crate::text::join;

verus! {

// ---------------------------------------------------------------------------
// Messages
// ---------------------------------------------------------------------------
/// One message of a conversation: who speaks, "user" or "assistant", and what.
#[derive(Debug)]
pub struct Message {
    pub role: String,
    pub content: String,
}

impl Message {
    /// The role and the content.
    pub open spec fn view(&self) -> (Seq<char>, Seq<char>) {
        (self.role@, self.content@)
    }

    pub fn new(role: &str, content: &str) -> (message: Message)
        ensures
            message@ == (role@, content@),
    {
        Message { role: role.to_owned(), content: content.to_owned() }
    }

    pub fn user(content: &str) -> (message: Message)
        ensures
            message@ == ("user"@, content@),
    {
        Message::new("user", content)
    }

    pub fn assistant(content: &str) -> (message: Message)
        ensures
            message@ == ("assistant"@, content@),
    {
        Message::new("assistant", content)
    }
}

impl Clone for Message {
    fn clone(&self) -> (copy: Message)
        ensures
            copy@ == self@,
    {
        Message { role: self.role.clone(), content: self.content.clone() }
    }
}

/// The role and content of each message of a list.
pub open spec fn message_views(messages: Seq<Message>) -> Seq<(Seq<char>, Seq<char>)> {
    Seq::new(messages.len(), |i: int| messages[i]@)
}

// ---------------------------------------------------------------------------
// Replies of the providers
// ---------------------------------------------------------------------------
/// A complete reply.
#[derive(Debug)]
pub struct ApiResponse {
    pub id: String,
    pub model: String,
    pub role: String,
    pub content: Vec<ContentBlock>,
    pub usage: Usage,
}

/// A part of a reply's content.
#[derive(Debug)]
pub struct ContentBlock {
    pub block_type: String,
    pub text: Option<String>,
}

/// How many tokens a request took.
#[derive(Debug)]
pub struct Usage {
    pub input_tokens: u32,
    pub output_tokens: u32,
}

/// An event of a reply that comes in parts.
#[derive(Debug)]
pub struct StreamEvent {
    pub event_type: String,
    pub delta: Option<Delta>,
    pub message: Option<Json>,
    pub content_block: Option<Json>,
}

/// What an event adds to the reply.
#[derive(Debug)]
pub struct Delta {
    pub delta_type: String,
    pub text: Option<String>,
}

/// A part of a reply in the OpenAI form, which Ollama speaks too.
#[derive(Debug)]
pub struct OpenAIStreamChunk {
    pub choices: Vec<OpenAIChoice>,
}

/// One of the alternatives in a part of a reply.
#[derive(Debug)]
pub struct OpenAIChoice {
    pub delta: OpenAIDelta,
    pub finish_reason: Option<String>,
}

/// What such a part adds.
#[derive(Debug)]
pub struct OpenAIDelta {
    pub content: Option<String>,
}

/// A reply of Ollama to a chat request.
#[derive(Debug)]
pub struct OllamaChatResponse {
    pub message: OllamaMessage,
}

/// The message in such a reply.
#[derive(Debug)]
pub struct OllamaMessage {
    pub content: Option<String>,
    pub tool_calls: Option<Vec<OllamaToolCall>>,
}

/// A tool call in such a message.
#[derive(Debug)]
pub struct OllamaToolCall {
    pub function: OllamaFunctionCall,
}

/// The tool and its arguments.
#[derive(Debug)]
pub struct OllamaFunctionCall {
    pub name: String,
    pub arguments: Json,
}

// ---------------------------------------------------------------------------
// What the agent makes of a reply
// ---------------------------------------------------------------------------
/// A tool call that the model asks for.
#[derive(Debug)]
pub struct ToolUseCall {
    pub id: Option<String>,
    pub name: String,
    pub arguments: Json,
}

/// What a tool call is.
pub struct CallView {
    pub id: Option<Seq<char>>,
    pub name: Seq<char>,
    pub arguments: JsonView,
}

/// The characters of an optional string.
pub open spec fn opt_text(text: Option<String>) -> Option<Seq<char>> {
    match text {
        Some(text) => Some(text@),
        None => None,
    }
}

impl ToolUseCall {
    /// What the call is.
    pub open spec fn view(&self) -> CallView {
        CallView { id: opt_text(self.id), name: self.name@, arguments: self.arguments@ }
    }
}

/// What each call of a list is.
pub open spec fn call_views(calls: Seq<ToolUseCall>) -> Seq<CallView> {
    Seq::new(calls.len(), |i: int| calls[i]@)
}

/// A reply of the model: its text, why it stopped, and the tools it calls.
#[derive(Debug)]
pub struct AgentResponse {
    pub text: String,
    pub stop_reason: String,
    pub tool_uses: Vec<ToolUseCall>,
}

/// What a reply is.
pub struct ResponseView {
    pub text: Seq<char>,
    pub stop_reason: Seq<char>,
    pub tool_uses: Seq<CallView>,
}

impl AgentResponse {
    /// What the reply is.
    pub open spec fn view(&self) -> ResponseView {
        ResponseView {
            text: self.text@,
            stop_reason: self.stop_reason@,
            tool_uses: call_views(self.tool_uses@),
        }
    }
}

// ---------------------------------------------------------------------------
// The history
// ---------------------------------------------------------------------------
/// The messages that are shown to the user, in order.
pub struct ConversationHistory {
    messages: Vec<Message>,
}

/// `serde_json::Error`, carried through without being looked into.
#[verifier::external_type_specification]
#[verifier::external_body]
pub struct ExSerdeError(serde_json::Error);

/// The JSON value of one message.
pub open spec fn message_value(message: (Seq<char>, Seq<char>)) -> JsonView {
    JsonView::Object(
        map!["role"@ => JsonView::Text(message.0), "content"@ => JsonView::Text(message.1)],
    )
}

/// The JSON value of a list of messages.
pub open spec fn history_value(messages: Seq<(Seq<char>, Seq<char>)>) -> JsonView {
    JsonView::Array(Seq::new(messages.len(), |i: int| message_value(messages[i])))
}

/// A message as indented text, its role before its content.
pub open spec fn message_text(message: (Seq<char>, Seq<char>)) -> Seq<char> {
    "  {\n    \"role\": "@ + compact_json(JsonView::Text(message.0)) + ",\n    \"content\": "@
        + compact_json(JsonView::Text(message.1)) + "\n  }"@
}

/// A list of messages as indented text.
pub open spec fn history_json(messages: Seq<(Seq<char>, Seq<char>)>) -> Seq<char> {
    if messages.len() == 0 {
        "[]"@
    } else {
        "[\n"@ + join(Seq::new(messages.len(), |i: int| message_text(messages[i])), ",\n"@)
            + "\n]"@
    }
}

/// `serde_json::to_string_pretty` of the messages, each an object of its role
/// and then its content. All keys and values are text, so writing them does
/// not fail, and `serde_json::from_str` reads the same roles and contents
/// back. The text has a line for each of them, and the roles and contents
/// stand in it as `serde_json::to_string` writes them.
#[verifier::external_body]
fn write_messages(messages: &Vec<Message>) -> (text: Result<String, serde_json::Error>)
    ensures
        text is Ok,
        text->Ok_0@ == history_json(message_views(messages@)),
        parsed_json(text->Ok_0@) == Some(history_value(message_views(messages@))),
{
    let list: Vec<std::collections::BTreeMap<std::cmp::Reverse<&str>, &str>> = messages
        .iter()
        .map(|message| [
            (std::cmp::Reverse("role"), message.role.as_str()),
            (std::cmp::Reverse("content"), message.content.as_str()),
        ].into_iter().collect())
        .collect();
    serde_json::to_string_pretty(&list)
}

impl ConversationHistory {
    /// The role and content of each message.
    pub closed spec fn view(&self) -> Seq<(Seq<char>, Seq<char>)> {
        message_views(self.messages@)
    }

    pub fn new() -> (history: ConversationHistory)
        ensures
            history@ == Seq::<(Seq<char>, Seq<char>)>::empty(),
    {
        ConversationHistory { messages: Vec::new() }
    }

    pub fn add_user_message(&mut self, content: &str)
        ensures
            final(self)@ == old(self)@.push(("user"@, content@)),
    {
        self.messages.push(Message::user(content));
        assert(self@ =~= old(self)@.push(("user"@, content@)));
    }

    pub fn add_assistant_message(&mut self, content: &str)
        ensures
            final(self)@ == old(self)@.push(("assistant"@, content@)),
    {
        self.messages.push(Message::assistant(content));
        assert(self@ =~= old(self)@.push(("assistant"@, content@)));
    }

    pub fn get_messages(&self) -> (messages: &[Message])
        ensures
            message_views(messages@) == self@,
    {
        self.messages.as_slice()
    }

    pub fn clear(&mut self)
        ensures
            final(self)@ == Seq::<(Seq<char>, Seq<char>)>::empty(),
    {
        self.messages.clear();
        assert(self@ =~= Seq::<(Seq<char>, Seq<char>)>::empty());
    }

    pub fn len(&self) -> (len: usize)
        ensures
            len == self@.len(),
    {
        self.messages.len()
    }

    pub fn is_empty(&self) -> (empty: bool)
        ensures
            empty == (self@.len() == 0),
    {
        self.messages.len() == 0
    }

    /// The history as indented JSON, which reads back as the same messages. An
    /// empty history is an empty list.
    pub fn to_json(&self) -> (text: Result<String, serde_json::Error>)
        ensures
            text is Ok,
            text->Ok_0@ == history_json(self@),
            parsed_json(text->Ok_0@) == Some(history_value(self@)),
            self@.len() == 0 ==> text->Ok_0@ == "[]"@,
    {
        write_messages(&self.messages)
    }
}

impl Default for ConversationHistory {
    fn default() -> (history: ConversationHistory)
        ensures
            history@ == Seq::<(Seq<char>, Seq<char>)>::empty(),
    {
        ConversationHistory::new()
    }
}

} // verus!
