//! What of a conversation the user gets to see.
use vstd::prelude::*;

use crate::json::{or_empty, values, Json, JsonView};
use crate::text::same_text;
use crate::types::ConversationHistory;

verus! {

/// Whether the message was spoken by the user or the assistant.
pub open spec fn is_visible(message: JsonView) -> bool {
    let role = message.text_at("role"@);
    role == Some("user"@) || role == Some("assistant"@)
}

/// How many messages were spoken by the user or the assistant.
pub open spec fn visible_count(messages: Seq<JsonView>) -> nat
    decreases messages.len(),
{
    if messages.len() == 0 {
        0
    } else {
        visible_count(messages.drop_last()) + if is_visible(messages.last()) {
            1nat
        } else {
            0
        }
    }
}

/// The role and content of each message that was spoken by the user or the
/// assistant; what is no text counts as empty.
pub open spec fn shown_history(messages: Seq<JsonView>) -> Seq<(Seq<char>, Seq<char>)>
    decreases messages.len(),
{
    if messages.len() == 0 {
        Seq::empty()
    } else {
        let earlier = shown_history(messages.drop_last());
        let message = messages.last();
        if is_visible(message) {
            earlier.push((message.text_at("role"@)->0, or_empty(message.text_at("content"@))))
        } else {
            earlier
        }
    }
}

/// How many messages were spoken by the user or the assistant.
pub fn visible_message_count(messages: &Vec<Json>) -> (count: usize)
    ensures
        count == visible_count(values(messages@)),
{
    let mut count: usize = 0;
    let mut i: usize = 0;
    while i < messages.len()
        invariant
            i <= messages.len(),
            count <= i,
            count == visible_count(values(messages@).take(i as int)),
        decreases messages.len() - i,
    {
        let visible: bool = match messages[i].str_at("role") {
            Some(role) => same_text(role, "user") || same_text(role, "assistant"),
            None => false,
        };
        if visible {
            count += 1;
        }
        i += 1;
        proof {
            let prefix = values(messages@).take(i as int);
            assert(prefix.drop_last() =~= values(messages@).take(i - 1));
            assert(prefix.last() == messages@[i - 1]@);
        }
    }
    assert(values(messages@).take(i as int) =~= values(messages@));
    count
}

/// The history that is shown for a conversation.
pub fn rebuild_display_history(messages: &Vec<Json>) -> (history: ConversationHistory)
    ensures
        history@ == shown_history(values(messages@)),
{
    let mut history: ConversationHistory = ConversationHistory::new();
    let mut i: usize = 0;
    while i < messages.len()
        invariant
            i <= messages.len(),
            history@ == shown_history(values(messages@).take(i as int)),
        decreases messages.len() - i,
    {
        let ghost before = history@;
        if let Some(role) = messages[i].str_at("role") {
            let content: &str = messages[i].str_or_empty("content");
            if same_text(role, "user") {
                history.add_user_message(content);
            } else if same_text(role, "assistant") {
                history.add_assistant_message(content);
            }
        }
        i += 1;
        proof {
            let prefix = values(messages@).take(i as int);
            assert(prefix.drop_last() =~= values(messages@).take(i - 1));
            assert(prefix.last() == messages@[i - 1]@);
        }
    }
    assert(values(messages@).take(i as int) =~= values(messages@));
    history
}

/// As many messages are shown as there are visible ones.
pub proof fn shown_history_has_visible_count(messages: Seq<JsonView>)
    ensures
        shown_history(messages).len() == visible_count(messages),
    decreases messages.len(),
{
    if messages.len() > 0 {
        shown_history_has_visible_count(messages.drop_last());
    }
}

/// What is shown of a conversation that goes on is what was shown before it,
/// followed by what is shown of the new messages.
pub proof fn shown_history_grows(messages: Seq<JsonView>, more: Seq<JsonView>)
    ensures
        shown_history(messages + more) == shown_history(messages) + shown_history(more),
    decreases more.len(),
{
    if more.len() == 0 {
        assert(messages + more =~= messages);
        assert(shown_history(messages) + shown_history(more) =~= shown_history(messages));
    } else {
        shown_history_grows(messages, more.drop_last());
        assert((messages + more).drop_last() =~= messages + more.drop_last());
        assert((messages + more).last() == more.last());
        assert(shown_history(messages + more) =~= shown_history(messages) + shown_history(more));
    }
}

} // verus!
