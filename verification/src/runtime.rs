//! What the model is told before a conversation.
use vstd::prelude::*;

use crate::json::opt_view;
use crate::text::{blank, is_blank, joined};
use crate::types::opt_text;

verus! {

/// The system prompt: what is known from memory and what is known of the
/// skills, as far as either says something, with an empty line between them.
pub open spec fn base_prompt(
    memory: Option<Seq<char>>,
    skills: Option<Seq<char>>,
) -> Option<Seq<char>> {
    let remembers = memory is Some && !is_blank(memory->0);
    let knows = skills is Some && !is_blank(skills->0);
    if remembers && knows {
        Some(memory->0 + "\n\n"@ + skills->0)
    } else if remembers {
        memory
    } else if knows {
        skills
    } else {
        None
    }
}

/// Builds the system prompt from what is known from memory and of the skills.
pub fn build_base_system_prompt(memory: Option<&str>, skills: Option<&str>) -> (prompt: Option<
    String,
>)
    ensures
        opt_text(prompt) == base_prompt(opt_view(memory), opt_view(skills)),
{
    let remembered: Option<&str> = said(memory);
    let known: Option<&str> = said(skills);
    match remembered {
        Some(memory) => match known {
            Some(skills) => {
                let mut prompt: String = joined(memory, "\n\n");
                prompt.append(skills);
                Some(prompt)
            },
            None => Some(memory.to_owned()),
        },
        None => match known {
            Some(skills) => Some(skills.to_owned()),
            None => None,
        },
    }
}

/// A part of the prompt, where it says something.
fn said(part: Option<&str>) -> (found: Option<&str>)
    ensures
        found is Some <==> part is Some && !is_blank(part->0@),
        found is Some ==> found == part,
{
    match part {
        Some(text) => {
            if blank(text) {
                None
            } else {
                Some(text)
            }
        },
        None => None,
    }
}

} // verus!
