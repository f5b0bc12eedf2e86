//! The `/commit` command: finding what is to be committed, agreeing on a
//! message, and committing.
//!
//! Git, the model and the user are reached from outside. `CommitFlow` says
//! what is to be done next.
use vstd::prelude::*;

use crate::prompt_input::{choice_of, choice_views, input_choice, InputChoice};
use crate::screen::{preview_of, truncate_preview};
use crate::terminal_style::{styled, Style, StyleExt};
use crate::text::{blank, is_blank, joined, lines, same_text, split_lines, texts, trim, trimmed};
use crate::text_laws::first_line_says_the_beginning;
use crate::types::opt_text;

verus! {

/// What is to be done next, over a type of text.
pub enum CommitAction<T> {
    /// Make sure that this is a git repository.
    CheckRepo,
    /// Get the changes that are staged.
    GetStaged,
    /// Get the changes that are not staged.
    GetWorking,
    /// There is nothing to commit.
    Nothing,
    /// Put this question to the model.
    AskModel(T),
    /// Ask the user about this message.
    Confirm(T),
    /// Let the user edit this message.
    Edit(T),
    /// The user does not want to commit.
    Cancelled,
    /// Stage all changes.
    StageAll,
    /// Commit with this message.
    Commit(T),
    /// It was committed with this message.
    Committed(T),
    /// It failed, with this message.
    Fail(T),
}

/// What came of the last step, over a type of text.
pub enum CommitEvent<T> {
    Done,
    /// The changes.
    Diff(T),
    /// The answer of the model.
    Reply(T),
    /// What the user chose, where the menu was not left.
    Choice(Option<T>),
    /// What the user made of the message.
    Edited(T),
    Failed(T),
}

/// How far the flow has come: what it waits for.
#[derive(Debug, Clone, Copy, PartialEq, Eq, Structural)]
pub enum CommitStage {
    Repo,
    Staged,
    Working,
    Model,
    Choice,
    Edit,
    Stage,
    Commit,
    Over,
}

/// Where the flow stands.
pub struct CommitView {
    pub stage: CommitStage,
    /// The title that the command was given.
    pub title: Option<Seq<char>>,
    /// Whether changes were staged before.
    pub staged: bool,
    /// The message as it stands.
    pub message: Seq<char>,
}

/// The characters of an action's text.
pub open spec fn action_view(action: CommitAction<String>) -> CommitAction<Seq<char>> {
    match action {
        CommitAction::CheckRepo => CommitAction::CheckRepo,
        CommitAction::GetStaged => CommitAction::GetStaged,
        CommitAction::GetWorking => CommitAction::GetWorking,
        CommitAction::Nothing => CommitAction::Nothing,
        CommitAction::AskModel(prompt) => CommitAction::AskModel(prompt@),
        CommitAction::Confirm(message) => CommitAction::Confirm(message@),
        CommitAction::Edit(message) => CommitAction::Edit(message@),
        CommitAction::Cancelled => CommitAction::Cancelled,
        CommitAction::StageAll => CommitAction::StageAll,
        CommitAction::Commit(message) => CommitAction::Commit(message@),
        CommitAction::Committed(message) => CommitAction::Committed(message@),
        CommitAction::Fail(message) => CommitAction::Fail(message@),
    }
}

/// The characters of an event's text.
pub open spec fn event_view(event: CommitEvent<String>) -> CommitEvent<Seq<char>> {
    match event {
        CommitEvent::Done => CommitEvent::Done,
        CommitEvent::Diff(text) => CommitEvent::Diff(text@),
        CommitEvent::Reply(text) => CommitEvent::Reply(text@),
        CommitEvent::Choice(None) => CommitEvent::Choice(None),
        CommitEvent::Choice(Some(text)) => CommitEvent::Choice(Some(text@)),
        CommitEvent::Edited(text) => CommitEvent::Edited(text@),
        CommitEvent::Failed(text) => CommitEvent::Failed(text@),
    }
}

/// Whether the event can come of what the flow waits for.
pub open spec fn fits<T>(stage: CommitStage, event: CommitEvent<T>) -> bool {
    match event {
        CommitEvent::Done => stage == CommitStage::Repo || stage == CommitStage::Stage || stage
            == CommitStage::Commit,
        CommitEvent::Diff(_) => stage == CommitStage::Staged || stage == CommitStage::Working,
        CommitEvent::Reply(_) => stage == CommitStage::Model,
        CommitEvent::Choice(_) => stage == CommitStage::Choice,
        CommitEvent::Edited(_) => stage == CommitStage::Edit,
        CommitEvent::Failed(_) => stage != CommitStage::Over,
    }
}

/// The question for a commit message.
pub open spec fn commit_prompt(diff: Seq<char>) -> Seq<char> {
    "请根据以下 git diff 生成一个简洁的 Conventional Commit 风格提交消息。只返回一行提交消息，不要解释。\n\nDiff:\n"@
        + preview_of(diff, 12_000)
}

/// The message in an answer of the model: its first line.
pub open spec fn message_in(reply: Seq<char>) -> Seq<char> {
    let list = lines(reply);
    if list.len() == 0 {
        Seq::empty()
    } else {
        trim(list[0])
    }
}

/// The flow with a message to be agreed on: an empty one is refused.
pub open spec fn suggest(state: CommitView, message: Seq<char>) -> (
    CommitView,
    CommitAction<Seq<char>>,
) {
    if message.len() == 0 {
        (
            CommitView { stage: CommitStage::Over, message, ..state },
            CommitAction::Fail("model returned an empty commit message"@),
        )
    } else {
        (
            CommitView { stage: CommitStage::Choice, message, ..state },
            CommitAction::Confirm(message),
        )
    }
}

/// The flow with changes to be committed.
pub open spec fn propose(state: CommitView, diff: Seq<char>) -> (
    CommitView,
    CommitAction<Seq<char>>,
) {
    match state.title {
        Some(title) => suggest(state, trim(title)),
        None => (
            CommitView { stage: CommitStage::Model, ..state },
            CommitAction::AskModel(commit_prompt(diff)),
        ),
    }
}

/// The flow with a message that was agreed on: all changes are staged first
/// where none were.
pub open spec fn agreed(state: CommitView, message: Seq<char>) -> (
    CommitView,
    CommitAction<Seq<char>>,
) {
    if state.staged {
        (
            CommitView { stage: CommitStage::Commit, message, ..state },
            CommitAction::Commit(message),
        )
    } else {
        (CommitView { stage: CommitStage::Stage, message, ..state }, CommitAction::StageAll)
    }
}

/// The flow without a commit.
pub open spec fn cancelled(state: CommitView) -> (CommitView, CommitAction<Seq<char>>) {
    (CommitView { stage: CommitStage::Over, ..state }, CommitAction::Cancelled)
}

/// The flow after an event that fits, and what is to be done next.
pub open spec fn next_step(state: CommitView, event: CommitEvent<Seq<char>>) -> (
    CommitView,
    CommitAction<Seq<char>>,
) {
    match event {
        CommitEvent::Done => match state.stage {
            CommitStage::Repo => (
                CommitView { stage: CommitStage::Staged, ..state },
                CommitAction::GetStaged,
            ),
            CommitStage::Stage => (
                CommitView { stage: CommitStage::Commit, ..state },
                CommitAction::Commit(state.message),
            ),
            _ => (
                CommitView { stage: CommitStage::Over, ..state },
                CommitAction::Committed(state.message),
            ),
        },
        CommitEvent::Diff(diff) => if state.stage == CommitStage::Staged {
            if is_blank(diff) {
                (
                    CommitView { stage: CommitStage::Working, staged: false, ..state },
                    CommitAction::GetWorking,
                )
            } else {
                propose(CommitView { staged: true, ..state }, diff)
            }
        } else if is_blank(diff) {
            (CommitView { stage: CommitStage::Over, ..state }, CommitAction::Nothing)
        } else {
            propose(state, diff)
        },
        CommitEvent::Reply(reply) => suggest(state, message_in(reply)),
        CommitEvent::Choice(choice) => if choice == Some("yes"@) {
            agreed(state, state.message)
        } else if choice == Some("edit"@) {
            (
                CommitView { stage: CommitStage::Edit, ..state },
                CommitAction::Edit(state.message),
            )
        } else {
            cancelled(state)
        },
        CommitEvent::Edited(text) => if is_blank(text) {
            cancelled(state)
        } else {
            agreed(state, trim(text))
        },
        CommitEvent::Failed(error) => (
            CommitView { stage: CommitStage::Over, ..state },
            CommitAction::Fail(error),
        ),
    }
}

/// The course of a commit.
pub struct CommitFlow {
    stage: CommitStage,
    title: Option<String>,
    staged: bool,
    message: String,
}

impl CommitFlow {
    /// Where the flow stands.
    pub closed spec fn view(&self) -> CommitView {
        CommitView {
            stage: self.stage,
            title: opt_text(self.title),
            staged: self.staged,
            message: self.message@,
        }
    }

    /// Starts with the title that the command was given, if any.
    pub fn begin(title: Option<String>) -> (made: (CommitFlow, CommitAction<String>))
        ensures
            made.0@ == (CommitView {
                stage: CommitStage::Repo,
                title: opt_text(title),
                staged: false,
                message: Seq::empty(),
            }),
            action_view(made.1) == CommitAction::<Seq<char>>::CheckRepo,
    {
        let flow: CommitFlow = CommitFlow {
            stage: CommitStage::Repo,
            title,
            staged: false,
            message: String::new(),
        };
        assert(flow.message@ =~= Seq::<char>::empty());
        (flow, CommitAction::CheckRepo)
    }

    fn suggest_message(&mut self, message: String) -> (action: CommitAction<String>)
        ensures
            (final(self)@, action_view(action)) == suggest(old(self)@, message@),
    {
        self.message = message.clone();
        if message.as_str().is_empty() {
            self.stage = CommitStage::Over;
            CommitAction::Fail("model returned an empty commit message".to_owned())
        } else {
            self.stage = CommitStage::Choice;
            CommitAction::Confirm(message)
        }
    }

    fn propose_message(&mut self, diff: &str) -> (action: CommitAction<String>)
        ensures
            (final(self)@, action_view(action)) == propose(old(self)@, diff@),
    {
        let title: Option<String> = match &self.title {
            Some(title) => Some(trimmed(title.as_str()).to_owned()),
            None => None,
        };
        match title {
            Some(title) => self.suggest_message(title),
            None => {
                self.stage = CommitStage::Model;
                CommitAction::AskModel(
                    joined(
                        "请根据以下 git diff 生成一个简洁的 Conventional Commit 风格提交消息。只返回一行提交消息，不要解释。\n\nDiff:\n",
                        truncate_preview(diff, 12_000).as_str(),
                    ),
                )
            },
        }
    }

    fn agree(&mut self, message: String) -> (action: CommitAction<String>)
        ensures
            (final(self)@, action_view(action)) == agreed(old(self)@, message@),
    {
        self.message = message.clone();
        if self.staged {
            self.stage = CommitStage::Commit;
            CommitAction::Commit(message)
        } else {
            self.stage = CommitStage::Stage;
            CommitAction::StageAll
        }
    }

    fn cancel(&mut self) -> (action: CommitAction<String>)
        ensures
            (final(self)@, action_view(action)) == cancelled(old(self)@),
    {
        self.stage = CommitStage::Over;
        CommitAction::Cancelled
    }

    /// Takes what came of the last step and says what is to be done next.
    pub fn handle_commit_command(&mut self, event: CommitEvent<String>) -> (action: CommitAction<
        String,
    >)
        requires
            fits(old(self)@.stage, event),
        ensures
            (final(self)@, action_view(action)) == next_step(old(self)@, event_view(event)),
            event matches CommitEvent::Edited(text) ==> !is_blank(text@) ==> final(self)@.message
                == trim(text@) && if old(self)@.staged {
                action matches CommitAction::Commit(message) && message@ == trim(text@)
            } else {
                action is StageAll
            },
            event matches CommitEvent::Choice(Some(choice)) ==> choice@ == "yes"@
                ==> final(self)@.message == old(self)@.message && if old(self)@.staged {
                action matches CommitAction::Commit(message) && message@ == old(self)@.message
            } else {
                action is StageAll
            },
            event is Done && old(self)@.stage == CommitStage::Stage ==> (
            action matches CommitAction::Commit(message) && message@ == old(self)@.message),
            event matches CommitEvent::Failed(error) ==> (action matches CommitAction::Fail(told)
                && told@ == error@),
    {
        match event {
            CommitEvent::Done => match self.stage {
                CommitStage::Repo => {
                    self.stage = CommitStage::Staged;
                    CommitAction::GetStaged
                },
                CommitStage::Stage => {
                    self.stage = CommitStage::Commit;
                    CommitAction::Commit(self.message.clone())
                },
                _ => {
                    self.stage = CommitStage::Over;
                    CommitAction::Committed(self.message.clone())
                },
            },
            CommitEvent::Diff(diff) => {
                let nothing: bool = blank(diff.as_str());
                if self.stage == CommitStage::Staged {
                    if nothing {
                        self.stage = CommitStage::Working;
                        self.staged = false;
                        CommitAction::GetWorking
                    } else {
                        self.staged = true;
                        self.propose_message(diff.as_str())
                    }
                } else if nothing {
                    self.stage = CommitStage::Over;
                    CommitAction::Nothing
                } else {
                    self.propose_message(diff.as_str())
                }
            },
            CommitEvent::Reply(reply) => {
                let list: Vec<String> = split_lines(reply.as_str());
                assert(texts(list@) == lines(reply@));
                let message: String = if list.len() == 0 {
                    let none: String = String::new();
                    assert(none@ =~= Seq::<char>::empty());
                    none
                } else {
                    assert(texts(list@)[0] == list@[0]@);
                    trimmed(list[0].as_str()).to_owned()
                };
                self.suggest_message(message)
            },
            CommitEvent::Choice(choice) => match choice {
                Some(choice) => {
                    proof {
                        reveal_strlit("yes");
                        reveal_strlit("edit");
                    }
                    if same_text(choice.as_str(), "yes") {
                        let message: String = self.message.clone();
                        self.agree(message)
                    } else if same_text(choice.as_str(), "edit") {
                        self.stage = CommitStage::Edit;
                        CommitAction::Edit(self.message.clone())
                    } else {
                        self.cancel()
                    }
                },
                None => self.cancel(),
            },
            CommitEvent::Edited(text) => {
                if blank(text.as_str()) {
                    self.cancel()
                } else {
                    self.agree(trimmed(text.as_str()).to_owned())
                }
            },
            CommitEvent::Failed(error) => {
                self.stage = CommitStage::Over;
                CommitAction::Fail(error)
            },
        }
    }
}

/// The choices when the user is asked about the message.
pub fn confirm_options() -> (choices: Vec<InputChoice>)
    ensures
        choice_views(choices@) == seq![
            choice_of("yes"@, "Commit with the suggested message"@),
            choice_of("edit"@, "Edit the commit message first"@),
            choice_of("no"@, "Cancel this commit"@),
        ],
{
    let mut choices: Vec<InputChoice> = Vec::new();
    choices.push(input_choice("yes", "Commit with the suggested message"));
    choices.push(input_choice("edit", "Edit the commit message first"));
    choices.push(input_choice("no", "Cancel this commit"));
    assert(choice_views(choices@) =~= seq![
        choice_of("yes"@, "Commit with the suggested message"@),
        choice_of("edit"@, "Edit the commit message first"@),
        choice_of("no"@, "Cancel this commit"@),
    ]);
    choices
}

/// What is printed when it comes to an action.
pub open spec fn commit_line(action: CommitAction<Seq<char>>) -> Option<Seq<char>> {
    match action {
        CommitAction::Nothing => Some(styled(Style::Yellow, "ℹ️ No git changes to commit"@)),
        CommitAction::AskModel(_) => Some(
            styled(Style::Yellow, "📝 Generating commit message...\n"@),
        ),
        CommitAction::Confirm(message) => Some(
            styled(Style::Bold, styled(Style::Cyan, "Suggested commit message:"@)) + " "@ + styled(
                Style::White,
                message,
            ),
        ),
        CommitAction::Cancelled => Some(styled(Style::Yellow, "Commit cancelled"@)),
        CommitAction::Committed(message) => Some(
            styled(Style::Green, "✅ Committed:"@) + " "@ + styled(Style::White, message),
        ),
        _ => None,
    }
}

/// What is printed when it comes to an action.
pub fn action_line(action: &CommitAction<String>) -> (line: Option<String>)
    ensures
        opt_text(line) == commit_line(action_view(*action)),
{
    match action {
        CommitAction::Nothing => Some("ℹ️ No git changes to commit".yellow().to_text()),
        CommitAction::AskModel(_) => Some("📝 Generating commit message...\n".yellow().to_text()),
        CommitAction::Confirm(message) => {
            let mut line: String = "Suggested commit message:".cyan().bold().to_text();
            line.append(" ");
            line.append(message.white().to_text().as_str());
            Some(line)
        },
        CommitAction::Cancelled => Some("Commit cancelled".yellow().to_text()),
        CommitAction::Committed(message) => {
            let mut line: String = "✅ Committed:".green().to_text();
            line.append(" ");
            line.append(message.white().to_text().as_str());
            Some(line)
        },
        _ => None,
    }
}

// ---------------------------------------------------------------------------
// Laws
// ---------------------------------------------------------------------------
/// Whether the message is one that can be committed, as soon as there is
/// something to agree on.
pub open spec fn sound(state: CommitView) -> bool {
    match state.stage {
        CommitStage::Choice | CommitStage::Edit | CommitStage::Stage | CommitStage::Commit =>
            state.message.len() > 0,
        _ => true,
    }
}

/// No commit is made with an empty message, whatever comes from the model and
/// from the user.
pub proof fn committed_message_is_not_empty(state: CommitView, event: CommitEvent<Seq<char>>)
    requires
        fits(state.stage, event),
        sound(state),
    ensures
        sound(next_step(state, event).0),
        next_step(state, event).1 matches CommitAction::Commit(message) ==> message.len() > 0,
{
}

/// It comes to a commit only after the user said yes, or edited the message,
/// or the changes were staged for such a commit.
pub proof fn commit_needs_consent(state: CommitView, event: CommitEvent<Seq<char>>)
    requires
        fits(state.stage, event),
        next_step(state, event).1 is Commit || next_step(state, event).1 is StageAll,
    ensures
        event == CommitEvent::Choice(Some("yes"@)) || event is Edited || state.stage
            == CommitStage::Stage,
{
}

/// Changes that were staged are committed as they are: nothing else is staged
/// then.
pub proof fn staged_changes_stay(state: CommitView, event: CommitEvent<Seq<char>>)
    requires
        fits(state.stage, event),
        state.staged,
        state.stage != CommitStage::Staged,
    ensures
        next_step(state, event).0.staged,
        !(next_step(state, event).1 is StageAll),
{
}

/// What the user made of the message is what is committed. After an edit that
/// is not blank the next step commits that text, without the white space around
/// it, where changes were staged; where none were, all are staged, and then it
/// is committed under that text. What was suggested before does not matter. A
/// blank edit commits nothing.
pub proof fn edited_message_is_committed(state: CommitView, text: Seq<char>)
    requires
        state.stage == CommitStage::Edit,
    ensures
        ({
            let (next, action) = next_step(state, CommitEvent::Edited(text));
            let (last, behind) = next_step(next, CommitEvent::Done);
            &&& is_blank(text) ==> action is Cancelled && next.stage == CommitStage::Over
            &&& !is_blank(text) && state.staged ==> action == CommitAction::Commit(trim(text))
                && next.stage == CommitStage::Commit && behind == CommitAction::Committed(
                trim(text),
            )
            &&& !is_blank(text) && !state.staged ==> action is StageAll && next.stage
                == CommitStage::Stage && behind == CommitAction::Commit(trim(text)) && next_step(
                last,
                CommitEvent::Done,
            ).1 == CommitAction::Committed(trim(text))
        }),
{
}

/// What was suggested is what is committed where the user says yes: the message
/// that was put before the user, at once where changes were staged, and after
/// staging all where none were. Only `edit` leads to an edit, of that message,
/// and every other answer, or none, commits nothing.
pub proof fn accepted_message_is_committed(
    before: CommitView,
    event: CommitEvent<Seq<char>>,
    message: Seq<char>,
    choice: Option<Seq<char>>,
)
    requires
        fits(before.stage, event),
        next_step(before, event).1 == CommitAction::Confirm(message),
    ensures
        ({
            let state = next_step(before, event).0;
            let (next, action) = next_step(state, CommitEvent::Choice(choice));
            let (last, behind) = next_step(next, CommitEvent::Done);
            &&& choice == Some("yes"@) && state.staged ==> action == CommitAction::Commit(message)
                && behind == CommitAction::Committed(message)
            &&& choice == Some("yes"@) && !state.staged ==> action is StageAll && behind
                == CommitAction::Commit(message) && next_step(last, CommitEvent::Done).1
                == CommitAction::Committed(message)
            &&& choice == Some("edit"@) ==> action == CommitAction::Edit(message) && next.stage
                == CommitStage::Edit && next.staged == state.staged
            &&& choice != Some("yes"@) && choice != Some("edit"@) ==> action is Cancelled
                && next.stage == CommitStage::Over
        }),
{
    reveal_strlit("yes");
    reveal_strlit("edit");
    assert("yes"@.len() == 3 && "edit"@.len() == 4);
}

/// Staged changes are what is committed where there are any, and then nothing
/// else is looked at; else it is the changes that are not staged; and where
/// there are neither, nothing is committed. A title is put before the user as
/// it is, and without one the model is asked about these very changes.
pub proof fn changes_are_proposed(
    title: Option<Seq<char>>,
    staged: Seq<char>,
    working: Seq<char>,
    message: Seq<char>,
)
    ensures
        ({
            let start = CommitView {
                stage: CommitStage::Repo,
                title,
                staged: false,
                message: Seq::empty(),
            };
            let (checked, first) = next_step(start, CommitEvent::Done);
            let (found, second) = next_step(checked, CommitEvent::Diff(staged));
            let (looked, third) = next_step(found, CommitEvent::Diff(working));
            &&& first is GetStaged
            &&& !is_blank(staged) ==> found.staged && second == (match title {
                Some(title) => if trim(title).len() == 0 {
                    CommitAction::Fail("model returned an empty commit message"@)
                } else {
                    CommitAction::Confirm(trim(title))
                },
                None => CommitAction::AskModel(commit_prompt(staged)),
            })
            &&& is_blank(staged) ==> second is GetWorking && found.stage == CommitStage::Working
            &&& is_blank(staged) && is_blank(working) ==> third is Nothing && looked.stage
                == CommitStage::Over
            &&& is_blank(staged) && !is_blank(working) ==> !looked.staged && third == (
            match title {
                Some(title) => if trim(title).len() == 0 {
                    CommitAction::Fail("model returned an empty commit message"@)
                } else {
                    CommitAction::Confirm(trim(title))
                },
                None => CommitAction::AskModel(commit_prompt(working)),
            })
        }),
{
}

/// The model is asked about the changes as they are, up to the characters that
/// are shown of very long ones.
pub proof fn model_sees_the_changes(diff: Seq<char>)
    ensures
        ({
            let shown = if diff.len() <= 12_000 {
                diff
            } else {
                diff.take(12_000)
            };
            exists|at: int|
                0 <= at <= commit_prompt(diff).len() && shown.is_prefix_of(
                    #[trigger] commit_prompt(diff).skip(at),
                )
        }) || diff.len() == 0,
{
    let shown = preview_of(diff, 12_000);
    let all = commit_prompt(diff);
    let at = all.len() - shown.len();
    assert(all.skip(at) =~= shown);
    if diff.len() > 12_000 {
        assert(diff.take(12_000).is_prefix_of(shown));
    } else if diff.len() > 0 {
        assert(diff.is_prefix_of(shown));
    }
}

/// What the model answers is put before the user: the first line of the answer,
/// without the white space around it. An answer whose first line says nothing
/// is a failure.
pub proof fn answer_is_put_before_the_user(state: CommitView, line: Seq<char>, rest: Seq<char>)
    requires
        state.stage == CommitStage::Model,
        forall|i: int| 0 <= i < line.len() ==> line[i] != '\n',
    ensures
        ({
            let (next, action) = next_step(
                state,
                CommitEvent::Reply(line + seq!['\n'] + rest),
            );
            &&& trim(line).len() > 0 ==> action == CommitAction::Confirm(trim(line)) && next.stage
                == CommitStage::Choice && next.staged == state.staged
            &&& trim(line).len() == 0 ==> action is Fail && next.stage == CommitStage::Over
        }),
{
    first_line_says_the_beginning(line, rest);
}

/// A failure ends the flow, with its message, and nothing is committed.
pub proof fn failure_ends_the_commit(state: CommitView, error: Seq<char>)
    ensures
        next_step(state, CommitEvent::Failed(error)).1 == CommitAction::Fail(error),
        next_step(state, CommitEvent::Failed(error)).0.stage == CommitStage::Over,
{
}

} // verus!
