//! The canonical run, prompt and message model shared by the run engine.
use vstd::prelude::*;

use crate::error::Error;
use crate::json::{Json, JsonV};
use vstd::string::StrSliceExecFns;

verus! {

/// Identifies one server-side run.
#[derive(Clone, Debug, PartialEq, Eq, Hash)]
pub struct RunId(pub String);

/// Identifies one persisted conversation.
#[derive(Clone, Debug, PartialEq, Eq, Hash)]
pub struct ConversationId(pub String);

/// Identifies one conversation checkpoint.
#[derive(Clone, Copy, Debug, PartialEq, Eq, Hash)]
pub struct CheckpointId(pub u64);

/// Identifies one round of tool calls within a run.
#[derive(Clone, Debug, PartialEq, Eq, Hash)]
pub struct ToolRoundId(pub String);

impl RunId {
    pub fn new(value: &str) -> (r: Self)
        ensures
            r.0@ == value@,
    {
        RunId(value.to_owned())
    }
}

impl ConversationId {
    pub fn new(value: &str) -> (r: Self)
        ensures
            r.0@ == value@,
    {
        ConversationId(value.to_owned())
    }
}

/// Whether a run is a conversation's own run or a delegated child run.
#[derive(Clone, Copy, Debug, PartialEq, Eq, Structural)]
pub enum RunKind {
    Root,
    Subagent,
}

/// What a run does when it starts.
#[derive(Debug)]
pub enum RunAction {
    Start,
    Resume { pending_tool_round: Option<ToolRoundId> },
}

/// The author of a message.
#[derive(Clone, Copy, Debug, PartialEq, Eq, Structural)]
pub enum Role {
    System,
    User,
    Assistant,
    Tool,
}

/// Where a message came from.
#[derive(Clone, Copy, Debug, PartialEq, Eq, Structural)]
pub enum Origin {
    Client,
    Runtime,
}

/// A tool call that the model made.
#[derive(Debug)]
pub struct ToolCall {
    pub index: usize,
    pub call_id: String,
    pub model_call_id: String,
    pub name: String,
    pub arguments_text: String,
    pub arguments: Json,
}

/// The result of one tool call.
#[derive(Debug)]
pub struct ToolResult {
    pub call_id: String,
    pub content: String,
    pub is_error: bool,
}

/// The content of a canonical message.
#[derive(Debug)]
pub enum MessageContent {
    Text(String),
    Assistant { text: String, tool_calls: Vec<ToolCall> },
    ToolResult(ToolResult),
}

/// One message of a conversation's canonical history.
#[derive(Debug)]
pub struct CanonicalMessage {
    pub message_id: String,
    pub role: Role,
    pub origin: Origin,
    pub content: MessageContent,
}

pub struct ToolCallV {
    pub index: usize,
    pub call_id: Seq<char>,
    pub model_call_id: Seq<char>,
    pub name: Seq<char>,
    pub arguments_text: Seq<char>,
    pub arguments: JsonV,
}

pub struct ToolResultV {
    pub call_id: Seq<char>,
    pub content: Seq<char>,
    pub is_error: bool,
}

pub enum ContentV {
    Text(Seq<char>),
    Assistant { text: Seq<char>, tool_calls: Seq<ToolCallV> },
    ToolResult(ToolResultV),
}

pub struct MessageV {
    pub message_id: Seq<char>,
    pub role: Role,
    pub origin: Origin,
    pub content: ContentV,
}

impl View for ToolCall {
    type V = ToolCallV;

    open spec fn view(&self) -> ToolCallV {
        ToolCallV {
            index: self.index,
            call_id: self.call_id@,
            model_call_id: self.model_call_id@,
            name: self.name@,
            arguments_text: self.arguments_text@,
            arguments: self.arguments.view_json(),
        }
    }
}

impl View for ToolResult {
    type V = ToolResultV;

    open spec fn view(&self) -> ToolResultV {
        ToolResultV { call_id: self.call_id@, content: self.content@, is_error: self.is_error }
    }
}

impl View for MessageContent {
    type V = ContentV;

    open spec fn view(&self) -> ContentV {
        match self {
            MessageContent::Text(t) => ContentV::Text(t@),
            MessageContent::Assistant { text, tool_calls } => ContentV::Assistant {
                text: text@,
                tool_calls: tool_calls@.map_values(|c: ToolCall| c@),
            },
            MessageContent::ToolResult(r) => ContentV::ToolResult(r@),
        }
    }
}

impl View for CanonicalMessage {
    type V = MessageV;

    open spec fn view(&self) -> MessageV {
        MessageV {
            message_id: self.message_id@,
            role: self.role,
            origin: self.origin,
            content: self.content@,
        }
    }
}

/// The values of a list of messages.
pub open spec fn messages_view(messages: Seq<CanonicalMessage>) -> Seq<MessageV> {
    messages.map_values(|m: CanonicalMessage| m@)
}

impl ToolCall {
    pub fn clone_call(&self) -> (r: Self)
        ensures
            r@ == self@,
    {
        ToolCall {
            index: self.index,
            call_id: self.call_id.clone(),
            model_call_id: self.model_call_id.clone(),
            name: self.name.clone(),
            arguments_text: self.arguments_text.clone(),
            arguments: self.arguments.clone_json(),
        }
    }
}

impl MessageContent {
    pub fn clone_content(&self) -> (r: Self)
        ensures
            r@ == self@,
    {
        match self {
            MessageContent::Text(t) => MessageContent::Text(t.clone()),
            MessageContent::Assistant { text, tool_calls } => {
                let mut calls: Vec<ToolCall> = Vec::new();
                let mut i: usize = 0;
                while i < tool_calls.len()
                    invariant
                        i <= tool_calls.len(),
                        calls.len() == i,
                        forall|j: int| 0 <= j < i ==> (#[trigger] calls@[j])@ == tool_calls@[j]@,
                    decreases tool_calls.len() - i,
                {
                    calls.push(tool_calls[i].clone_call());
                    i += 1;
                }
                assert(calls@.map_values(|c: ToolCall| c@) =~= tool_calls@.map_values(|c: ToolCall| c@));
                MessageContent::Assistant { text: text.clone(), tool_calls: calls }
            },
            MessageContent::ToolResult(r) => MessageContent::ToolResult(
                ToolResult {
                    call_id: r.call_id.clone(),
                    content: r.content.clone(),
                    is_error: r.is_error,
                },
            ),
        }
    }
}

impl CanonicalMessage {
    /// A plain text message.
    pub fn text(message_id: &str, role: Role, origin: Origin, text: String) -> (r: Self)
        ensures
            r@ == (MessageV {
                message_id: message_id@,
                role,
                origin,
                content: ContentV::Text(text@),
            }),
    {
        CanonicalMessage {
            message_id: message_id.to_owned(),
            role,
            origin,
            content: MessageContent::Text(text),
        }
    }

    pub fn clone_message(&self) -> (r: Self)
        ensures
            r@ == self@,
    {
        CanonicalMessage {
            message_id: self.message_id.clone(),
            role: self.role,
            origin: self.origin,
            content: self.content.clone_content(),
        }
    }
}


/// A tool offered to the model.
#[derive(Debug)]
pub struct ToolSpec {
    pub name: String,
    pub description: String,
    pub parameters: Json,
}

/// The instructions and tools of a prompt.
#[derive(Debug)]
pub struct PromptSpec {
    pub instructions: String,
    pub tools: Vec<ToolSpec>,
}

/// The model a run talks to, with its limits where they are known.
#[derive(Debug)]
pub struct ModelSpec {
    pub model_id: String,
    pub display_name: Option<String>,
    pub context_window_tokens: Option<u64>,
    pub max_output_tokens: Option<u64>,
}

impl ModelSpec {
    pub fn new(model_id: &str) -> (r: Self)
        ensures
            r.model_id@ == model_id@,
            r.display_name is None,
            r.context_window_tokens is None,
            r.max_output_tokens is None,
    {
        ModelSpec {
            model_id: model_id.to_owned(),
            display_name: None,
            context_window_tokens: None,
            max_output_tokens: None,
        }
    }
}

/// Everything a run needs before it starts.
#[derive(Debug)]
pub struct PreparedRun {
    pub run_id: RunId,
    pub cursor_request_id: Option<String>,
    pub conversation_id: ConversationId,
    pub kind: RunKind,
    pub model: ModelSpec,
    pub prompt: PromptSpec,
    pub initial_messages: Vec<CanonicalMessage>,
    pub action: RunAction,
    pub base_checkpoint_id: CheckpointId,
}

/// A message as the provider sees it.
#[derive(Debug)]
pub struct ProjectedMessage {
    pub role: Role,
    pub text: String,
}

/// The text of a list of tool calls: each call's name followed by its arguments.
pub open spec fn calls_text(calls: Seq<ToolCallV>) -> Seq<char>
    decreases calls.len(),
{
    if calls.len() == 0 {
        Seq::empty()
    } else {
        calls_text(calls.drop_last()) + calls.last().name + calls.last().arguments_text
    }
}

/// The provider-visible text of a message.
pub open spec fn projected_text(content: ContentV) -> Seq<char> {
    match content {
        ContentV::Text(t) => t,
        ContentV::Assistant { text, tool_calls } => text + calls_text(tool_calls),
        ContentV::ToolResult(r) => r.content,
    }
}

/// The provider-visible form of a history: each message's role and text.
pub open spec fn projection(messages: Seq<MessageV>) -> Seq<(Role, Seq<char>)> {
    messages.map_values(|m: MessageV| (m.role, projected_text(m.content)))
}

/// The role and text of projected messages.
pub open spec fn projected_view(messages: Seq<ProjectedMessage>) -> Seq<(Role, Seq<char>)> {
    messages.map_values(|m: ProjectedMessage| (m.role, m.text@))
}

/// A history that only grows keeps its projection: the projection of a
/// history followed by more messages is the projection of the history
/// followed by that of the new messages, so each turn's provider history is
/// a prefix of the next one's, with no earlier message edited, merged,
/// reordered or regenerated.
pub proof fn law_projection_keeps_prefix(history: Seq<MessageV>, later: Seq<MessageV>)
    ensures
        projection(history + later) == projection(history) + projection(later),
        projection(history + later).take(history.len() as int) == projection(history),
{
    assert(projection(history + later) =~= projection(history) + projection(later));
    assert(projection(history + later).take(history.len() as int) =~= projection(history));
}

/// Projects canonical history into the messages a provider receives: each
/// message keeps its role, and its text is the message text, followed for an
/// assistant message by each tool call's name and arguments.
pub fn project_messages(messages: &[CanonicalMessage]) -> (r: Result<Vec<ProjectedMessage>, Error>)
    ensures
        r matches Ok(p) && p.len() == messages.len() && forall|i: int|
            0 <= i < messages.len() ==> (#[trigger] p@[i]).role == messages@[i].role
                && p@[i].text@ == projected_text(messages@[i].content@),
        r matches Ok(p) && projected_view(p@) == projection(messages_view(messages@)),
{
    let mut out: Vec<ProjectedMessage> = Vec::new();
    let mut i: usize = 0;
    while i < messages.len()
        invariant
            i <= messages.len(),
            out.len() == i,
            forall|j: int|
                0 <= j < i ==> (#[trigger] out@[j]).role == messages@[j].role && out@[j].text@
                    == projected_text(messages@[j].content@),
        decreases messages.len() - i,
    {
        let text = match &messages[i].content {
            MessageContent::Text(t) => t.clone(),
            MessageContent::Assistant { text, tool_calls } => {
                let mut s = text.clone();
                let mut k: usize = 0;
                while k < tool_calls.len()
                    invariant
                        k <= tool_calls.len(),
                        s@ == text@ + calls_text(tool_calls@.take(k as int).map_values(|c: ToolCall| c@)),
                    decreases tool_calls.len() - k,
                {
                    s.append(tool_calls[k].name.as_str());
                    s.append(tool_calls[k].arguments_text.as_str());
                    let ghost prev = tool_calls@.take(k as int).map_values(|c: ToolCall| c@);
                    k += 1;
                    proof {
                        let next = tool_calls@.take(k as int).map_values(|c: ToolCall| c@);
                        assert(next.drop_last() =~= prev);
                        assert(next.last() == tool_calls@[k - 1]@);
                    }
                }
                assert(tool_calls@.take(tool_calls.len() as int) == tool_calls@);
                s
            },
            MessageContent::ToolResult(r) => r.content.clone(),
        };
        out.push(ProjectedMessage { role: messages[i].role, text });
        i += 1;
    }
    assert(projected_view(out@) =~= projection(messages_view(messages@)));
    Ok(out)
}

/// The number of characters in the tool names and descriptions of a prompt.
pub open spec fn tools_chars(tools: Seq<ToolSpec>) -> nat
    decreases tools.len(),
{
    if tools.len() == 0 {
        0
    } else {
        tools_chars(tools.drop_last()) + tools.last().name@.len() + tools.last().description@.len()
    }
}

/// The number of characters in a list of projected messages.
pub open spec fn messages_chars(messages: Seq<ProjectedMessage>) -> nat
    decreases messages.len(),
{
    if messages.len() == 0 {
        0
    } else {
        messages_chars(messages.drop_last()) + messages.last().text@.len()
    }
}

/// The characters a provider receives for a prompt and its messages.
pub open spec fn context_chars(prompt: PromptSpec, messages: Seq<ProjectedMessage>) -> nat {
    prompt.instructions@.len() + tools_chars(prompt.tools@) + messages_chars(messages)
}

/// The estimated token count of a context: one token per four characters,
/// rounded up, saturating at `u64::MAX`.
pub open spec fn context_tokens(prompt: PromptSpec, messages: Seq<ProjectedMessage>) -> u64 {
    let chars = context_chars(prompt, messages);
    if chars > u64::MAX {
        u64::MAX
    } else {
        (chars / 4 + if chars % 4 == 0 { 0nat } else { 1nat }) as u64
    }
}

proof fn lemma_tools_chars_monotone(tools: Seq<ToolSpec>, i: int, j: int)
    requires
        0 <= i <= j <= tools.len(),
    ensures
        tools_chars(tools.take(i)) <= tools_chars(tools.take(j)),
    decreases j - i,
{
    if i < j {
        lemma_tools_chars_monotone(tools, i, j - 1);
        assert(tools.take(j).drop_last() == tools.take(j - 1));
    }
}

proof fn lemma_messages_chars_monotone(messages: Seq<ProjectedMessage>, i: int, j: int)
    requires
        0 <= i <= j <= messages.len(),
    ensures
        messages_chars(messages.take(i)) <= messages_chars(messages.take(j)),
    decreases j - i,
{
    if i < j {
        lemma_messages_chars_monotone(messages, i, j - 1);
        assert(messages.take(j).drop_last() == messages.take(j - 1));
    }
}

/// Estimates the tokens that a prompt and its projected messages occupy.
pub fn estimate_context_tokens(prompt: &PromptSpec, messages: &[ProjectedMessage]) -> (r: u64)
    ensures
        r == context_tokens(*prompt, messages@),
{
    let mut total: u64 = prompt.instructions.as_str().unicode_len() as u64;
    let mut i: usize = 0;
    while i < prompt.tools.len()
        invariant
            i <= prompt.tools.len(),
            total == prompt.instructions@.len() + tools_chars(prompt.tools@.take(i as int)),
        decreases prompt.tools.len() - i,
    {
        let tool = &prompt.tools[i];
        let n = tool.name.as_str().unicode_len() as u64;
        let d = tool.description.as_str().unicode_len() as u64;
        assert(prompt.tools@.take(i + 1).drop_last() == prompt.tools@.take(i as int));
        match total.checked_add(n) {
            Some(t) => match t.checked_add(d) {
                Some(t2) => {
                    total = t2;
                },
                None => {
                    proof {
                        lemma_tools_chars_monotone(prompt.tools@, i + 1, prompt.tools@.len() as int);
                        assert(prompt.tools@.take(prompt.tools@.len() as int) == prompt.tools@);
                    }
                    return u64::MAX;
                },
            },
            None => {
                proof {
                    lemma_tools_chars_monotone(prompt.tools@, i + 1, prompt.tools@.len() as int);
                    assert(prompt.tools@.take(prompt.tools@.len() as int) == prompt.tools@);
                }
                return u64::MAX;
            },
        }
        i += 1;
    }
    assert(prompt.tools@.take(prompt.tools@.len() as int) == prompt.tools@);
    let mut k: usize = 0;
    while k < messages.len()
        invariant
            k <= messages.len(),
            total == prompt.instructions@.len() + tools_chars(prompt.tools@) + messages_chars(
                messages@.take(k as int),
            ),
        decreases messages.len() - k,
    {
        let n = messages[k].text.as_str().unicode_len() as u64;
        assert(messages@.take(k + 1).drop_last() == messages@.take(k as int));
        match total.checked_add(n) {
            Some(t) => {
                total = t;
            },
            None => {
                proof {
                    lemma_messages_chars_monotone(messages@, k + 1, messages@.len() as int);
                    assert(messages@.take(messages@.len() as int) == messages@);
                }
                return u64::MAX;
            },
        }
        k += 1;
    }
    assert(messages@.take(messages@.len() as int) == messages@);
    total / 4 + if total % 4 == 0 { 0 } else { 1 }
}

} // verus!
