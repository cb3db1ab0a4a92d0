//! Conversation primitives: messages, their originator roles, tool calls and
//! tool results.

use vstd::prelude::*;

use crate::json::{JsonValue, JsonView};

verus! {

/// Role of one message in the conversation history.
#[derive(Debug, Clone, Copy, PartialEq, Eq, Hash, Structural)]
pub enum MsgRole {
    /// System-prompt content.
    System,
    /// User-supplied content.
    User,
    /// Assistant content (the model's reply).
    Assistant,
    /// Tool result content.
    Tool,
}

/// A tool invocation requested by the model in an assistant turn.
#[derive(Debug)]
pub struct ToolCall {
    /// Provider-supplied unique id, used to correlate the result.
    pub id: String,
    /// Logical name of the tool.
    pub name: String,
    /// JSON arguments.
    pub arguments: JsonValue,
}

/// The result of executing a [`ToolCall`].
#[derive(Debug)]
pub struct ToolResult {
    /// Echoes `ToolCall::id`.
    pub call_id: String,
    /// JSON output of the tool.
    pub output: JsonValue,
    /// True when the tool returned an error rather than a normal result.
    pub is_error: bool,
}

/// A single message in a session's conversation history.
#[derive(Debug)]
pub struct Message {
    /// Originator role.
    pub role: MsgRole,
    /// Free-text content; may be empty when `tool_calls` carries the payload.
    pub content: String,
    /// Tool calls emitted by the assistant in this turn.
    pub tool_calls: Vec<ToolCall>,
    /// Tool results attached to this turn.
    pub tool_results: Vec<ToolResult>,
}

pub struct ToolCallView {
    pub id: Seq<char>,
    pub name: Seq<char>,
    pub arguments: JsonView,
}

pub struct ToolResultView {
    pub call_id: Seq<char>,
    pub output: JsonView,
    pub is_error: bool,
}

pub struct MessageView {
    pub role: MsgRole,
    pub content: Seq<char>,
    pub tool_calls: Seq<ToolCallView>,
    pub tool_results: Seq<ToolResultView>,
}

impl View for ToolCall {
    type V = ToolCallView;

    open spec fn view(&self) -> ToolCallView {
        ToolCallView { id: self.id@, name: self.name@, arguments: self.arguments@ }
    }
}

impl View for ToolResult {
    type V = ToolResultView;

    open spec fn view(&self) -> ToolResultView {
        ToolResultView { call_id: self.call_id@, output: self.output@, is_error: self.is_error }
    }
}

pub open spec fn calls_view(v: Seq<ToolCall>) -> Seq<ToolCallView> {
    v.map_values(|c: ToolCall| c@)
}

pub open spec fn results_view(v: Seq<ToolResult>) -> Seq<ToolResultView> {
    v.map_values(|r: ToolResult| r@)
}

impl View for Message {
    type V = MessageView;

    open spec fn view(&self) -> MessageView {
        MessageView {
            role: self.role,
            content: self.content@,
            tool_calls: calls_view(self.tool_calls@),
            tool_results: results_view(self.tool_results@),
        }
    }
}

impl Clone for ToolCall {
    fn clone(&self) -> (r: Self)
        ensures
            r@ == self@,
    {
        ToolCall { id: self.id.clone(), name: self.name.clone(), arguments: self.arguments.clone() }
    }
}

impl Clone for ToolResult {
    fn clone(&self) -> (r: Self)
        ensures
            r@ == self@,
    {
        ToolResult {
            call_id: self.call_id.clone(),
            output: self.output.clone(),
            is_error: self.is_error,
        }
    }
}

pub fn clone_calls(v: &Vec<ToolCall>) -> (r: Vec<ToolCall>)
    ensures
        calls_view(r@) == calls_view(v@),
{
    let r = v.clone();
    assert(calls_view(r@) =~= calls_view(v@));
    r
}

pub fn clone_results(v: &Vec<ToolResult>) -> (r: Vec<ToolResult>)
    ensures
        results_view(r@) == results_view(v@),
{
    let r = v.clone();
    assert(results_view(r@) =~= results_view(v@));
    r
}

impl Clone for Message {
    fn clone(&self) -> (r: Self)
        ensures
            r@ == self@,
    {
        Message {
            role: self.role,
            content: self.content.clone(),
            tool_calls: clone_calls(&self.tool_calls),
            tool_results: clone_results(&self.tool_results),
        }
    }
}

impl Message {
    /// A plain user message.
    pub fn user(content: &str) -> (m: Self)
        ensures
            m@ == (MessageView {
                role: MsgRole::User,
                content: content@,
                tool_calls: Seq::empty(),
                tool_results: Seq::empty(),
            }),
    {
        let m = Message {
            role: MsgRole::User,
            content: content.to_owned(),
            tool_calls: Vec::new(),
            tool_results: Vec::new(),
        };
        assert(m@.tool_calls =~= Seq::empty());
        assert(m@.tool_results =~= Seq::empty());
        m
    }

    /// A plain assistant message.
    pub fn assistant(content: &str) -> (m: Self)
        ensures
            m@ == (MessageView {
                role: MsgRole::Assistant,
                content: content@,
                tool_calls: Seq::empty(),
                tool_results: Seq::empty(),
            }),
    {
        let m = Message {
            role: MsgRole::Assistant,
            content: content.to_owned(),
            tool_calls: Vec::new(),
            tool_results: Vec::new(),
        };
        assert(m@.tool_calls =~= Seq::empty());
        assert(m@.tool_results =~= Seq::empty());
        m
    }
}

pub open spec fn messages_view(v: Seq<Message>) -> Seq<MessageView> {
    v.map_values(|m: Message| m@)
}

pub fn clone_messages(v: &Vec<Message>) -> (r: Vec<Message>)
    ensures
        messages_view(r@) == messages_view(v@),
{
    let r = v.clone();
    assert(messages_view(r@) =~= messages_view(v@));
    r
}

} // verus!
