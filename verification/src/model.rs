//! The vendor-neutral model surface: why a turn stopped, token usage, a
//! buffered response, and the streamed deltas of a turn.

use vstd::prelude::*;

use crate::message::{Message, MessageView};

verus! {

/// Reason the model finished a turn.
#[derive(Debug, Clone, Copy, PartialEq, Eq, Structural)]
pub enum StopReason {
    /// Model emitted a complete final answer.
    EndTurn,
    /// Hit the `max_tokens` cap.
    MaxTokens,
    /// One of the stop sequences matched.
    StopSequence,
    /// Model emitted tool calls and is waiting for results.
    ToolUse,
    /// Provider-specific or unknown stop reason.
    Other,
}

/// Token usage reported by the provider.
#[derive(Debug, Clone, Copy, PartialEq, Eq, Structural)]
pub struct ModelUsage {
    /// Tokens consumed by the input messages and role overlay.
    pub input_tokens: u32,
    /// Tokens generated as output.
    pub output_tokens: u32,
    /// Cached input tokens, if the provider exposes prompt caching.
    pub cached_input_tokens: Option<u32>,
}

impl Default for ModelUsage {
    fn default() -> (u: Self)
        ensures
            u == (ModelUsage { input_tokens: 0, output_tokens: 0, cached_input_tokens: None }),
    {
        ModelUsage { input_tokens: 0, output_tokens: 0, cached_input_tokens: None }
    }
}

/// One non-streaming model response.
#[derive(Debug)]
pub struct ModelResponse {
    /// The assistant message produced (may carry tool calls).
    pub message: Message,
    /// Why the model stopped generating.
    pub stop_reason: StopReason,
    /// Token usage, if reported.
    pub usage: Option<ModelUsage>,
}

pub struct ModelResponseView {
    pub message: MessageView,
    pub stop_reason: StopReason,
    pub usage: Option<ModelUsage>,
}

impl View for ModelResponse {
    type V = ModelResponseView;

    open spec fn view(&self) -> ModelResponseView {
        ModelResponseView { message: self.message@, stop_reason: self.stop_reason, usage: self.usage }
    }
}

/// One streamed delta from a model provider.
#[derive(Debug)]
pub enum ModelStreamEvent {
    /// A chunk of text content.
    TextDelta {
        /// The text chunk.
        text: String,
    },
    /// The model started a tool call.
    ToolCallStart {
        /// Provider-supplied call id.
        id: String,
        /// Tool name.
        name: String,
    },
    /// A chunk of a tool call's arguments JSON.
    ToolCallDelta {
        /// Call id this delta belongs to.
        id: String,
        /// Partial JSON text.
        arguments_json: String,
    },
    /// The model is done with this turn.
    EndTurn {
        /// Why it stopped.
        stop_reason: StopReason,
        /// Final usage, if reported.
        usage: Option<ModelUsage>,
    },
}

impl Clone for ModelStreamEvent {
    fn clone(&self) -> (r: Self)
        ensures
            r == *self,
    {
        match self {
            ModelStreamEvent::TextDelta { text } => ModelStreamEvent::TextDelta { text: text.clone() },
            ModelStreamEvent::ToolCallStart { id, name } => ModelStreamEvent::ToolCallStart {
                id: id.clone(),
                name: name.clone(),
            },
            ModelStreamEvent::ToolCallDelta { id, arguments_json } => ModelStreamEvent::ToolCallDelta {
                id: id.clone(),
                arguments_json: arguments_json.clone(),
            },
            ModelStreamEvent::EndTurn { stop_reason, usage } => ModelStreamEvent::EndTurn {
                stop_reason: *stop_reason,
                usage: *usage,
            },
        }
    }
}

} // verus!
