//! An in-process echo provider for tests and examples without network
//! access: it answers with the last user message.

use vstd::prelude::*;

use crate::message::{Message, MessageView, MsgRole};
use crate::model::{ModelResponse, ModelResponseView, ModelStreamEvent, StopReason};
use crate::text::append_str;

verus! {

/// The content of the last user message of a conversation, or the empty
/// text when there is none.
pub open spec fn last_user_content(ms: Seq<Message>) -> Seq<char>
    decreases ms.len(),
{
    if ms.len() == 0 {
        Seq::empty()
    } else if ms.last().role == MsgRole::User {
        ms.last().content@
    } else {
        last_user_content(ms.drop_last())
    }
}

/// The echo of a conversation: `[mock echo] ` and the last user message.
pub open spec fn echo_text(ms: Seq<Message>) -> Seq<char> {
    "[mock echo] "@ + last_user_content(ms)
}

/// A trivial in-process provider that echoes the last user message.
#[derive(Debug, Clone, Copy, Default)]
pub struct MockProvider;

impl MockProvider {
    /// Stable provider id.
    pub fn id(&self) -> (s: &'static str)
        ensures
            s@ == "mock"@,
    {
        "mock"
    }

    /// The buffered answer: one assistant message with the echo, ending the
    /// turn, with no usage.
    pub fn complete(&self, messages: &[Message]) -> (r: ModelResponse)
        ensures
            r@ == (ModelResponseView {
                message: MessageView {
                    role: MsgRole::Assistant,
                    content: echo_text(messages@),
                    tool_calls: Seq::empty(),
                    tool_results: Seq::empty(),
                },
                stop_reason: StopReason::EndTurn,
                usage: None,
            }),
    {
        let mut i: usize = messages.len();
        assert(messages@.take(i as int) =~= messages@);
        while i > 0 && messages[i - 1].role != MsgRole::User
            invariant
                i <= messages.len(),
                last_user_content(messages@) == last_user_content(messages@.take(i as int)),
            decreases i,
        {
            assert(messages@.take(i as int).drop_last() =~= messages@.take(i - 1));
            i = i - 1;
        }
        let mut text = "[mock echo] ".to_owned();
        if i > 0 {
            append_str(&mut text, messages[i - 1].content.as_str());
        } else {
            assert(messages@.take(0) =~= Seq::<Message>::empty());
            assert(text@ =~= echo_text(messages@));
        }
        ModelResponse {
            message: Message::assistant(text.as_str()),
            stop_reason: StopReason::EndTurn,
            usage: None,
        }
    }

    /// The streamed answer: the echo as one text delta, then the end of
    /// the turn.
    pub fn stream(&self, messages: &[Message]) -> (events: Vec<ModelStreamEvent>)
        ensures
            events@.len() == 2,
            events@[0] matches ModelStreamEvent::TextDelta { text } && text@ == echo_text(messages@),
            events@[1] == (ModelStreamEvent::EndTurn { stop_reason: StopReason::EndTurn, usage: None }),
    {
        let resp = self.complete(messages);
        let mut events: Vec<ModelStreamEvent> = Vec::new();
        events.push(ModelStreamEvent::TextDelta { text: resp.message.content });
        events.push(ModelStreamEvent::EndTurn { stop_reason: StopReason::EndTurn, usage: None });
        events
    }
}

} // verus!
