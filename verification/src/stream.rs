//! The streaming event taxonomy of the autonomous loop, an in-memory sink
//! that records events in order, and the helpers that shape tool events.

use vstd::prelude::*;
use vstd::utf8::{
    decode_utf8, decode_utf8_encode_utf8, decode_utf8_split, encode_utf8, encode_utf8_decode_utf8,
    encode_utf8_valid_utf8, is_char_boundary, valid_utf8_split,
};

use crate::error::BellowsError;
use crate::json::{compact_text, str_member, JsonView};
use crate::message::{ToolCall, ToolResult};
use crate::model::StopReason;
use crate::role::clone_opt_string;
use crate::text::{append_str, chars_of, decimal, decimal_string, push_char, str_eq, string_from_chars};

verus! {

/// Strongly typed streaming event; each variant maps to one SSE line.
#[derive(Debug)]
#[non_exhaustive]
pub enum StreamEvent {
    /// First event of a streaming run.
    SessionStart {
        /// Id of the session being executed.
        session_id: String,
        /// Provider id.
        provider: String,
        /// Model id.
        model: String,
    },
    /// One iteration of the autonomous loop (one model call) began.
    TurnStart {
        /// 0-indexed turn number.
        turn: u32,
    },
    /// A chunk of model-emitted text.
    TextDelta {
        /// Turn this delta belongs to.
        turn: u32,
        /// Raw text chunk.
        delta: String,
    },
    /// The model decided to invoke a tool.
    ToolUseStart {
        /// Turn this tool call belongs to.
        turn: u32,
        /// Provider-supplied call id.
        id: String,
        /// Tool name.
        name: String,
        /// Short human-readable label derived from the arguments.
        label: String,
    },
    /// A tool call finished.
    ToolUseEnd {
        /// Turn this tool call belongs to.
        turn: u32,
        /// Same id as the matching `ToolUseStart`.
        id: String,
        /// Tool name.
        name: String,
        /// `false` if the tool failed, was denied, or returned an error.
        ok: bool,
        /// `true` when a pre-tool-use hook denied the call.
        denied: bool,
        /// Human-readable error message; only set when `ok` is false.
        error: Option<String>,
    },
    /// Terminal event of a successful run.
    Done {
        /// Total number of assistant turns across the workflow.
        turns: u32,
        /// Final stop reason from the last model turn.
        stop_reason: StopReason,
        /// Session id.
        session_id: String,
    },
    /// Unrecoverable error; the stream terminates after it.
    Error {
        /// Human-readable error message.
        message: String,
    },
}

impl Clone for StreamEvent {
    fn clone(&self) -> (r: Self)
        ensures
            r == *self,
    {
        match self {
            StreamEvent::SessionStart { session_id, provider, model } => StreamEvent::SessionStart {
                session_id: session_id.clone(),
                provider: provider.clone(),
                model: model.clone(),
            },
            StreamEvent::TurnStart { turn } => StreamEvent::TurnStart { turn: *turn },
            StreamEvent::TextDelta { turn, delta } => StreamEvent::TextDelta {
                turn: *turn,
                delta: delta.clone(),
            },
            StreamEvent::ToolUseStart { turn, id, name, label } => StreamEvent::ToolUseStart {
                turn: *turn,
                id: id.clone(),
                name: name.clone(),
                label: label.clone(),
            },
            StreamEvent::ToolUseEnd { turn, id, name, ok, denied, error } => StreamEvent::ToolUseEnd {
                turn: *turn,
                id: id.clone(),
                name: name.clone(),
                ok: *ok,
                denied: *denied,
                error: clone_opt_string(error),
            },
            StreamEvent::Done { turns, stop_reason, session_id } => StreamEvent::Done {
                turns: *turns,
                stop_reason: *stop_reason,
                session_id: session_id.clone(),
            },
            StreamEvent::Error { message } => StreamEvent::Error { message: message.clone() },
        }
    }
}

/// In-memory sink that records every emitted event, in order.
#[derive(Debug, Default)]
pub struct BufferSink {
    events: Vec<StreamEvent>,
}

impl View for BufferSink {
    type V = Seq<StreamEvent>;

    closed spec fn view(&self) -> Seq<StreamEvent> {
        self.events@
    }
}

impl BufferSink {
    /// Empty buffer.
    pub fn new() -> (s: Self)
        ensures
            s@ == Seq::<StreamEvent>::empty(),
    {
        BufferSink { events: Vec::new() }
    }

    /// The events recorded so far, in order (the buffer is kept).
    pub fn snapshot(&self) -> (r: Vec<StreamEvent>)
        ensures
            r@ == self@,
    {
        let r = self.events.clone();
        assert(r@ =~= self.events@);
        r
    }

    /// The events recorded, in order, consuming the sink.
    pub fn into_inner(self) -> (r: Vec<StreamEvent>)
        ensures
            r@ == self@,
    {
        self.events
    }
}

/// Where streaming events go. Returning an error aborts the run that
/// emits (for instance when the consumer has gone away).
pub trait StreamSink {
    /// Emit one streaming event.
    fn emit(&mut self, event: StreamEvent) -> (r: Result<(), BellowsError>);
}

impl StreamSink for BufferSink {
    /// Record the event after those recorded so far; never fails.
    fn emit(&mut self, event: StreamEvent) -> (r: Result<(), BellowsError>)
        ensures
            r is Ok,
            final(self)@ == old(self)@.push(event),
    {
        self.events.push(event);
        Ok(())
    }
}

/// The text of member `key` of `args`, or the empty text when it is
/// missing or not a string.
pub open spec fn member_or_empty(args: JsonView, key: Seq<char>) -> Seq<char> {
    match str_member(args, key) {
        Some(t) => t,
        None => Seq::empty(),
    }
}

/// The UTF-8 byte length of the text of member `key`, or 0.
pub open spec fn member_byte_len(args: JsonView, key: Seq<char>) -> nat {
    match str_member(args, key) {
        Some(t) => encode_utf8(t).len(),
        None => 0,
    }
}

/// The label that accompanies a `ToolUseStart` event: the path for
/// `fs_read` and `fs_list`, the path and byte count for `fs_write`, the
/// command (cut after 80 bytes, with an ellipsis) for `bash`, and the
/// first 80 characters of the compact JSON arguments otherwise.
pub open spec fn tool_label(name: Seq<char>, args: JsonView) -> Seq<char> {
    if name == "fs_list"@ || name == "fs_read"@ {
        let p = member_or_empty(args, "path"@);
        if p.len() == 0 {
            "(no path)"@
        } else {
            p
        }
    } else if name == "fs_write"@ {
        let p = member_or_empty(args, "path"@);
        let bytes = decimal(member_byte_len(args, "content"@));
        if p.len() == 0 {
            "(no path, "@ + bytes + "B)"@
        } else {
            p + " ("@ + bytes + "B)"@
        }
    } else if name == "bash"@ {
        let cmd = member_or_empty(args, "cmd"@);
        if encode_utf8(cmd).len() > 80 {
            decode_utf8(encode_utf8(cmd).take(80)).push('…')
        } else {
            cmd
        }
    } else {
        let t = compact_text(args);
        if t.len() > 80 {
            t.take(80)
        } else {
            t
        }
    }
}

/// `fs_read` and `fs_list` are labelled alike: by the `path` argument when
/// it is a non-empty string, by `(no path)` otherwise.
pub proof fn lemma_path_tools_label_by_path(args: JsonView)
    ensures
        tool_label("fs_list"@, args) == tool_label("fs_read"@, args),
        forall|p: Seq<char>|
            str_member(args, "path"@) == Some(p) && p.len() > 0 ==> tool_label("fs_list"@, args) == p,
        !(str_member(args, "path"@) matches Some(p) && p.len() > 0) ==> tool_label("fs_list"@, args)
            == "(no path)"@,
{
}

/// `fs_write` is labelled by its path and the UTF-8 size of the content
/// (`(no path, …)` without a path); `bash` by its command when it fits in
/// 80 bytes, else by the command's longest prefix within 80 bytes and an
/// ellipsis; any other tool by the first 80 characters of its compact JSON
/// arguments.
pub proof fn lemma_tool_label_shapes(name: Seq<char>, args: JsonView)
    requires
        tool_label_defined(name, args),
    ensures
        name == "fs_write"@ ==> {
            let size = decimal(
                match str_member(args, "content"@) {
                    Some(c) => encode_utf8(c).len(),
                    None => 0,
                },
            );
            &&& forall|p: Seq<char>|
                str_member(args, "path"@) == Some(p) && p.len() > 0 ==> tool_label(name, args) == p
                    + " ("@ + size + "B)"@
            &&& (!(str_member(args, "path"@) matches Some(p) && p.len() > 0) ==> tool_label(name, args)
                == "(no path, "@ + size + "B)"@)
        },
        name == "bash"@ ==> {
            let label = tool_label(name, args);
            &&& (str_member(args, "cmd"@) is None ==> label.len() == 0)
            &&& forall|c: Seq<char>|
                str_member(args, "cmd"@) == Some(c) && encode_utf8(c).len() <= 80 ==> label == c
            &&& forall|c: Seq<char>|
                str_member(args, "cmd"@) == Some(c) && encode_utf8(c).len() > 80 ==> {
                    &&& label.len() >= 1
                    &&& label.last() == '…'
                    &&& encode_utf8(label.drop_last()) == encode_utf8(c).take(80)
                    &&& c.take(label.len() - 1) == label.drop_last()
                }
        },
        name != "fs_list"@ && name != "fs_read"@ && name != "fs_write"@ && name != "bash"@ ==> {
            let label = tool_label(name, args);
            let t = compact_text(args);
            &&& label.len() == if t.len() > 80 { 80 } else { t.len() }
            &&& t.take(label.len() as int) == label
        },
{
    reveal_strlit("bash");
    reveal_strlit("fs_write");
    reveal_strlit("fs_read");
    reveal_strlit("fs_list");
    assert("bash"@.len() == 4 && "fs_write"@.len() == 8 && "fs_read"@.len() == 7 && "fs_list"@.len() == 7);
    if name == "bash"@ {
        if let Some(c) = str_member(args, "cmd"@) {
            let b = encode_utf8(c);
            if b.len() > 80 {
                let head = b.subrange(0, 80);
                assert(b.take(80) == head);
                encode_utf8_valid_utf8(c);
                valid_utf8_split(b, 80);
                decode_utf8_encode_utf8(head);
                decode_utf8_split(b, 80);
                encode_utf8_decode_utf8(c);
                let label = tool_label(name, args);
                assert(label.drop_last() =~= decode_utf8(head));
                let d = decode_utf8(head);
                assert(c == d + decode_utf8(b.subrange(80, b.len() as int)));
                assert(c.take(d.len() as int) =~= d);
            }
        }
    } else if name != "fs_list"@ && name != "fs_read"@ && name != "fs_write"@ {
        let t = compact_text(args);
        if t.len() <= 80 {
            assert(t.take(t.len() as int) =~= t);
        }
    }
}

/// The inputs on which the label can be built: a `bash` command longer than
/// 80 bytes must have a character boundary at byte 80.
pub open spec fn tool_label_defined(name: Seq<char>, args: JsonView) -> bool {
    name == "bash"@ && encode_utf8(member_or_empty(args, "cmd"@)).len() > 80 ==> is_char_boundary(
        encode_utf8(member_or_empty(args, "cmd"@)),
        80,
    )
}

/// Build the label of a `ToolUseStart` event for a call of tool `name`.
pub fn format_tool_label(name: &str, args: &crate::json::JsonValue) -> (label: String)
    requires
        tool_label_defined(name@, args@),
    ensures
        label@ == tool_label(name@, args@),
{
    if str_eq(name, "fs_list") || str_eq(name, "fs_read") {
        let r = match args.str_member("path") {
            Some(p) if !p.is_empty() => p.to_owned(),
            _ => "(no path)".to_owned(),
        };
        assert(r@ == tool_label(name@, args@));
        r
    } else if str_eq(name, "fs_write") {
        let bytes: usize = match args.str_member("content") {
            Some(c) => c.as_bytes().len(),
            None => 0,
        };
        let count = decimal_string(bytes as u64);
        let mut out = match args.str_member("path") {
            Some(p) if !p.is_empty() => {
                let mut o = p.to_owned();
                append_str(&mut o, " (");
                o
            },
            _ => "(no path, ".to_owned(),
        };
        append_str(&mut out, count.as_str());
        append_str(&mut out, "B)");
        assert(out@ == tool_label(name@, args@));
        out
    } else if str_eq(name, "bash") {
        match args.str_member("cmd") {
            Some(cmd) => {
                if cmd.as_bytes().len() > 80 {
                    let (head, _tail) = cmd.split_at(80);
                    proof {
                        encode_utf8_decode_utf8(head@);
                    }
                    let mut out = head.to_owned();
                    push_char(&mut out, '…');
                    out
                } else {
                    cmd.to_owned()
                }
            },
            None => String::new(),
        }
    } else {
        let text = args.to_compact_string();
        let v = chars_of(text.as_str());
        if v.len() > 80 {
            let mut out = String::new();
            let mut i: usize = 0;
            while i < 80
                invariant
                    i <= 80 < v.len(),
                    out@ == v@.take(i as int),
                decreases 80 - i,
            {
                push_char(&mut out, v[i]);
                i = i + 1;
                assert(v@.take(i as int) == v@.take((i - 1) as int).push(v@[i - 1]));
            }
            out
        } else {
            string_from_chars(&v)
        }
    }
}

/// The error text of a finished tool call: `None` when the result is not
/// an error, else the `error` member of the output when it is a string, or
/// a fixed text.
pub open spec fn tool_error_text(result: ToolResult) -> Option<Seq<char>> {
    if !result.is_error {
        None
    } else {
        match str_member(result.output@, "error"@) {
            Some(t) => Some(t),
            None => Some("tool returned is_error=true"@),
        }
    }
}

/// A finished call carries an error text exactly when its result is an
/// error: the output's string `error` member when it has one, a fixed text
/// otherwise.
pub proof fn lemma_tool_error_text(result: ToolResult)
    ensures
        tool_error_text(result) is Some <==> result.is_error,
        forall|t: Seq<char>|
            result.is_error && str_member(result.output@, "error"@) == Some(t) ==> tool_error_text(result)
                == Some(t),
        result.is_error && str_member(result.output@, "error"@) is None ==> tool_error_text(result)
            == Some("tool returned is_error=true"@),
{
}

/// Build the `ToolUseEnd` event of a finished call: `ok` is false when the
/// result is an error or a hook denied the call; `error` carries the
/// result's error text.
pub fn tool_end_event(turn: u32, call: &ToolCall, result: &ToolResult, denied: bool) -> (ev:
    StreamEvent)
    ensures
        ev matches StreamEvent::ToolUseEnd { turn: t, id, name, ok, denied: d, error } && t == turn
            && id@ == call.id@ && name@ == call.name@ && ok == (!result.is_error && !denied) && d == denied && (
        error is Some) == tool_error_text(*result) is Some && (error is Some ==> error->0@
            == tool_error_text(*result)->0),
{
    let ok = !result.is_error && !denied;
    let error = if !result.is_error {
        None
    } else {
        match result.output.str_member("error") {
            Some(t) => Some(t.to_owned()),
            None => Some("tool returned is_error=true".to_owned()),
        }
    };
    StreamEvent::ToolUseEnd {
        turn,
        id: call.id.clone(),
        name: call.name.clone(),
        ok,
        denied,
        error,
    }
}

} // verus!
