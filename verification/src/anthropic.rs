//! The Anthropic Messages API connector's logic: credentials, request
//! headers, the wire shape of requests, the decoding of buffered responses,
//! and the state machine that projects the SSE streaming protocol onto
//! [`ModelStreamEvent`]s. Network transport stays with the caller.

use vstd::prelude::*;

use crate::error::BellowsError;
use crate::json::{
    compact_text, entry_views, lemma_entry_views_push, lemma_member_found, push_member, str_member,
    view_get, JsonValue, JsonView,
};
use crate::message::{calls_view, Message, MessageView, MsgRole, ToolCall, ToolCallView, ToolResult};
use crate::model::{ModelResponse, ModelResponseView, ModelStreamEvent, ModelUsage, StopReason};
use crate::role::{rendered, Role};
use crate::text::{append_str, str_eq};
use crate::tool::ToolSchema;

verus! {

broadcast use {
    vstd::std_specs::hash::group_hash_axioms,
    Seq::lemma_push_map_commute,
    Seq::lemma_map_take_succ,
};

/// How a [`StopReason`] is spelled on the Anthropic wire.
pub open spec fn stop_reason_of(s: Seq<char>) -> StopReason {
    if s == "end_turn"@ {
        StopReason::EndTurn
    } else if s == "max_tokens"@ {
        StopReason::MaxTokens
    } else if s == "stop_sequence"@ {
        StopReason::StopSequence
    } else if s == "tool_use"@ {
        StopReason::ToolUse
    } else {
        StopReason::Other
    }
}

/// Decode an Anthropic stop reason; unknown spellings become `Other`.
pub fn parse_stop_reason(s: &str) -> (r: StopReason)
    ensures
        r == stop_reason_of(s@),
{
    if str_eq(s, "end_turn") {
        StopReason::EndTurn
    } else if str_eq(s, "max_tokens") {
        StopReason::MaxTokens
    } else if str_eq(s, "stop_sequence") {
        StopReason::StopSequence
    } else if str_eq(s, "tool_use") {
        StopReason::ToolUse
    } else {
        StopReason::Other
    }
}

/// The content block announced by `content_block_start`.
#[derive(Debug)]
pub enum AnthropicSseContentBlock {
    /// Text block; its text usually arrives through deltas.
    Text { text: String },
    /// Tool-use block; its input arrives as `input_json_delta`s.
    ToolUse { id: String, name: String },
    /// Any other block kind (thinking, vision, ...).
    Other,
}

/// The delta carried by `content_block_delta`.
#[derive(Debug)]
pub enum AnthropicSseDelta {
    TextDelta { text: String },
    InputJsonDelta { partial_json: String },
    Other,
}

/// The `delta` member of `message_delta`.
#[derive(Debug)]
pub struct AnthropicSseMessageDelta {
    pub stop_reason: Option<String>,
}

/// The `usage` member of `message_delta`.
#[derive(Debug, Clone, Copy)]
pub struct AnthropicSseUsageDelta {
    pub input_tokens: Option<u32>,
    pub output_tokens: Option<u32>,
    pub cache_read_input_tokens: Option<u32>,
}

/// The `error` member of an `error` event.
#[derive(Debug)]
pub struct AnthropicSseError {
    pub kind: Option<String>,
    pub message: Option<String>,
}

/// One decoded Anthropic SSE payload.
#[derive(Debug)]
pub enum AnthropicSseEvent {
    ContentBlockStart { index: u32, content_block: AnthropicSseContentBlock },
    ContentBlockDelta { index: u32, delta: AnthropicSseDelta },
    MessageDelta { delta: AnthropicSseMessageDelta, usage: Option<AnthropicSseUsageDelta> },
    MessageStop,
    Error { error: AnthropicSseError },
    /// `message_start`, `content_block_stop`, `ping` and future kinds.
    Unknown,
}

/// One frame pulled from the SSE transport: its raw `data` text and the
/// payload decoded from it, if it decoded.
#[derive(Debug)]
pub struct SseFrame {
    pub data: String,
    pub decoded: Option<AnthropicSseEvent>,
}

/// State of the SSE projection: the tool-use id of each open block index,
/// the stop reason and usage buffered from `message_delta`, and whether the
/// terminal event was emitted.
pub struct StreamState {
    tool_block_ids: std::collections::HashMap<u32, String>,
    pending_stop_reason: Option<StopReason>,
    pending_usage: Option<ModelUsage>,
    done: bool,
}

pub struct StreamStateView {
    pub tool_ids: Map<u32, Seq<char>>,
    pub pending_stop_reason: Option<StopReason>,
    pub pending_usage: Option<ModelUsage>,
    pub done: bool,
}

pub open spec fn ids_view(m: Map<u32, String>) -> Map<u32, Seq<char>> {
    m.map_values(|s: String| s@)
}

impl View for StreamState {
    type V = StreamStateView;

    closed spec fn view(&self) -> StreamStateView {
        StreamStateView {
            tool_ids: ids_view(self.tool_block_ids@),
            pending_stop_reason: self.pending_stop_reason,
            pending_usage: self.pending_usage,
            done: self.done,
        }
    }
}

/// What one step of the projection hands downstream.
pub enum Emitted {
    Text(Seq<char>),
    CallStart(Seq<char>, Seq<char>),
    CallDelta(Seq<char>, Seq<char>),
    End(StopReason, Option<ModelUsage>),
    /// A `BellowsError::Model` with this message.
    Failure(Seq<char>),
    /// Any other error (never produced by the projection).
    OtherError,
}

pub open spec fn emission(r: Result<ModelStreamEvent, BellowsError>) -> Emitted {
    match r {
        Ok(ModelStreamEvent::TextDelta { text }) => Emitted::Text(text@),
        Ok(ModelStreamEvent::ToolCallStart { id, name }) => Emitted::CallStart(id@, name@),
        Ok(ModelStreamEvent::ToolCallDelta { id, arguments_json }) => Emitted::CallDelta(
            id@,
            arguments_json@,
        ),
        Ok(ModelStreamEvent::EndTurn { stop_reason, usage }) => Emitted::End(stop_reason, usage),
        Err(BellowsError::Model(m)) => Emitted::Failure(m@),
        Err(_) => Emitted::OtherError,
    }
}

/// Usage after a `message_delta` usage overlay: reported fields replace the
/// buffered ones, missing fields keep them (starting from zero).
pub open spec fn merged_usage(prev: Option<ModelUsage>, u: AnthropicSseUsageDelta) -> ModelUsage {
    let base = match prev {
        Some(p) => p,
        None => ModelUsage { input_tokens: 0, output_tokens: 0, cached_input_tokens: None },
    };
    ModelUsage {
        input_tokens: match u.input_tokens {
            Some(x) => x,
            None => base.input_tokens,
        },
        output_tokens: match u.output_tokens {
            Some(x) => x,
            None => base.output_tokens,
        },
        cached_input_tokens: match u.cache_read_input_tokens {
            Some(x) => Some(x),
            None => base.cached_input_tokens,
        },
    }
}

/// The message of an inline `error` event.
pub open spec fn stream_error_text(e: AnthropicSseError) -> Seq<char> {
    let kind = match e.kind {
        Some(k) => k@,
        None => "unknown"@,
    };
    let msg = match e.message {
        Some(m) => m@,
        None => "anthropic stream error"@,
    };
    "anthropic stream "@ + kind + ": "@ + msg
}

/// One step of the projection: the next state and what, if anything, is
/// emitted for the decoded event `ev`.
pub open spec fn projected(s: StreamStateView, ev: AnthropicSseEvent) -> (StreamStateView, Option<
    Emitted,
>) {
    match ev {
        AnthropicSseEvent::ContentBlockStart { index, content_block } => match content_block {
            AnthropicSseContentBlock::Text { text } => if text@.len() == 0 {
                (s, None)
            } else {
                (s, Some(Emitted::Text(text@)))
            },
            AnthropicSseContentBlock::ToolUse { id, name } => (
                StreamStateView { tool_ids: s.tool_ids.insert(index, id@), ..s },
                Some(Emitted::CallStart(id@, name@)),
            ),
            AnthropicSseContentBlock::Other => (s, None),
        },
        AnthropicSseEvent::ContentBlockDelta { index, delta } => match delta {
            AnthropicSseDelta::TextDelta { text } => if text@.len() == 0 {
                (s, None)
            } else {
                (s, Some(Emitted::Text(text@)))
            },
            AnthropicSseDelta::InputJsonDelta { partial_json } => if s.tool_ids.contains_key(
                index,
            ) {
                (s, Some(Emitted::CallDelta(s.tool_ids[index], partial_json@)))
            } else {
                (s, None)
            },
            AnthropicSseDelta::Other => (s, None),
        },
        AnthropicSseEvent::MessageDelta { delta, usage } => {
            let stop = match delta.stop_reason {
                Some(r) => Some(stop_reason_of(r@)),
                None => s.pending_stop_reason,
            };
            let usage = match usage {
                Some(u) => Some(merged_usage(s.pending_usage, u)),
                None => s.pending_usage,
            };
            (StreamStateView { pending_stop_reason: stop, pending_usage: usage, ..s }, None)
        },
        AnthropicSseEvent::MessageStop => {
            let stop = match s.pending_stop_reason {
                Some(r) => r,
                None => StopReason::EndTurn,
            };
            (
                StreamStateView { pending_usage: None, done: true, ..s },
                Some(Emitted::End(stop, s.pending_usage)),
            )
        },
        AnthropicSseEvent::Error { error } => (
            StreamStateView { done: true, ..s },
            Some(Emitted::Failure(stream_error_text(error))),
        ),
        AnthropicSseEvent::Unknown => (s, None),
    }
}

/// The Anthropic stop reasons are read by their wire spellings; any other
/// spelling is `Other`.
pub proof fn lemma_stop_reason_spellings(s: Seq<char>)
    ensures
        stop_reason_of("end_turn"@) == StopReason::EndTurn,
        stop_reason_of("max_tokens"@) == StopReason::MaxTokens,
        stop_reason_of("stop_sequence"@) == StopReason::StopSequence,
        stop_reason_of("tool_use"@) == StopReason::ToolUse,
        s != "end_turn"@ && s != "max_tokens"@ && s != "stop_sequence"@ && s != "tool_use"@
            ==> stop_reason_of(s) == StopReason::Other,
{
    reveal_strlit("end_turn");
    reveal_strlit("max_tokens");
    reveal_strlit("stop_sequence");
    reveal_strlit("tool_use");
    assert("end_turn"@.len() == 8 && "max_tokens"@.len() == 10 && "stop_sequence"@.len() == 13);
    assert("tool_use"@[0] == 't' && "end_turn"@[0] == 'e');
}

/// What the projection hands on: non-empty text, from a text block or a
/// text delta, verbatim and without a change of state; a tool-use block's
/// id and name; and, for an input delta at that block's index, the
/// fragment under the block's id. The stop reason of a `message_delta` is
/// the one the final `message_stop` reports (end of turn when none came),
/// with the buffered usage, and the stream is then done.
pub proof fn lemma_projection_hands_on(
    s: StreamStateView,
    index: u32,
    id: String,
    name: String,
    partial: String,
    text: String,
    reason: String,
)
    ensures
        ({
            let start = AnthropicSseEvent::ContentBlockStart {
                index,
                content_block: AnthropicSseContentBlock::ToolUse { id, name },
            };
            let after = projected(s, start);
            let delta = AnthropicSseEvent::ContentBlockDelta {
                index,
                delta: AnthropicSseDelta::InputJsonDelta { partial_json: partial },
            };
            &&& after.1 == Some(Emitted::CallStart(id@, name@))
            &&& projected(after.0, delta).1 == Some(Emitted::CallDelta(id@, partial@))
        }),
        text@.len() > 0 ==> projected(
            s,
            AnthropicSseEvent::ContentBlockDelta {
                index,
                delta: AnthropicSseDelta::TextDelta { text },
            },
        ) == (s, Some(Emitted::Text(text@))),
        text@.len() > 0 ==> projected(
            s,
            AnthropicSseEvent::ContentBlockStart {
                index,
                content_block: AnthropicSseContentBlock::Text { text },
            },
        ) == (s, Some(Emitted::Text(text@))),
        ({
            let md = AnthropicSseEvent::MessageDelta {
                delta: AnthropicSseMessageDelta { stop_reason: Some(reason) },
                usage: None,
            };
            let end = projected(projected(s, md).0, AnthropicSseEvent::MessageStop);
            &&& end.1 == Some(Emitted::End(stop_reason_of(reason@), s.pending_usage))
            &&& end.0.done
        }),
        s.pending_stop_reason is None ==> projected(s, AnthropicSseEvent::MessageStop).1 == Some(
            Emitted::End(StopReason::EndTurn, s.pending_usage),
        ),
{
}

/// One step of the pump for a frame pulled from the transport: a transport
/// error ends the stream with a failure; an empty or undecodable payload is
/// skipped; a decoded payload is projected. Once done, the state absorbs
/// every frame and emits nothing.
pub open spec fn fed(s: StreamStateView, item: Result<SseFrame, String>) -> (StreamStateView, Option<
    Emitted,
>) {
    if s.done {
        (s, None)
    } else {
        match item {
            Err(e) => (
                StreamStateView { done: true, ..s },
                Some(Emitted::Failure("sse transport: "@ + e@)),
            ),
            Ok(frame) => if frame.data@.len() == 0 {
                (s, None)
            } else {
                match frame.decoded {
                    None => (s, None),
                    Some(ev) => projected(s, ev),
                }
            },
        }
    }
}

impl StreamState {
    /// A fresh projection: no open tool blocks, nothing buffered, not done.
    pub fn new() -> (st: Self)
        ensures
            st@ == (StreamStateView {
                tool_ids: Map::empty(),
                pending_stop_reason: None,
                pending_usage: None,
                done: false,
            }),
    {
        let st = StreamState {
            tool_block_ids: std::collections::HashMap::new(),
            pending_stop_reason: None,
            pending_usage: None,
            done: false,
        };
        assert(ids_view(st.tool_block_ids@) =~= Map::empty());
        st
    }

    /// Whether the terminal event (or an error) was emitted.
    pub fn is_done(&self) -> (d: bool)
        ensures
            d == self@.done,
    {
        self.done
    }

    /// Project one decoded SSE payload into at most one stream event.
    pub fn project(&mut self, ev: AnthropicSseEvent) -> (out: Option<
        Result<ModelStreamEvent, BellowsError>,
    >)
        ensures
            final(self)@ == projected(old(self)@, ev).0,
            out is Some <==> projected(old(self)@, ev).1 is Some,
            out matches Some(r) ==> emission(r) == projected(old(self)@, ev).1->0,
    {
        match ev {
            AnthropicSseEvent::ContentBlockStart { index, content_block } => match content_block {
                AnthropicSseContentBlock::Text { text } => {
                    if text.as_str().is_empty() {
                        None
                    } else {
                        Some(Ok(ModelStreamEvent::TextDelta { text }))
                    }
                },
                AnthropicSseContentBlock::ToolUse { id, name } => {
                    let ghost before = self.tool_block_ids@;
                    self.tool_block_ids.insert(index, id.clone());
                    assert(ids_view(self.tool_block_ids@) =~= ids_view(before).insert(index, id@));
                    Some(Ok(ModelStreamEvent::ToolCallStart { id, name }))
                },
                AnthropicSseContentBlock::Other => None,
            },
            AnthropicSseEvent::ContentBlockDelta { index, delta } => match delta {
                AnthropicSseDelta::TextDelta { text } => {
                    if text.as_str().is_empty() {
                        None
                    } else {
                        Some(Ok(ModelStreamEvent::TextDelta { text }))
                    }
                },
                AnthropicSseDelta::InputJsonDelta { partial_json } => {
                    match self.tool_block_ids.get(&index) {
                        Some(id) => Some(
                            Ok(
                                ModelStreamEvent::ToolCallDelta {
                                    id: id.clone(),
                                    arguments_json: partial_json,
                                },
                            ),
                        ),
                        None => None,
                    }
                },
                AnthropicSseDelta::Other => None,
            },
            AnthropicSseEvent::MessageDelta { delta, usage } => {
                match delta.stop_reason {
                    Some(reason) => {
                        self.pending_stop_reason = Some(parse_stop_reason(reason.as_str()));
                    },
                    None => {},
                }
                match usage {
                    Some(u) => {
                        let merged = match self.pending_usage {
                            Some(p) => p,
                            None => ModelUsage::default(),
                        };
                        self.pending_usage = Some(
                            ModelUsage {
                                input_tokens: match u.input_tokens {
                                    Some(x) => x,
                                    None => merged.input_tokens,
                                },
                                output_tokens: match u.output_tokens {
                                    Some(x) => x,
                                    None => merged.output_tokens,
                                },
                                cached_input_tokens: match u.cache_read_input_tokens {
                                    Some(x) => Some(x),
                                    None => merged.cached_input_tokens,
                                },
                            },
                        );
                    },
                    None => {},
                }
                None
            },
            AnthropicSseEvent::MessageStop => {
                self.done = true;
                let stop_reason = match self.pending_stop_reason {
                    Some(r) => r,
                    None => StopReason::EndTurn,
                };
                let usage = self.pending_usage.take();
                Some(Ok(ModelStreamEvent::EndTurn { stop_reason, usage }))
            },
            AnthropicSseEvent::Error { error } => {
                self.done = true;
                let mut msg = "anthropic stream ".to_owned();
                match &error.kind {
                    Some(k) => append_str(&mut msg, k.as_str()),
                    None => append_str(&mut msg, "unknown"),
                }
                append_str(&mut msg, ": ");
                match &error.message {
                    Some(m) => append_str(&mut msg, m.as_str()),
                    None => append_str(&mut msg, "anthropic stream error"),
                }
                Some(Err(BellowsError::Model(msg)))
            },
            AnthropicSseEvent::Unknown => None,
        }
    }

    /// Pump one frame pulled from the SSE transport (see [`fed`]).
    pub fn feed(&mut self, item: Result<SseFrame, String>) -> (out: Option<
        Result<ModelStreamEvent, BellowsError>,
    >)
        ensures
            final(self)@ == fed(old(self)@, item).0,
            out is Some <==> fed(old(self)@, item).1 is Some,
            out matches Some(r) ==> emission(r) == fed(old(self)@, item).1->0,
    {
        if self.done {
            return None;
        }
        match item {
            Err(e) => {
                self.done = true;
                let mut msg = "sse transport: ".to_owned();
                append_str(&mut msg, e.as_str());
                Some(Err(BellowsError::Model(msg)))
            },
            Ok(frame) => {
                if frame.data.as_str().is_empty() {
                    None
                } else {
                    match frame.decoded {
                        None => None,
                        Some(ev) => self.project(ev),
                    }
                }
            },
        }
    }
}


// ── Credentials and headers ─────────────────────────────────────────────────

/// How to authenticate against Anthropic's API.
#[derive(Debug)]
pub enum AnthropicAuth {
    /// Standard API key, sent as the `x-api-key` header.
    ApiKey(String),
    /// Subscription OAuth token, sent as `Authorization: Bearer` together
    /// with the `anthropic-beta` header.
    OAuthBearer(String),
}

impl Clone for AnthropicAuth {
    fn clone(&self) -> (r: Self)
        ensures
            r == *self,
    {
        match self {
            AnthropicAuth::ApiKey(k) => AnthropicAuth::ApiKey(k.clone()),
            AnthropicAuth::OAuthBearer(t) => AnthropicAuth::OAuthBearer(t.clone()),
        }
    }
}

/// The kind (`true` for an API key) and secret of credentials.
pub open spec fn auth_view(a: AnthropicAuth) -> (bool, Seq<char>) {
    match a {
        AnthropicAuth::ApiKey(k) => (true, k@),
        AnthropicAuth::OAuthBearer(t) => (false, t@),
    }
}

pub open spec fn opt_auth_view(a: Option<AnthropicAuth>) -> Option<(bool, Seq<char>)> {
    match a {
        Some(x) => Some(auth_view(x)),
        None => None,
    }
}

pub open spec fn opt_text(s: Option<&str>) -> Option<Seq<char>> {
    match s {
        Some(x) => Some(x@),
        None => None,
    }
}

/// A non-empty API key wins, then a non-empty OAuth token.
pub open spec fn chosen_credentials(api_key: Option<Seq<char>>, oauth_token: Option<Seq<char>>) -> Option<
    (bool, Seq<char>),
> {
    if api_key is Some && api_key->0.len() > 0 {
        Some((true, api_key->0))
    } else if oauth_token is Some && oauth_token->0.len() > 0 {
        Some((false, oauth_token->0))
    } else {
        None
    }
}

impl AnthropicAuth {
    /// Choose credentials from the values of `ANTHROPIC_API_KEY` and
    /// `CLAUDE_CODE_OAUTH_TOKEN`: a non-empty API key wins, else a non-empty
    /// OAuth token, else none.
    pub fn from_values(api_key: Option<&str>, oauth_token: Option<&str>) -> (r: Option<Self>)
        ensures
            opt_auth_view(r) == chosen_credentials(opt_text(api_key), opt_text(oauth_token)),
    {
        match api_key {
            Some(k) if !k.is_empty() => {
                return Some(AnthropicAuth::ApiKey(k.to_owned()));
            },
            _ => {},
        }
        match oauth_token {
            Some(t) if !t.is_empty() => Some(AnthropicAuth::OAuthBearer(t.to_owned())),
            _ => None,
        }
    }
}

#[verifier::external_type_specification]
#[verifier::external_body]
pub struct ExReqwestClient(reqwest::Client);

/// `reqwest::Client::builder().user_agent(..).build()`, falling back to the
/// default client when the builder fails.
#[verifier::external_body]
fn http_client() -> reqwest::Client {
    reqwest::Client::builder()
        .user_agent("bellows/0.1.0")
        .build()
        .unwrap_or_default()
}

/// Anthropic Messages API provider configuration.
#[derive(Debug)]
pub struct AnthropicProvider {
    auth: AnthropicAuth,
    base_url: String,
    api_version: String,
    oauth_beta: String,
    client: reqwest::Client,
}

/// Header name and value.
pub type Header = (String, String);

pub open spec fn header_view(h: Header) -> (Seq<char>, Seq<char>) {
    (h.0@, h.1@)
}

pub open spec fn headers_view(hs: Seq<Header>) -> Seq<(Seq<char>, Seq<char>)> {
    hs.map_values(|h: Header| header_view(h))
}

fn header(name: &str, value: &str) -> (h: Header)
    ensures
        header_view(h) == (name@, value@),
{
    (name.to_owned(), value.to_owned())
}

impl AnthropicProvider {
    /// The credentials in use.
    pub closed spec fn auth_spec(self) -> AnthropicAuth {
        self.auth
    }

    /// The API base URL.
    pub closed spec fn base_url_spec(self) -> Seq<char> {
        self.base_url@
    }

    /// The `anthropic-version` header value.
    pub closed spec fn api_version_spec(self) -> Seq<char> {
        self.api_version@
    }

    /// The `anthropic-beta` value sent with OAuth tokens.
    pub closed spec fn oauth_beta_spec(self) -> Seq<char> {
        self.oauth_beta@
    }

    /// The HTTP client the provider was built with.
    pub closed spec fn client_spec(self) -> reqwest::Client {
        self.client
    }

    /// A provider with explicit credentials and the default endpoint
    /// (`https://api.anthropic.com`), API version `2023-06-01` and OAuth
    /// beta `oauth-2025-04-20`.
    pub fn new(auth: AnthropicAuth) -> (p: Self)
        ensures
            p.auth_spec() == auth,
            p.base_url_spec() == "https://api.anthropic.com"@,
            p.api_version_spec() == "2023-06-01"@,
            p.oauth_beta_spec() == "oauth-2025-04-20"@,
    {
        AnthropicProvider {
            auth,
            base_url: "https://api.anthropic.com".to_owned(),
            api_version: "2023-06-01".to_owned(),
            oauth_beta: "oauth-2025-04-20".to_owned(),
            client: http_client(),
        }
    }

    /// Override the API base URL (proxies, relays, test servers).
    pub fn with_base_url(self, url: &str) -> (p: Self)
        ensures
            p.auth_spec() == self.auth_spec(),
            p.base_url_spec() == url@,
            p.api_version_spec() == self.api_version_spec(),
            p.oauth_beta_spec() == self.oauth_beta_spec(),
            p.client_spec() == self.client_spec(),
    {
        let mut me = self;
        me.base_url = url.to_owned();
        me
    }

    /// The HTTP client requests go through: the one the provider was built
    /// with, kept across `with_base_url`.
    pub fn client(&self) -> (c: &reqwest::Client)
        ensures
            *c == self.client_spec(),
    {
        &self.client
    }

    /// The endpoint of the Messages API: `{base_url}/v1/messages`.
    pub fn messages_url(&self) -> (u: String)
        ensures
            u@ == self.base_url_spec() + "/v1/messages"@,
    {
        let mut u = self.base_url.clone();
        append_str(&mut u, "/v1/messages");
        u
    }

    /// The headers of a Messages request, in order: `anthropic-version`,
    /// `accept: text/event-stream` when streaming, `content-type`, then the
    /// credentials (`x-api-key`, or `authorization` and `anthropic-beta`).
    pub fn request_headers(&self, stream: bool) -> (hs: Vec<Header>)
        ensures
            headers_view(hs@) == request_headers_spec(*self, stream),
    {
        let mut hs: Vec<Header> = Vec::new();
        hs.push(header("anthropic-version", self.api_version.as_str()));
        if stream {
            hs.push(header("accept", "text/event-stream"));
        }
        hs.push(header("content-type", "application/json"));
        match &self.auth {
            AnthropicAuth::ApiKey(k) => {
                hs.push(header("x-api-key", k.as_str()));
            },
            AnthropicAuth::OAuthBearer(t) => {
                let mut bearer = "Bearer ".to_owned();
                append_str(&mut bearer, t.as_str());
                hs.push((("authorization".to_owned()), bearer));
                hs.push(header("anthropic-beta", self.oauth_beta.as_str()));
            },
        }
        assert(headers_view(hs@) =~= request_headers_spec(*self, stream));
        hs
    }
}

/// The message of the error returned when no credentials are configured.
pub open spec fn no_credentials_text() -> Seq<char> {
    "no Anthropic credentials found — set ANTHROPIC_API_KEY or CLAUDE_CODE_OAUTH_TOKEN"@
}

impl AnthropicProvider {
    /// A provider for the credentials chosen from the values of
    /// `ANTHROPIC_API_KEY` and `CLAUDE_CODE_OAUTH_TOKEN` (see
    /// [`AnthropicAuth::from_values`]), or a `Config` error when neither is
    /// usable.
    pub fn from_values(api_key: Option<&str>, oauth_token: Option<&str>) -> (r: Result<Self, BellowsError>)
        ensures
            match chosen_credentials(opt_text(api_key), opt_text(oauth_token)) {
                Some(c) => r matches Ok(p) && auth_view(p.auth_spec()) == c && p.base_url_spec()
                    == "https://api.anthropic.com"@ && p.api_version_spec() == "2023-06-01"@
                    && p.oauth_beta_spec() == "oauth-2025-04-20"@,
                None => r matches Err(BellowsError::Config(m)) && m@ == no_credentials_text(),
            },
    {
        match AnthropicAuth::from_values(api_key, oauth_token) {
            Some(auth) => Ok(AnthropicProvider::new(auth)),
            None => Err(
                BellowsError::Config(
                    "no Anthropic credentials found — set ANTHROPIC_API_KEY or CLAUDE_CODE_OAUTH_TOKEN".to_owned(),
                ),
            ),
        }
    }
}

/// `first`, then ` -> ` and each further cause.
pub open spec fn cause_chain(causes: Seq<Seq<char>>) -> Seq<char>
    decreases causes.len(),
{
    if causes.len() == 0 {
        Seq::empty()
    } else if causes.len() == 1 {
        causes[0]
    } else {
        cause_chain(causes.drop_last()) + " -> "@ + causes.last()
    }
}

/// The error for a failed request: `transport: ` and the error's text,
/// followed by ` -> ` and the text of each underlying cause, outermost
/// first.
pub fn transport_error(causes: &[String]) -> (e: BellowsError)
    ensures
        e matches BellowsError::Model(m) && m@ == "transport: "@ + cause_chain(
            causes@.map_values(|c: String| c@),
        ),
{
    let ghost texts = causes@.map_values(|c: String| c@);
    let mut chain = String::new();
    let mut i: usize = 0;
    while i < causes.len()
        invariant
            i <= causes.len(),
            texts == causes@.map_values(|c: String| c@),
            chain@ == cause_chain(texts.take(i as int)),
        decreases causes.len() - i,
    {
        assert(texts.take(i + 1).drop_last() =~= texts.take(i as int));
        if i > 0 {
            append_str(&mut chain, " -> ");
        } else {
            assert(chain@ =~= Seq::<char>::empty());
        }
        append_str(&mut chain, causes[i].as_str());
        i = i + 1;
        proof {
            if i == 1 {
                assert(chain@ =~= texts.take(1)[0]);
            }
        }
    }
    assert(texts.take(causes.len() as int) =~= texts);
    let mut msg = "transport: ".to_owned();
    append_str(&mut msg, chain.as_str());
    BellowsError::Model(msg)
}

/// The error for a response with a non-success status:
/// `HTTP {status}: {body}`.
pub fn http_status_error(status: &str, body_preview: &str) -> (e: BellowsError)
    ensures
        e matches BellowsError::Model(m) && m@ == "HTTP "@ + status@ + ": "@ + body_preview@,
{
    let mut msg = "HTTP ".to_owned();
    append_str(&mut msg, status);
    append_str(&mut msg, ": ");
    append_str(&mut msg, body_preview);
    BellowsError::Model(msg)
}

/// A provider error with context: `{context}: {detail}` (`read body`,
/// `decode`).
pub fn model_error(context: &str, detail: &str) -> (e: BellowsError)
    ensures
        e matches BellowsError::Model(m) && m@ == context@ + ": "@ + detail@,
{
    let mut msg = context.to_owned();
    append_str(&mut msg, ": ");
    append_str(&mut msg, detail);
    BellowsError::Model(msg)
}

/// The credential headers for `auth`.
pub open spec fn auth_headers_spec(auth: AnthropicAuth, oauth_beta: Seq<char>) -> Seq<
    (Seq<char>, Seq<char>),
> {
    match auth {
        AnthropicAuth::ApiKey(k) => seq![("x-api-key"@, k@)],
        AnthropicAuth::OAuthBearer(t) => seq![
            ("authorization"@, "Bearer "@ + t@),
            ("anthropic-beta"@, oauth_beta),
        ],
    }
}

/// The headers of a Messages request.
pub open spec fn request_headers_spec(p: AnthropicProvider, stream: bool) -> Seq<
    (Seq<char>, Seq<char>),
> {
    seq![("anthropic-version"@, p.api_version_spec())] + (if stream {
        seq![("accept"@, "text/event-stream"@)]
    } else {
        Seq::empty()
    }) + seq![("content-type"@, "application/json"@)] + auth_headers_spec(
        p.auth_spec(),
        p.oauth_beta_spec(),
    )
}


// ── Wire shapes ─────────────────────────────────────────────────────────────

/// One content block of a request message.
#[derive(Debug)]
pub enum AnthropicContentBlock {
    Text { text: String },
    ToolUse { id: String, name: String, input: JsonValue },
    ToolResult { tool_use_id: String, content: String, is_error: Option<bool> },
}

/// One message of a request body.
#[derive(Debug)]
pub struct AnthropicWireMessage {
    pub role: String,
    pub content: Vec<AnthropicContentBlock>,
}

/// A Messages API request body (sampling temperature aside).
#[derive(Debug)]
pub struct AnthropicMessageRequest {
    pub model: String,
    pub max_tokens: u32,
    pub messages: Vec<AnthropicWireMessage>,
    pub system: Option<String>,
    pub stop_sequences: Vec<String>,
    pub tools: Vec<JsonValue>,
    pub stream: bool,
}

pub enum BlockView {
    Text(Seq<char>),
    ToolUse(Seq<char>, Seq<char>, JsonView),
    ToolResult(Seq<char>, Seq<char>, Option<bool>),
}

pub open spec fn block_view(b: AnthropicContentBlock) -> BlockView {
    match b {
        AnthropicContentBlock::Text { text } => BlockView::Text(text@),
        AnthropicContentBlock::ToolUse { id, name, input } => BlockView::ToolUse(id@, name@, input@),
        AnthropicContentBlock::ToolResult { tool_use_id, content, is_error } => BlockView::ToolResult(
            tool_use_id@,
            content@,
            is_error,
        ),
    }
}

pub open spec fn blocks_view(bs: Seq<AnthropicContentBlock>) -> Seq<BlockView> {
    bs.map_values(|b: AnthropicContentBlock| block_view(b))
}

pub struct WireMessageView {
    pub role: Seq<char>,
    pub content: Seq<BlockView>,
}

impl View for AnthropicWireMessage {
    type V = WireMessageView;

    open spec fn view(&self) -> WireMessageView {
        WireMessageView { role: self.role@, content: blocks_view(self.content@) }
    }
}

/// The wire role of a message: assistant turns are `assistant`, everything
/// else (user, tool and, defensively, system) is `user`.
pub open spec fn wire_role(r: MsgRole) -> Seq<char> {
    if r == MsgRole::Assistant {
        "assistant"@
    } else {
        "user"@
    }
}

pub open spec fn call_blocks(cs: Seq<ToolCall>) -> Seq<BlockView> {
    cs.map_values(|c: ToolCall| BlockView::ToolUse(c.id@, c.name@, c.arguments@))
}

pub open spec fn result_block(r: ToolResult) -> BlockView {
    BlockView::ToolResult(
        r.call_id@,
        compact_text(r.output@),
        if r.is_error {
            Some(true)
        } else {
            None
        },
    )
}

pub open spec fn result_blocks(rs: Seq<ToolResult>) -> Seq<BlockView> {
    rs.map_values(|r: ToolResult| result_block(r))
}

/// The wire form of a message: its text (when non-empty), then a
/// `tool_use` block per tool call, then a `tool_result` block per result
/// whose content is the compact JSON of the output.
pub open spec fn wire_message(m: Message) -> WireMessageView {
    WireMessageView {
        role: wire_role(m.role),
        content: (if m.content@.len() == 0 {
            Seq::empty()
        } else {
            seq![BlockView::Text(m.content@)]
        }) + call_blocks(m.tool_calls@) + result_blocks(m.tool_results@),
    }
}

/// Convert one message into its wire form.
pub fn message_to_wire(m: &Message) -> (w: AnthropicWireMessage)
    ensures
        w@ == wire_message(*m),
{
    let role = match m.role {
        MsgRole::Assistant => "assistant".to_owned(),
        _ => "user".to_owned(),
    };
    let mut content: Vec<AnthropicContentBlock> = Vec::new();
    if !m.content.as_str().is_empty() {
        content.push(AnthropicContentBlock::Text { text: m.content.clone() });
    }
    let ghost head = blocks_view(content@);
    let mut i: usize = 0;
    while i < m.tool_calls.len()
        invariant
            i <= m.tool_calls.len(),
            blocks_view(content@) == head + call_blocks(m.tool_calls@.take(i as int)),
        decreases m.tool_calls.len() - i,
    {
        let tc = &m.tool_calls[i];
        content.push(
            AnthropicContentBlock::ToolUse {
                id: tc.id.clone(),
                name: tc.name.clone(),
                input: tc.arguments.clone(),
            },
        );
        i = i + 1;
        assert(blocks_view(content@) =~= head + call_blocks(m.tool_calls@.take(i as int)));
    }
    assert(m.tool_calls@.take(m.tool_calls.len() as int) == m.tool_calls@);
    let ghost head2 = blocks_view(content@);
    let mut j: usize = 0;
    while j < m.tool_results.len()
        invariant
            j <= m.tool_results.len(),
            blocks_view(content@) == head2 + result_blocks(m.tool_results@.take(j as int)),
        decreases m.tool_results.len() - j,
    {
        let tr = &m.tool_results[j];
        content.push(
            AnthropicContentBlock::ToolResult {
                tool_use_id: tr.call_id.clone(),
                content: tr.output.to_compact_string(),
                is_error: if tr.is_error {
                    Some(true)
                } else {
                    None
                },
            },
        );
        j = j + 1;
        assert(blocks_view(content@) =~= head2 + result_blocks(m.tool_results@.take(j as int)));
    }
    assert(m.tool_results@.take(m.tool_results.len() as int) == m.tool_results@);
    let w = AnthropicWireMessage { role, content };
    assert(w@.content =~= wire_message(*m).content);
    w
}

/// The messages that go into the request's `messages` (system messages go
/// into `system` instead).
pub open spec fn non_system(ms: Seq<Message>) -> Seq<Message>
    decreases ms.len(),
{
    if ms.len() == 0 {
        Seq::empty()
    } else if ms.last().role != MsgRole::System {
        non_system(ms.drop_last()).push(ms.last())
    } else {
        non_system(ms.drop_last())
    }
}

/// The wire form of a message speaks for the assistant exactly when the
/// message does, and its blocks are: the text, when there is any; then one
/// `tool_use` block per tool call, in order, with the call's id, name and
/// arguments; then one `tool_result` block per result, in order, with the
/// call id, the compact JSON of the output, and `Some(true)` for an error.
pub proof fn lemma_wire_message_blocks(m: Message)
    ensures
        ({
            let w = wire_message(m);
            let head: int = if m.content@.len() == 0 { 0 } else { 1 };
            let nc = m.tool_calls@.len() as int;
            &&& (w.role == "assistant"@) == (m.role == MsgRole::Assistant)
            &&& (m.role != MsgRole::Assistant ==> w.role == "user"@)
            &&& w.content.len() == head + nc + m.tool_results@.len()
            &&& (head == 1 ==> w.content[0] == BlockView::Text(m.content@))
            &&& forall|k: int|
                0 <= k < nc ==> w.content[head + k] == BlockView::ToolUse(
                    (#[trigger] m.tool_calls@[k]).id@,
                    m.tool_calls@[k].name@,
                    m.tool_calls@[k].arguments@,
                )
            &&& forall|k: int|
                0 <= k < m.tool_results@.len() ==> w.content[head + nc + k] == BlockView::ToolResult(
                    (#[trigger] m.tool_results@[k]).call_id@,
                    compact_text(m.tool_results@[k].output@),
                    if m.tool_results@[k].is_error {
                        Some(true)
                    } else {
                        None
                    },
                )
        }),
{
    reveal_strlit("assistant");
    reveal_strlit("user");
    assert("user"@.len() != "assistant"@.len());
    let w = wire_message(m);
    let head: int = if m.content@.len() == 0 { 0 } else { 1 };
    let nc = m.tool_calls@.len() as int;
    let t: Seq<BlockView> = if m.content@.len() == 0 {
        Seq::empty()
    } else {
        seq![BlockView::Text(m.content@)]
    };
    assert(t.len() == head);
    let a = t + call_blocks(m.tool_calls@);
    assert(w.content == a + result_blocks(m.tool_results@));
    assert forall|k: int| 0 <= k < nc implies w.content[head + k] == BlockView::ToolUse(
        (#[trigger] m.tool_calls@[k]).id@,
        m.tool_calls@[k].name@,
        m.tool_calls@[k].arguments@,
    ) by {
        assert(w.content[head + k] == a[head + k]);
        assert(a[head + k] == call_blocks(m.tool_calls@)[k]);
    }
    assert forall|k: int| 0 <= k < m.tool_results@.len() implies w.content[head + nc + k]
        == result_block(#[trigger] m.tool_results@[k]) by {
        assert(w.content[head + nc + k] == result_blocks(m.tool_results@)[k]);
    }
}

/// Dropping system messages keeps the others in order, whatever the split:
/// the non-system messages of `a + b` are those of `a`, then those of `b`.
pub proof fn lemma_non_system_concat(a: Seq<Message>, b: Seq<Message>)
    ensures
        non_system(a + b) == non_system(a) + non_system(b),
    decreases b.len(),
{
    if b.len() == 0 {
        assert(a + b =~= a);
        assert(non_system(a) + non_system(b) =~= non_system(a));
    } else {
        lemma_non_system_concat(a, b.drop_last());
        assert((a + b).drop_last() =~= a + b.drop_last());
        assert((a + b).last() == b.last());
        if b.last().role != MsgRole::System {
            assert(non_system(a) + non_system(b) =~= (non_system(a) + non_system(b.drop_last())).push(
                b.last(),
            ));
        }
    }
}

/// A message that is not a system message is kept, after the others; a
/// system message is left out; and a conversation without system messages
/// is kept whole and in order.
pub proof fn lemma_non_system_keeps_order(ms: Seq<Message>, m: Message)
    ensures
        m.role != MsgRole::System ==> non_system(ms.push(m)) == non_system(ms).push(m),
        m.role == MsgRole::System ==> non_system(ms.push(m)) == non_system(ms),
        (forall|k: int| 0 <= k < ms.len() ==> (#[trigger] ms[k]).role != MsgRole::System) ==> non_system(ms)
            == ms,
    decreases ms.len(),
{
    assert(ms.push(m).drop_last() =~= ms);
    if forall|k: int| 0 <= k < ms.len() ==> (#[trigger] ms[k]).role != MsgRole::System {
        if ms.len() > 0 {
            let ms2 = ms.drop_last();
            assert forall|k: int| 0 <= k < ms2.len() implies (#[trigger] ms2[k]).role != MsgRole::System by {
                assert(ms2[k] == ms[k]);
            }
            lemma_non_system_keeps_order(ms2, ms.last());
            assert(ms2.push(ms.last()) =~= ms);
        }
    }
}

pub open spec fn wire_messages(ms: Seq<Message>) -> Seq<WireMessageView> {
    ms.map_values(|m: Message| wire_message(m))
}

pub open spec fn wire_views(ws: Seq<AnthropicWireMessage>) -> Seq<WireMessageView> {
    ws.map_values(|w: AnthropicWireMessage| w@)
}

pub open spec fn strings_text(ts: Seq<String>) -> Seq<Seq<char>> {
    ts.map_values(|t: String| t@)
}

pub open spec fn json_texts(ts: Seq<JsonValue>) -> Seq<JsonView> {
    ts.map_values(|t: JsonValue| t@)
}

pub open spec fn tool_entries(ts: Seq<ToolSchema>) -> Seq<JsonView> {
    ts.map_values(|t: ToolSchema| tool_entry(t@))
}

/// The tool entry of a request: `{name, description, input_schema}`.
pub open spec fn tool_entry(t: crate::tool::ToolSchemaView) -> JsonView {
    JsonView::Object(
        seq![
            ("name"@, JsonView::Str(t.name)),
            ("description"@, JsonView::Str(t.description)),
            ("input_schema"@, t.parameters),
        ],
    )
}

pub struct MessageRequestView {
    pub model: Seq<char>,
    pub max_tokens: u32,
    pub messages: Seq<WireMessageView>,
    pub system: Option<Seq<char>>,
    pub stop_sequences: Seq<Seq<char>>,
    pub tools: Seq<JsonView>,
    pub stream: bool,
}

impl View for AnthropicMessageRequest {
    type V = MessageRequestView;

    open spec fn view(&self) -> MessageRequestView {
        MessageRequestView {
            model: self.model@,
            max_tokens: self.max_tokens,
            messages: wire_views(self.messages@),
            system: match self.system {
                Some(t) => Some(t@),
                None => None,
            },
            stop_sequences: strings_text(self.stop_sequences@),
            tools: json_texts(self.tools@),
            stream: self.stream,
        }
    }
}

/// The request body for a conversation: up to 1024 output tokens unless
/// `max_tokens` says otherwise, every non-system message in wire form, the
/// rendered role as `system`, the stop sequences, and each tool schema.
pub open spec fn request_body(
    model: Seq<char>,
    messages: Seq<Message>,
    role: Option<Role>,
    tools: Seq<ToolSchema>,
    max_tokens: Option<u32>,
    stop: Seq<String>,
    stream: bool,
) -> MessageRequestView {
    MessageRequestView {
        model,
        max_tokens: match max_tokens {
            Some(n) => n,
            None => 1024,
        },
        messages: wire_messages(non_system(messages)),
        system: match role {
            Some(r) => rendered(r),
            None => None,
        },
        stop_sequences: strings_text(stop),
        tools: tool_entries(tools),
        stream,
    }
}

/// The request carries the conversation's messages in their order: when no
/// message is a system message, message `k` of the request is the wire form
/// of message `k` of the conversation.
pub proof fn lemma_request_keeps_conversation_order(
    model: Seq<char>,
    messages: Seq<Message>,
    role: Option<Role>,
    tools: Seq<ToolSchema>,
    max_tokens: Option<u32>,
    stop: Seq<String>,
    stream: bool,
)
    requires
        forall|k: int| 0 <= k < messages.len() ==> (#[trigger] messages[k]).role != MsgRole::System,
    ensures
        ({
            let req = request_body(model, messages, role, tools, max_tokens, stop, stream);
            &&& req.messages.len() == messages.len()
            &&& forall|k: int|
                0 <= k < messages.len() ==> #[trigger] req.messages[k] == wire_message(messages[k])
        }),
{
    if messages.len() > 0 {
        lemma_non_system_keeps_order(messages, messages[0]);
    }
}

/// Apart from the messages, the request carries: the model as given; the
/// given output-token cap, or 1024; the rendered role as `system`; every
/// stop sequence, in order; one entry per tool, in order, naming the tool
/// and holding its description and argument schema; and the stream flag.
pub proof fn lemma_request_fields(
    model: Seq<char>,
    messages: Seq<Message>,
    role: Option<Role>,
    tools: Seq<ToolSchema>,
    max_tokens: Option<u32>,
    stop: Seq<String>,
    stream: bool,
)
    ensures
        ({
            let req = request_body(model, messages, role, tools, max_tokens, stop, stream);
            &&& req.model == model
            &&& req.stream == stream
            &&& (max_tokens matches Some(n) ==> req.max_tokens == n)
            &&& (max_tokens is None ==> req.max_tokens == 1024)
            &&& (role is None ==> req.system is None)
            &&& (role matches Some(r) ==> req.system == rendered(r))
            &&& req.stop_sequences.len() == stop.len()
            &&& forall|k: int| 0 <= k < stop.len() ==> req.stop_sequences[k] == (#[trigger] stop[k])@
            &&& req.tools.len() == tools.len()
            &&& forall|k: int|
                0 <= k < tools.len() ==> {
                    &&& str_member(req.tools[k], "name"@) == Some((#[trigger] tools[k]).name@)
                    &&& str_member(req.tools[k], "description"@) == Some(tools[k].description@)
                    &&& view_get(req.tools[k], "input_schema"@) == Some(tools[k].parameters@)
                }
        }),
{
    reveal_strlit("name");
    reveal_strlit("description");
    reveal_strlit("input_schema");
    assert("name"@.len() == 4 && "description"@.len() == 11 && "input_schema"@.len() == 12);
    let req = request_body(model, messages, role, tools, max_tokens, stop, stream);
    assert forall|k: int| 0 <= k < tools.len() implies {
        &&& str_member(req.tools[k], "name"@) == Some((#[trigger] tools[k]).name@)
        &&& str_member(req.tools[k], "description"@) == Some(tools[k].description@)
        &&& view_get(req.tools[k], "input_schema"@) == Some(tools[k].parameters@)
    } by {
        let e = seq![
            ("name"@, JsonView::Str(tools[k]@.name)),
            ("description"@, JsonView::Str(tools[k]@.description)),
            ("input_schema"@, tools[k]@.parameters),
        ];
        assert(req.tools[k] == JsonView::Object(e));
        lemma_member_found(e, "name"@, 0);
        lemma_member_found(e, "description"@, 1);
        lemma_member_found(e, "input_schema"@, 2);
    }
}

fn tool_to_wire(t: &ToolSchema) -> (j: JsonValue)
    ensures
        j@ == tool_entry(t@),
{
    let mut entries: Vec<(String, JsonValue)> = Vec::new();
    push_member(&mut entries, "name", JsonValue::String(t.name.clone()));
    push_member(&mut entries, "description", JsonValue::String(t.description.clone()));
    push_member(&mut entries, "input_schema", t.parameters.clone());
    assert(entry_views(entries@) =~= seq![
        ("name"@, JsonView::Str(t.name@)),
        ("description"@, JsonView::Str(t.description@)),
        ("input_schema"@, t.parameters@),
    ]);
    JsonValue::Object(entries)
}

/// Build the Messages API body for a conversation.
pub fn build_request_body(
    model: &str,
    messages: &[Message],
    role: Option<&Role>,
    tools: &[ToolSchema],
    max_tokens: Option<u32>,
    stop: &[String],
    stream: bool,
) -> (req: AnthropicMessageRequest)
    ensures
        req@ == request_body(
            model@,
            messages@,
            crate::role::opt_role(role),
            tools@,
            max_tokens,
            stop@,
            stream,
        ),
{
    let mut wire: Vec<AnthropicWireMessage> = Vec::new();
    let mut i: usize = 0;
    while i < messages.len()
        invariant
            i <= messages.len(),
            wire_views(wire@) == wire_messages(non_system(messages@.take(i as int))),
        decreases messages.len() - i,
    {
        let m = &messages[i];
        proof {
            assert(messages@.take(i + 1).drop_last() == messages@.take(i as int));
        }
        if m.role != MsgRole::System {
            wire.push(message_to_wire(m));
        }
        i = i + 1;
        assert(wire_views(wire@) =~= wire_messages(non_system(messages@.take(i as int))));
    }
    assert(messages@.take(messages.len() as int) == messages@);
    let system = match role {
        Some(r) => r.render(),
        None => None,
    };
    let mut stops: Vec<String> = Vec::new();
    let mut k: usize = 0;
    while k < stop.len()
        invariant
            k <= stop.len(),
            strings_text(stops@) == strings_text(stop@.take(k as int)),
        decreases stop.len() - k,
    {
        stops.push(stop[k].clone());
        k = k + 1;
        assert(strings_text(stops@) =~= strings_text(stop@.take(k as int)));
    }
    assert(stop@.take(stop.len() as int) == stop@);
    let mut tool_list: Vec<JsonValue> = Vec::new();
    let mut n: usize = 0;
    while n < tools.len()
        invariant
            n <= tools.len(),
            json_texts(tool_list@) == tool_entries(tools@.take(n as int)),
        decreases tools.len() - n,
    {
        tool_list.push(tool_to_wire(&tools[n]));
        n = n + 1;
        assert(json_texts(tool_list@) =~= tool_entries(tools@.take(n as int)));
    }
    assert(tools@.take(tools.len() as int) == tools@);
    let req = AnthropicMessageRequest {
        model: model.to_owned(),
        max_tokens: match max_tokens {
            Some(x) => x,
            None => 1024,
        },
        messages: wire,
        system,
        stop_sequences: stops,
        tools: tool_list,
        stream,
    };
    assert(req@.system == request_body(
        model@,
        messages@,
        crate::role::opt_role(role),
        tools@,
        max_tokens,
        stop@,
        stream,
    ).system);
    req
}

/// One content block of a non-streaming response.
#[derive(Debug)]
pub enum AnthropicResponseBlock {
    Text { text: String },
    ToolUse { id: String, name: String, input: JsonValue },
    /// Any other block type (thinking, images, ...).
    Unknown,
}

/// Token usage of a non-streaming response.
#[derive(Debug, Clone, Copy)]
pub struct AnthropicUsage {
    pub input_tokens: u32,
    pub output_tokens: u32,
    pub cache_read_input_tokens: Option<u32>,
}

/// A decoded non-streaming Messages API response.
#[derive(Debug)]
pub struct AnthropicMessageResponse {
    pub content: Vec<AnthropicResponseBlock>,
    pub stop_reason: Option<String>,
    pub usage: Option<AnthropicUsage>,
}

/// The text of a response: its text blocks, concatenated in order.
pub open spec fn response_text(bs: Seq<AnthropicResponseBlock>) -> Seq<char>
    decreases bs.len(),
{
    if bs.len() == 0 {
        Seq::empty()
    } else {
        response_text(bs.drop_last()) + match bs.last() {
            AnthropicResponseBlock::Text { text } => text@,
            _ => Seq::empty(),
        }
    }
}

/// The tool calls of a response: one per `tool_use` block, in order.
pub open spec fn response_calls(bs: Seq<AnthropicResponseBlock>) -> Seq<ToolCallView>
    decreases bs.len(),
{
    if bs.len() == 0 {
        Seq::empty()
    } else {
        let prev = response_calls(bs.drop_last());
        match bs.last() {
            AnthropicResponseBlock::ToolUse { id, name, input } => prev.push(
                ToolCallView { id: id@, name: name@, arguments: input@ },
            ),
            _ => prev,
        }
    }
}

/// The stop reason of a response; a missing one counts as `Other`.
pub open spec fn response_stop(s: Option<String>) -> StopReason {
    match s {
        Some(t) => stop_reason_of(t@),
        None => StopReason::Other,
    }
}

pub open spec fn response_usage(u: Option<AnthropicUsage>) -> Option<ModelUsage> {
    match u {
        Some(x) => Some(
            ModelUsage {
                input_tokens: x.input_tokens,
                output_tokens: x.output_tokens,
                cached_input_tokens: x.cache_read_input_tokens,
            },
        ),
        None => None,
    }
}

/// The vendor-neutral response for a decoded Messages API response: one
/// assistant message with the concatenated text and the tool calls.
pub open spec fn response_of(r: AnthropicMessageResponse) -> ModelResponseView {
    ModelResponseView {
        message: MessageView {
            role: MsgRole::Assistant,
            content: response_text(r.content@),
            tool_calls: response_calls(r.content@),
            tool_results: Seq::empty(),
        },
        stop_reason: response_stop(r.stop_reason),
        usage: response_usage(r.usage),
    }
}

impl AnthropicMessageResponse {
    /// Turn the decoded response into a [`ModelResponse`].
    pub fn into_response(self) -> (r: ModelResponse)
        ensures
            r@ == response_of(self),
    {
        let mut text_out = String::new();
        let mut tool_calls: Vec<ToolCall> = Vec::new();
        let mut i: usize = 0;
        while i < self.content.len()
            invariant
                i <= self.content.len(),
                text_out@ == response_text(self.content@.take(i as int)),
                calls_view(tool_calls@) == response_calls(self.content@.take(i as int)),
            decreases self.content.len() - i,
        {
            proof {
                assert(self.content@.take(i + 1).drop_last() =~= self.content@.take(i as int));
            }
            match &self.content[i] {
                AnthropicResponseBlock::Text { text } => {
                    append_str(&mut text_out, text.as_str());
                },
                AnthropicResponseBlock::ToolUse { id, name, input } => {
                    tool_calls.push(
                        ToolCall { id: id.clone(), name: name.clone(), arguments: input.clone() },
                    );
                },
                AnthropicResponseBlock::Unknown => {},
            }
            i = i + 1;
            assert(calls_view(tool_calls@) =~= response_calls(self.content@.take(i as int)));
        }
        assert(self.content@.take(self.content.len() as int) =~= self.content@);
        let stop_reason = match &self.stop_reason {
            Some(t) => parse_stop_reason(t.as_str()),
            None => StopReason::Other,
        };
        let usage = match self.usage {
            Some(u) => Some(
                ModelUsage {
                    input_tokens: u.input_tokens,
                    output_tokens: u.output_tokens,
                    cached_input_tokens: u.cache_read_input_tokens,
                },
            ),
            None => None,
        };
        let r = ModelResponse {
            message: Message {
                role: MsgRole::Assistant,
                content: text_out,
                tool_calls,
                tool_results: Vec::new(),
            },
            stop_reason,
            usage,
        };
        assert(r@.message.tool_results =~= Seq::empty());
        r
    }
}

// ── Laws of the SSE projection ──────────────────────────────────────────────

/// Whether an emission ends the stream (the final `EndTurn`, or an error).
pub open spec fn is_terminal(e: Emitted) -> bool {
    e is End || e is Failure
}

/// Whether `id` was announced by a `ToolCallStart` among `es`.
pub open spec fn started(es: Seq<Emitted>, id: Seq<char>) -> bool {
    exists|j: int| 0 <= j < es.len() && (#[trigger] es[j] matches Emitted::CallStart(i, _) && i == id)
}

/// The state reached and the events emitted when `items` are fed in order,
/// starting from `s`.
pub open spec fn run(s: StreamStateView, items: Seq<Result<SseFrame, String>>) -> (
    StreamStateView,
    Seq<Emitted>,
)
    decreases items.len(),
{
    if items.len() == 0 {
        (s, Seq::empty())
    } else {
        let prev = run(s, items.drop_last());
        let step = fed(prev.0, items.last());
        (
            step.0,
            match step.1 {
                Some(e) => prev.1.push(e),
                None => prev.1,
            },
        )
    }
}

/// Once the stream is done, every further frame is absorbed: the state
/// stays as it is and nothing is emitted.
pub proof fn lemma_done_absorbs(s: StreamStateView, item: Result<SseFrame, String>)
    requires
        s.done,
    ensures
        fed(s, item) == (s, None::<Emitted>),
{
}

/// Emitting the final `EndTurn` or an error latches the stream as done, and
/// a done stream stays done.
pub proof fn lemma_terminal_latches(s: StreamStateView, item: Result<SseFrame, String>)
    ensures
        s.done ==> fed(s, item).0.done,
        fed(s, item).1 matches Some(e) && is_terminal(e) ==> fed(s, item).0.done,
{
}

/// Over any sequence of frames the stream behaves as a one-shot iterator:
/// a done stream emits nothing, and a terminal event (`EndTurn` or an error)
/// is the last event emitted, after which the stream is done.
pub proof fn lemma_run_terminal_is_last(s: StreamStateView, items: Seq<Result<SseFrame, String>>)
    ensures
        s.done ==> run(s, items) == (s, Seq::<Emitted>::empty()),
        forall|k: int|
            0 <= k < run(s, items).1.len() && is_terminal(#[trigger] run(s, items).1[k]) ==> k
                == run(s, items).1.len() - 1 && run(s, items).0.done,
    decreases items.len(),
{
    if items.len() > 0 {
        let prev = run(s, items.drop_last());
        lemma_run_terminal_is_last(s, items.drop_last());
        lemma_terminal_latches(prev.0, items.last());
        let es = run(s, items).1;
        if !prev.0.done {
            assert forall|k: int| 0 <= k < es.len() && is_terminal(#[trigger] es[k]) implies k
                == es.len() - 1 && run(s, items).0.done by {
                if k < prev.1.len() {
                    assert(es[k] == prev.1[k]);
                }
            }
        }
    }
}

/// Every `ToolCallDelta` carries the id of a tool call that an earlier
/// `ToolCallStart` of the same stream announced.
pub proof fn lemma_deltas_follow_starts(items: Seq<Result<SseFrame, String>>)
    ensures
        ({
            let s0 = StreamStateView {
                tool_ids: Map::empty(),
                pending_stop_reason: None,
                pending_usage: None,
                done: false,
            };
            let es = run(s0, items).1;
            forall|k: int|
                0 <= k < es.len() ==> (#[trigger] es[k] matches Emitted::CallDelta(id, _) ==> started(
                    es.take(k),
                    id,
                ))
        }),
{
    let s0 = StreamStateView {
        tool_ids: Map::empty(),
        pending_stop_reason: None,
        pending_usage: None,
        done: false,
    };
    lemma_run_ids_started(s0, items);
}

/// Every open tool block's id was announced, and every delta follows the
/// announcement of its id.
proof fn lemma_run_ids_started(s0: StreamStateView, items: Seq<Result<SseFrame, String>>)
    requires
        s0.tool_ids == Map::<u32, Seq<char>>::empty(),
    ensures
        forall|idx: u32|
            #[trigger] run(s0, items).0.tool_ids.contains_key(idx) ==> started(
                run(s0, items).1,
                run(s0, items).0.tool_ids[idx],
            ),
        forall|k: int|
            0 <= k < run(s0, items).1.len() ==> (#[trigger] run(s0, items).1[k] matches Emitted::CallDelta(
                id,
                _,
            ) ==> started(run(s0, items).1.take(k), id)),
    decreases items.len(),
{
    if items.len() > 0 {
        lemma_run_ids_started(s0, items.drop_last());
        let prev = run(s0, items.drop_last());
        let st = prev.0;
        let es = prev.1;
        let step = fed(st, items.last());
        let es2 = run(s0, items).1;
        assert(run(s0, items).0 == step.0);
        // Every emission of the prefix is still there, at the same place.
        assert forall|j: int| 0 <= j < es.len() implies #[trigger] es2[j] == es[j] by {}
        assert forall|id: Seq<char>| started(es, id) implies started(es2, id) by {
            let j = choose|j: int|
                0 <= j < es.len() && (#[trigger] es[j] matches Emitted::CallStart(i, _) && i == id);
            assert(es2[j] == es[j]);
        }
        assert forall|idx: u32| #[trigger] step.0.tool_ids.contains_key(idx) implies started(
            es2,
            step.0.tool_ids[idx],
        ) by {
            if st.tool_ids.contains_key(idx) && step.0.tool_ids[idx] == st.tool_ids[idx] {
                assert(started(es, st.tool_ids[idx]));
            } else {
                // The block was opened by this frame, which announced it.
                let j = es.len() as int;
                assert(es2[j] matches Emitted::CallStart(i, _) && i == step.0.tool_ids[idx]);
            }
        }
        assert forall|k: int|
            0 <= k < es2.len() && (#[trigger] es2[k] matches Emitted::CallDelta(_, _)) implies (
            es2[k] matches Emitted::CallDelta(id, _) && started(es2.take(k), id)) by {
            if k < es.len() {
                assert(es2.take(k) =~= es.take(k));
            } else {
                assert(es2.take(k) =~= es);
            }
        }
    }
}

} // verus!
