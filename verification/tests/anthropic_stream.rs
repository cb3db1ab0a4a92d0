use bellows::anthropic::{
    http_status_error, AnthropicAuth, AnthropicProvider, AnthropicSseContentBlock, AnthropicSseDelta,
    AnthropicSseError, AnthropicSseEvent, AnthropicSseMessageDelta, AnthropicSseUsageDelta, SseFrame,
    StreamState,
};
use bellows::error::BellowsError;
use bellows::model::{ModelStreamEvent, StopReason};

/// One SSE frame whose `data` decoded to `ev` (the raw text is only
/// checked for being non-empty).
fn frame(ev: AnthropicSseEvent) -> Result<SseFrame, String> {
    Ok(SseFrame { data: "{...}".to_string(), decoded: Some(ev) })
}

fn message_start() -> Result<SseFrame, String> {
    frame(AnthropicSseEvent::Unknown)
}

fn text_start(index: u32) -> Result<SseFrame, String> {
    frame(AnthropicSseEvent::ContentBlockStart {
        index,
        content_block: AnthropicSseContentBlock::Text { text: String::new() },
    })
}

fn tool_start(index: u32, id: &str, name: &str) -> Result<SseFrame, String> {
    frame(AnthropicSseEvent::ContentBlockStart {
        index,
        content_block: AnthropicSseContentBlock::ToolUse { id: id.to_string(), name: name.to_string() },
    })
}

fn text_delta(index: u32, text: &str) -> Result<SseFrame, String> {
    frame(AnthropicSseEvent::ContentBlockDelta {
        index,
        delta: AnthropicSseDelta::TextDelta { text: text.to_string() },
    })
}

fn json_delta(index: u32, partial: &str) -> Result<SseFrame, String> {
    frame(AnthropicSseEvent::ContentBlockDelta {
        index,
        delta: AnthropicSseDelta::InputJsonDelta { partial_json: partial.to_string() },
    })
}

fn block_stop() -> Result<SseFrame, String> {
    frame(AnthropicSseEvent::Unknown)
}

fn message_delta(stop: Option<&str>, output_tokens: Option<u32>) -> Result<SseFrame, String> {
    frame(AnthropicSseEvent::MessageDelta {
        delta: AnthropicSseMessageDelta { stop_reason: stop.map(str::to_string) },
        usage: Some(AnthropicSseUsageDelta {
            input_tokens: None,
            output_tokens,
            cache_read_input_tokens: None,
        }),
    })
}

fn message_stop() -> Result<SseFrame, String> {
    frame(AnthropicSseEvent::MessageStop)
}

fn pump(frames: Vec<Result<SseFrame, String>>) -> Vec<Result<ModelStreamEvent, BellowsError>> {
    let mut st = StreamState::new();
    let mut out = Vec::new();
    for f in frames {
        if let Some(ev) = st.feed(f) {
            out.push(ev);
        }
    }
    out
}

fn ok_events(frames: Vec<Result<SseFrame, String>>) -> Vec<ModelStreamEvent> {
    pump(frames).into_iter().map(|r| r.unwrap()).collect()
}

#[test]
fn stream_emits_text_delta_then_end_turn() {
    let events = ok_events(vec![
        message_start(),
        text_start(0),
        text_delta(0, "Hello"),
        text_delta(0, ", world"),
        block_stop(),
        message_delta(Some("end_turn"), Some(5)),
        message_stop(),
    ]);
    assert_eq!(events.len(), 3, "events: {events:?}");
    match &events[0] {
        ModelStreamEvent::TextDelta { text } => assert_eq!(text, "Hello"),
        other => panic!("event 0 should be TextDelta('Hello'); got {other:?}"),
    }
    match &events[1] {
        ModelStreamEvent::TextDelta { text } => assert_eq!(text, ", world"),
        other => panic!("event 1 should be TextDelta(', world'); got {other:?}"),
    }
    match &events[2] {
        ModelStreamEvent::EndTurn { stop_reason, usage } => {
            assert_eq!(*stop_reason, StopReason::EndTurn);
            let u = usage.as_ref().expect("EndTurn carries usage");
            assert_eq!(u.output_tokens, 5);
        },
        other => panic!("event 2 should be EndTurn; got {other:?}"),
    }
}

#[test]
fn stream_emits_tool_use_start_and_input_json_delta() {
    let events = ok_events(vec![
        message_start(),
        tool_start(0, "toolu_01XYZ", "fs_read"),
        json_delta(0, "{\"path\":"),
        json_delta(0, "\"/etc/hosts\"}"),
        block_stop(),
        message_delta(Some("tool_use"), Some(42)),
        message_stop(),
    ]);
    assert_eq!(events.len(), 4, "events: {events:?}");
    match &events[0] {
        ModelStreamEvent::ToolCallStart { id, name } => {
            assert_eq!(id, "toolu_01XYZ");
            assert_eq!(name, "fs_read");
        },
        other => panic!("event 0 should be ToolCallStart; got {other:?}"),
    }
    match &events[1] {
        ModelStreamEvent::ToolCallDelta { id, arguments_json } => {
            assert_eq!(id, "toolu_01XYZ");
            assert_eq!(arguments_json, "{\"path\":");
        },
        other => panic!("event 1 should be ToolCallDelta; got {other:?}"),
    }
    match &events[2] {
        ModelStreamEvent::ToolCallDelta { id, arguments_json } => {
            assert_eq!(id, "toolu_01XYZ");
            assert_eq!(arguments_json, "\"/etc/hosts\"}");
        },
        other => panic!("event 2 should be ToolCallDelta; got {other:?}"),
    }
    match &events[3] {
        ModelStreamEvent::EndTurn { stop_reason, .. } => assert_eq!(*stop_reason, StopReason::ToolUse),
        other => panic!("event 3 should be EndTurn(ToolUse); got {other:?}"),
    }
}

#[test]
fn stream_propagates_inline_error_event() {
    let events = pump(vec![
        message_start(),
        text_start(0),
        text_delta(0, "thinking"),
        frame(AnthropicSseEvent::Error {
            error: AnthropicSseError {
                kind: Some("overloaded_error".to_string()),
                message: Some("Overloaded".to_string()),
            },
        }),
    ]);
    assert_eq!(events.len(), 2);
    assert!(events[0].is_ok());
    let err = events[1].as_ref().unwrap_err();
    let s = err.text();
    assert!(s.contains("overloaded_error"), "stringified err: {s}");
    assert!(s.contains("Overloaded"), "stringified err: {s}");
}

#[test]
fn stream_returns_http_error_before_first_event() {
    let body = r#"{"type":"error","error":{"type":"rate_limit_error","message":"slow down"}}"#;
    let err = http_status_error("429 Too Many Requests", body).text();
    assert!(err.contains("HTTP 429"), "got: {err}");
    assert!(err.contains("rate_limit_error"), "got: {err}");
}

#[test]
fn stream_falls_back_to_end_turn_when_message_delta_omits_stop_reason() {
    let events = ok_events(vec![text_start(0), text_delta(0, "ok"), message_stop()]);
    assert_eq!(events.len(), 2);
    assert!(matches!(events[1], ModelStreamEvent::EndTurn { stop_reason: StopReason::EndTurn, .. }));
}

#[test]
fn stream_uses_oauth_bearer_when_configured() {
    let provider = AnthropicProvider::new(AnthropicAuth::OAuthBearer("oat-token".to_string()))
        .with_base_url("http://127.0.0.1:9");
    let headers = provider.request_headers(true);
    assert!(headers.contains(&("authorization".to_string(), "Bearer oat-token".to_string())));
    assert!(headers.contains(&("anthropic-beta".to_string(), "oauth-2025-04-20".to_string())));
    assert!(headers.contains(&("accept".to_string(), "text/event-stream".to_string())));
    assert_eq!(provider.messages_url(), "http://127.0.0.1:9/v1/messages");
    let events = pump(vec![
        text_start(0),
        text_delta(0, "hi"),
        message_delta(Some("end_turn"), Some(1)),
        message_stop(),
    ]);
    assert_eq!(events.len(), 2);
    assert!(events.iter().all(Result::is_ok));
    assert!(matches!(events[1].as_ref().unwrap(), ModelStreamEvent::EndTurn { .. }));
}

#[test]
fn stream_projection_snapshot() {
    let events = ok_events(vec![
        message_start(),
        text_start(0),
        text_delta(0, "Let me check."),
        block_stop(),
        tool_start(1, "toolu_AAA", "fs_list"),
        json_delta(1, "{\"path\":\".\"}"),
        block_stop(),
        message_delta(Some("tool_use"), Some(11)),
        message_stop(),
    ]);
    assert_eq!(events.len(), 4);
    assert!(matches!(&events[0], ModelStreamEvent::TextDelta { text } if text == "Let me check."));
    assert!(matches!(&events[1], ModelStreamEvent::ToolCallStart { id, name } if id == "toolu_AAA" && name == "fs_list"));
    assert!(matches!(&events[2], ModelStreamEvent::ToolCallDelta { id, arguments_json } if id == "toolu_AAA" && arguments_json == "{\"path\":\".\"}"));
    match &events[3] {
        ModelStreamEvent::EndTurn { stop_reason, usage } => {
            assert_eq!(*stop_reason, StopReason::ToolUse);
            let u = usage.unwrap();
            assert_eq!((u.input_tokens, u.output_tokens, u.cached_input_tokens), (0, 11, None));
        },
        other => panic!("expected EndTurn, got {other:?}"),
    }
}

#[test]
fn stream_preserves_usage_input_tokens_across_events() {
    let events = ok_events(vec![
        message_start(),
        text_start(0),
        text_delta(0, "x"),
        message_delta(Some("end_turn"), Some(7)),
        message_stop(),
    ]);
    let last = events.last().unwrap();
    let ModelStreamEvent::EndTurn { usage, .. } = last else { panic!("expected EndTurn, got {last:?}") };
    let u = usage.as_ref().unwrap();
    assert_eq!(u.output_tokens, 7);
    assert_eq!(u.input_tokens, 0);
}

#[test]
fn stream_is_done_after_end_turn_and_absorbs_everything() {
    let mut st = StreamState::new();
    assert!(st.feed(message_stop()).is_some());
    assert!(st.is_done());
    assert!(st.feed(text_delta(0, "late")).is_none());
    assert!(st.feed(Err("broken pipe".to_string())).is_none());
}

#[test]
fn transport_error_ends_the_stream() {
    let mut st = StreamState::new();
    match st.feed(Err("connection reset".to_string())) {
        Some(Err(e)) => assert_eq!(e.text(), "model provider error: sse transport: connection reset"),
        _ => panic!("expected a transport failure"),
    }
    assert!(st.is_done());
}

#[test]
fn empty_undecodable_and_unknown_frames_are_skipped() {
    let mut st = StreamState::new();
    assert!(st.feed(Ok(SseFrame { data: String::new(), decoded: Some(AnthropicSseEvent::MessageStop) })).is_none());
    assert!(st.feed(Ok(SseFrame { data: "garbage".to_string(), decoded: None })).is_none());
    assert!(st.feed(message_start()).is_none());
    assert!(!st.is_done());
    // A delta for a block that never started is dropped.
    assert!(st.feed(json_delta(7, "{}")).is_none());
}

#[test]
fn usage_overlay_merges_reported_fields() {
    let events = ok_events(vec![
        frame(AnthropicSseEvent::MessageDelta {
            delta: AnthropicSseMessageDelta { stop_reason: None },
            usage: Some(AnthropicSseUsageDelta {
                input_tokens: Some(3),
                output_tokens: Some(1),
                cache_read_input_tokens: Some(2),
            }),
        }),
        message_delta(Some("max_tokens"), Some(9)),
        message_stop(),
    ]);
    match &events[0] {
        ModelStreamEvent::EndTurn { stop_reason, usage } => {
            assert_eq!(*stop_reason, StopReason::MaxTokens);
            let u = usage.unwrap();
            assert_eq!((u.input_tokens, u.output_tokens, u.cached_input_tokens), (3, 9, Some(2)));
        },
        other => panic!("expected EndTurn, got {other:?}"),
    }
}

#[test]
fn inline_error_without_details_uses_defaults() {
    let events = pump(vec![frame(AnthropicSseEvent::Error {
        error: AnthropicSseError { kind: None, message: None },
    })]);
    match &events[0] {
        Err(BellowsError::Model(m)) => assert_eq!(m, "anthropic stream unknown: anthropic stream error"),
        other => panic!("expected a model error, got {other:?}"),
    }
}
