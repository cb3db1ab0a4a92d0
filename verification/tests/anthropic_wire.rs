use bellows::anthropic::{
    build_request_body, message_to_wire, model_error, parse_stop_reason, transport_error,
    AnthropicAuth, AnthropicContentBlock, AnthropicMessageResponse, AnthropicProvider,
    AnthropicResponseBlock, AnthropicUsage,
};
use bellows::error::BellowsError;
use bellows::json::JsonValue;
use bellows::message::{Message, MsgRole, ToolCall, ToolResult};
use bellows::model::StopReason;
use bellows::role::Role;
use bellows::tool::ToolSchema;

fn obj(pairs: &[(&str, JsonValue)]) -> JsonValue {
    JsonValue::Object(pairs.iter().map(|(k, v)| (k.to_string(), v.clone())).collect())
}

#[test]
fn stop_reasons_parse_by_wire_name() {
    assert_eq!(parse_stop_reason("end_turn"), StopReason::EndTurn);
    assert_eq!(parse_stop_reason("max_tokens"), StopReason::MaxTokens);
    assert_eq!(parse_stop_reason("stop_sequence"), StopReason::StopSequence);
    assert_eq!(parse_stop_reason("tool_use"), StopReason::ToolUse);
    assert_eq!(parse_stop_reason("pause_turn"), StopReason::Other);
}

#[test]
fn credentials_prefer_a_non_empty_api_key() {
    assert!(matches!(AnthropicAuth::from_values(Some("k"), Some("t")), Some(AnthropicAuth::ApiKey(k)) if k == "k"));
    assert!(matches!(AnthropicAuth::from_values(Some(""), Some("t")), Some(AnthropicAuth::OAuthBearer(t)) if t == "t"));
    assert!(AnthropicAuth::from_values(None, Some("")).is_none());
    match AnthropicProvider::from_values(None, None) {
        Err(BellowsError::Config(m)) => {
            assert_eq!(m, "no Anthropic credentials found — set ANTHROPIC_API_KEY or CLAUDE_CODE_OAUTH_TOKEN")
        },
        _ => panic!("expected a configuration error"),
    }
    assert!(AnthropicProvider::from_values(Some("k"), None).is_ok());
}

#[test]
fn api_key_headers_for_a_buffered_request() {
    let p = AnthropicProvider::new(AnthropicAuth::ApiKey("sk".to_string()));
    let hs = p.request_headers(false);
    let expected: Vec<(String, String)> = vec![
        ("anthropic-version".into(), "2023-06-01".into()),
        ("content-type".into(), "application/json".into()),
        ("x-api-key".into(), "sk".into()),
    ];
    assert_eq!(hs, expected);
    assert_eq!(p.messages_url(), "https://api.anthropic.com/v1/messages");
}

#[test]
fn wire_message_orders_text_calls_then_results() {
    let m = Message {
        role: MsgRole::Tool,
        content: "see below".to_string(),
        tool_calls: vec![ToolCall { id: "c1".into(), name: "bash".into(), arguments: obj(&[]) }],
        tool_results: vec![ToolResult {
            call_id: "c1".into(),
            output: obj(&[("ok", JsonValue::Bool(true))]),
            is_error: true,
        }],
    };
    let w = message_to_wire(&m);
    assert_eq!(w.role, "user");
    assert_eq!(w.content.len(), 3);
    assert!(matches!(&w.content[0], AnthropicContentBlock::Text { text } if text == "see below"));
    assert!(matches!(&w.content[1], AnthropicContentBlock::ToolUse { id, name, .. } if id == "c1" && name == "bash"));
    match &w.content[2] {
        AnthropicContentBlock::ToolResult { tool_use_id, content, is_error } => {
            assert_eq!(tool_use_id, "c1");
            assert_eq!(content, "{\"ok\":true}");
            assert_eq!(*is_error, Some(true));
        },
        other => panic!("unexpected block {other:?}"),
    }
    let a = message_to_wire(&Message::assistant(""));
    assert_eq!(a.role, "assistant");
    assert!(a.content.is_empty());
}

#[test]
fn request_body_drops_system_messages_and_renders_the_role() {
    let messages = vec![
        Message { role: MsgRole::System, content: "sys".into(), tool_calls: vec![], tool_results: vec![] },
        Message::user("hi"),
    ];
    let role = Role::default().with_identity("Agent");
    let tools = vec![ToolSchema { name: "t".into(), description: "d".into(), parameters: obj(&[]) }];
    let stop = vec!["END".to_string()];
    let req = build_request_body("m", &messages, Some(&role), &tools, None, &stop, true);
    assert_eq!(req.model, "m");
    assert_eq!(req.max_tokens, 1024);
    assert_eq!(req.messages.len(), 1);
    assert_eq!(req.messages[0].role, "user");
    assert_eq!(req.system.as_deref(), Some("Agent"));
    assert_eq!(req.stop_sequences, stop);
    assert!(req.stream);
    assert_eq!(req.tools.len(), 1);
    assert_eq!(req.tools[0].str_member("name"), Some("t"));
    assert_eq!(req.tools[0].str_member("description"), Some("d"));
    let req = build_request_body("m", &[], None, &[], Some(64), &[], false);
    assert_eq!(req.max_tokens, 64);
    assert!(req.system.is_none());
}

#[test]
fn response_concatenates_text_and_collects_tool_calls() {
    let r = AnthropicMessageResponse {
        content: vec![
            AnthropicResponseBlock::Text { text: "a".into() },
            AnthropicResponseBlock::Unknown,
            AnthropicResponseBlock::ToolUse { id: "i".into(), name: "n".into(), input: obj(&[]) },
            AnthropicResponseBlock::Text { text: "b".into() },
        ],
        stop_reason: Some("tool_use".into()),
        usage: Some(AnthropicUsage { input_tokens: 4, output_tokens: 2, cache_read_input_tokens: None }),
    };
    let resp = r.into_response();
    assert_eq!(resp.message.role, MsgRole::Assistant);
    assert_eq!(resp.message.content, "ab");
    assert_eq!(resp.message.tool_calls.len(), 1);
    assert_eq!(resp.message.tool_calls[0].id, "i");
    assert_eq!(resp.stop_reason, StopReason::ToolUse);
    assert_eq!(resp.usage.unwrap().input_tokens, 4);
    let r = AnthropicMessageResponse { content: vec![], stop_reason: None, usage: None };
    let resp = r.into_response();
    assert_eq!(resp.stop_reason, StopReason::Other);
    assert!(resp.usage.is_none());
}

#[test]
fn transport_errors_chain_their_causes() {
    let e = transport_error(&["send failed".to_string(), "dns".to_string(), "timeout".to_string()]);
    assert!(matches!(e, BellowsError::Model(ref m) if m == "transport: send failed -> dns -> timeout"));
    let e = transport_error(&["x".to_string()]);
    assert!(matches!(e, BellowsError::Model(ref m) if m == "transport: x"));
    let e = model_error("decode", "bad json");
    assert_eq!(e.text(), "model provider error: decode: bad json");
}
