use bellows::model::StopReason;
use bellows::server::{
    agents_listing, error_payload, escape_for_textarea, health_payload, parse_u16, port_or_default,
    render_index, replace_text, stream_event_line, DEFAULT_PORT,
};
use bellows::stream::StreamEvent;

#[test]
fn escape_for_textarea_escapes_ampersand_then_angle() {
    assert_eq!(escape_for_textarea("{\"a\":\"<b> & c\"}"), "{\"a\":\"&lt;b> &amp; c\"}");
    assert_eq!(escape_for_textarea("&lt;"), "&amp;lt;");
    assert_eq!(escape_for_textarea("plain"), "plain");
}

#[test]
fn replace_is_left_to_right_without_overlap() {
    assert_eq!(replace_text("aaaa", "aa", "b"), "bb");
    assert_eq!(replace_text("abcabc", "bc", "X"), "aXaX");
    assert_eq!(replace_text("", "x", "y"), "");
}

#[test]
fn index_page_fills_its_placeholders() {
    let page = render_index(
        "<h1>{{AGENT_NAME}}</h1><textarea>{{EXAMPLE_INPUT}}</textarea>v{{VERSION}} {{AGENT_NAME}}",
        "triage",
        "{\"x\":\"<&>\"}",
        "0.1.0",
    );
    assert_eq!(page, "<h1>triage</h1><textarea>{\"x\":\"&lt;&amp;>\"}</textarea>v0.1.0 triage");
}

#[test]
fn sse_lines_are_compact_json_with_sorted_keys() {
    let line = stream_event_line(&StreamEvent::TurnStart { turn: 2 });
    assert_eq!(line, "{\"turn\":2,\"type\":\"turn_start\"}");
    let line = stream_event_line(&StreamEvent::Done {
        turns: 1,
        stop_reason: StopReason::EndTurn,
        session_id: "s".into(),
    });
    assert_eq!(line, "{\"session_id\":\"s\",\"stop_reason\":\"end_turn\",\"tools\":[],\"turns\":1,\"type\":\"done\"}");
    let line = stream_event_line(&StreamEvent::ToolUseEnd {
        turn: 0,
        id: "i".into(),
        name: "bash".into(),
        ok: false,
        denied: true,
        error: Some("no".into()),
    });
    assert_eq!(
        line,
        "{\"denied\":true,\"error\":\"no\",\"id\":\"i\",\"name\":\"bash\",\"ok\":false,\"turn\":0,\"type\":\"tool_use_end\"}"
    );
    let line = stream_event_line(&StreamEvent::Error { message: "boom".into() });
    assert_eq!(line, "{\"message\":\"boom\",\"type\":\"error\"}");
}

#[test]
fn tool_use_end_without_error_has_no_error_member() {
    let line = stream_event_line(&StreamEvent::ToolUseEnd {
        turn: 0,
        id: "i".into(),
        name: "n".into(),
        ok: true,
        denied: false,
        error: None,
    });
    assert!(!line.contains("error"));
}

#[test]
fn small_endpoint_bodies() {
    assert_eq!(health_payload().to_compact_string(), "{\"service\":\"bellows\",\"status\":\"ok\"}");
    assert_eq!(
        agents_listing("triage").to_compact_string(),
        "{\"agents\":[{\"endpoint\":\"/v1/agents/triage\",\"name\":\"triage\"}]}"
    );
    assert_eq!(error_payload("invalid input: x").to_compact_string(), "{\"error\":\"invalid input: x\"}");
}

#[test]
fn port_comes_from_the_environment_when_it_parses() {
    assert_eq!(DEFAULT_PORT, 3548);
    assert_eq!(port_or_default(None), 3548);
    assert_eq!(port_or_default(Some("8080")), 8080);
    assert_eq!(port_or_default(Some("+80")), 80);
    assert_eq!(port_or_default(Some("65536")), 3548);
    assert_eq!(port_or_default(Some(" 80")), 3548);
    assert_eq!(port_or_default(Some("")), 3548);
    assert_eq!(parse_u16("65535"), Some(65535));
    assert_eq!(parse_u16("0042"), Some(42));
    assert_eq!(parse_u16("+"), None);
    assert_eq!(parse_u16("99999999999"), None);
}

#[test]
fn replace_with_an_empty_pattern_surrounds_every_character() {
    assert_eq!(replace_text("abc", "", "X"), "abc".replace("", "X"));
    assert_eq!(replace_text("abc", "", "X"), "XaXbXcX");
    assert_eq!(replace_text("", "", "X"), "X");
    assert_eq!(replace_text("héé", "", "-"), "-h-é-é-");
}
