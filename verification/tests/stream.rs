use bellows::json::JsonValue;
use bellows::message::{ToolCall, ToolResult};
use bellows::stream::{format_tool_label, tool_end_event, BufferSink, StreamEvent, StreamSink};

fn obj(pairs: &[(&str, JsonValue)]) -> JsonValue {
    JsonValue::Object(pairs.iter().map(|(k, v)| (k.to_string(), v.clone())).collect())
}

fn s(t: &str) -> JsonValue {
    JsonValue::String(t.to_string())
}

#[test]
fn label_fs_read_returns_path() {
    let label = format_tool_label("fs_read", &obj(&[("path", s("/etc/hosts"))]));
    assert_eq!(label, "/etc/hosts");
}

#[test]
fn label_fs_write_includes_byte_count() {
    let label = format_tool_label("fs_write", &obj(&[("path", s("/tmp/x")), ("content", s("hello"))]));
    assert_eq!(label, "/tmp/x (5B)");
}

#[test]
fn label_bash_truncates_long_commands() {
    let cmd = "echo ".repeat(40);
    let label = format_tool_label("bash", &obj(&[("cmd", s(&cmd))]));
    assert!(label.ends_with('…'));
}

#[test]
fn tool_end_event_marks_error_when_result_is_error() {
    let call = ToolCall { id: "id1".into(), name: "fs_read".into(), arguments: obj(&[]) };
    let result = ToolResult {
        call_id: "id1".into(),
        output: obj(&[("error", s("permission denied"))]),
        is_error: true,
    };
    match tool_end_event(0, &call, &result, false) {
        StreamEvent::ToolUseEnd { ok, denied, error, .. } => {
            assert!(!ok);
            assert!(!denied);
            assert_eq!(error.as_deref(), Some("permission denied"));
        },
        other => panic!("expected ToolUseEnd, got {other:?}"),
    }
}

#[test]
fn buffer_sink_collects_events_in_order() {
    let mut sink = BufferSink::new();
    sink.emit(StreamEvent::TurnStart { turn: 0 }).unwrap();
    sink.emit(StreamEvent::TextDelta { turn: 0, delta: "hi".into() }).unwrap();
    let snap = sink.snapshot();
    assert_eq!(snap.len(), 2);
    assert!(matches!(snap[0], StreamEvent::TurnStart { turn: 0 }));
    let all = sink.into_inner();
    assert!(matches!(&all[1], StreamEvent::TextDelta { delta, .. } if delta == "hi"));
}

#[test]
fn label_fs_list_without_path_says_so() {
    assert_eq!(format_tool_label("fs_list", &obj(&[])), "(no path)");
    assert_eq!(format_tool_label("fs_write", &obj(&[("content", s("abc"))])), "(no path, 3B)");
}

#[test]
fn label_counts_utf8_bytes_and_cuts_bash_at_80_bytes() {
    let label = format_tool_label("fs_write", &obj(&[("path", s("p")), ("content", s("é"))]));
    assert_eq!(label, "p (2B)");
    let cmd = "x".repeat(100);
    let label = format_tool_label("bash", &obj(&[("cmd", s(&cmd))]));
    assert_eq!(label, format!("{}…", "x".repeat(80)));
    let short = format_tool_label("bash", &obj(&[("cmd", s("ls -la"))]));
    assert_eq!(short, "ls -la");
}

#[test]
fn label_of_other_tools_is_compact_json_cut_at_80_chars() {
    let label = format_tool_label("web_fetch", &obj(&[("url", s("https://example.com"))]));
    assert_eq!(label, "{\"url\":\"https://example.com\"}");
    let long = "y".repeat(200);
    let label = format_tool_label("other", &obj(&[("k", s(&long))]));
    assert_eq!(label.chars().count(), 80);
    assert!(label.starts_with("{\"k\":\"yyy"));
}

#[test]
fn tool_end_event_without_error_member_uses_fixed_text() {
    let call = ToolCall { id: "c".into(), name: "bash".into(), arguments: obj(&[]) };
    let failed = ToolResult { call_id: "c".into(), output: obj(&[]), is_error: true };
    match tool_end_event(3, &call, &failed, true) {
        StreamEvent::ToolUseEnd { turn, id, name, ok, denied, error } => {
            assert_eq!(turn, 3);
            assert_eq!(id, "c");
            assert_eq!(name, "bash");
            assert!(!ok);
            assert!(denied);
            assert_eq!(error.as_deref(), Some("tool returned is_error=true"));
        },
        other => panic!("expected ToolUseEnd, got {other:?}"),
    }
    let fine = ToolResult { call_id: "c".into(), output: obj(&[]), is_error: false };
    match tool_end_event(1, &call, &fine, false) {
        StreamEvent::ToolUseEnd { ok, error, .. } => {
            assert!(ok);
            assert!(error.is_none());
        },
        other => panic!("expected ToolUseEnd, got {other:?}"),
    }
}

#[test]
fn tool_end_event_is_not_ok_when_the_call_was_denied() {
    let call = ToolCall { id: "c".into(), name: "bash".into(), arguments: obj(&[]) };
    let clean = ToolResult { call_id: "c".into(), output: obj(&[]), is_error: false };
    match tool_end_event(0, &call, &clean, true) {
        StreamEvent::ToolUseEnd { ok, denied, error, .. } => {
            assert!(!ok);
            assert!(denied);
            assert!(error.is_none());
        },
        other => panic!("expected ToolUseEnd, got {other:?}"),
    }
}
