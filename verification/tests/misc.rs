use bellows::cli::{log_level, rustc_version_text};
use bellows::error::BellowsError;
use bellows::json::JsonValue;
use bellows::message::Message;
use bellows::mock::MockProvider;
use bellows::model::{ModelStreamEvent, StopReason};

#[test]
fn mock_provider_echoes_the_last_user_message() {
    let p = MockProvider;
    assert_eq!(p.id(), "mock");
    let msgs = vec![Message::user("first"), Message::user("second"), Message::assistant("reply")];
    let r = p.complete(&msgs);
    assert_eq!(r.message.content, "[mock echo] second");
    assert_eq!(r.stop_reason, StopReason::EndTurn);
    assert!(r.usage.is_none());
    assert_eq!(p.complete(&[]).message.content, "[mock echo] ");
    let evs = p.stream(&msgs);
    assert_eq!(evs.len(), 2);
    assert!(matches!(&evs[0], ModelStreamEvent::TextDelta { text } if text == "[mock echo] second"));
    assert!(matches!(&evs[1], ModelStreamEvent::EndTurn { stop_reason: StopReason::EndTurn, usage: None }));
}

#[test]
fn error_messages_read_as_documented() {
    assert_eq!(BellowsError::Model("x".into()).text(), "model provider error: x");
    assert_eq!(BellowsError::Sandbox("x".into()).text(), "sandbox error: x");
    assert_eq!(
        BellowsError::Tool { name: "bash".into(), reason: "bad".into() }.text(),
        "tool `bash` failed: bad"
    );
    assert_eq!(BellowsError::Skill("x".into()).text(), "skill error: x");
    assert_eq!(BellowsError::Session("x".into()).text(), "session error: x");
    assert_eq!(BellowsError::Config("x".into()).text(), "configuration error: x");
    assert_eq!(BellowsError::Workflow("x".into()).text(), "workflow error: x");
    assert_eq!(BellowsError::Serde("x".into()).text(), "serialization error: x");
    assert_eq!(BellowsError::Other("x".into()).text(), "x");
    let io = std::io::Error::new(std::io::ErrorKind::Other, "disk on fire");
    assert_eq!(BellowsError::Io(io).text(), "disk on fire");
}

#[test]
fn serde_errors_become_serde_variants() {
    let e = serde_json::from_str::<serde_json::Value>("[").unwrap_err();
    assert!(matches!(bellows::error::serde_error(e), BellowsError::Serde(_)));
}

#[test]
fn cli_levels_and_toolchain_text() {
    assert_eq!(log_level(0), "info");
    assert_eq!(log_level(1), "debug");
    assert_eq!(log_level(7), "trace");
    assert_eq!(rustc_version_text(Some("  rustc 1.85.0 (abc)\n")), "rustc 1.85.0 (abc)");
    assert_eq!(rustc_version_text(None), "unknown");
}

#[test]
fn json_members_and_numbers() {
    let v = JsonValue::Object(vec![
        ("a".to_string(), JsonValue::unsigned(1)),
        ("a".to_string(), JsonValue::unsigned(2)),
        ("s".to_string(), JsonValue::string("t")),
    ]);
    assert_eq!(v.get("a").and_then(|x| x.as_u64()), Some(1));
    assert_eq!(v.str_member("s"), Some("t"));
    assert_eq!(v.str_member("a"), None);
    assert!(v.get("zz").is_none());
    assert!(JsonValue::Null.get("a").is_none());
    assert_eq!(JsonValue::string("q\"").to_compact_string(), "\"q\\\"\"");
}
