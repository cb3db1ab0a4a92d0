use bellows::role::{Role, RoleScope};

#[test]
fn merge_call_overrides_session_overrides_agent() {
    let agent = Role::default().with_identity("agent-id").with_instruction("agent-1");
    let session = Role::default().with_identity("session-id").with_instruction("session-1");
    let call = Role::default().with_identity("call-id").with_instruction("call-1");

    let merged = Role::merge(&agent, Some(&session), Some(&call));
    assert_eq!(merged.identity.as_deref(), Some("call-id"));
    assert_eq!(merged.scope, RoleScope::Call);
    // Instructions concatenate lowest-precedence first.
    assert_eq!(
        merged.instructions,
        vec!["agent-1".to_string(), "session-1".to_string(), "call-1".to_string(),],
    );
}

#[test]
fn merge_with_no_overlays_returns_agent_identity() {
    let agent = Role::default().with_identity("agent-only");
    let merged = Role::merge(&agent, None, None);
    assert_eq!(merged.identity.as_deref(), Some("agent-only"));
    assert_eq!(merged.scope, RoleScope::Agent);
}

#[test]
fn render_yields_none_for_empty_role() {
    assert!(Role::default().render().is_none());
}

#[test]
fn merge_falls_back_to_session_identity_when_call_has_none() {
    let agent = Role::default().with_identity("agent-id");
    let session = Role::default().with_identity("session-id");
    let call = Role::default().with_instruction("call-1");
    let merged = Role::merge(&agent, Some(&session), Some(&call));
    assert_eq!(merged.identity.as_deref(), Some("session-id"));
    assert_eq!(merged.instructions, vec!["call-1".to_string()]);
    assert_eq!(merged.scope, RoleScope::Call);
}

#[test]
fn merge_with_session_only_is_session_scoped() {
    let agent = Role::default().with_instruction("a");
    let session = Role::default().with_instruction("s");
    let merged = Role::merge(&agent, Some(&session), None);
    assert_eq!(merged.identity, None);
    assert_eq!(merged.instructions, vec!["a".to_string(), "s".to_string()]);
    assert_eq!(merged.scope, RoleScope::Session);
}

#[test]
fn render_puts_identity_then_blank_line_then_instructions() {
    let role = Role::default()
        .with_identity("Triage agent")
        .with_instruction("Be brief.")
        .with_instruction("Cite files.");
    assert_eq!(role.render().as_deref(), Some("Triage agent\n\nBe brief.\nCite files."));
}

#[test]
fn render_trims_trailing_white_space() {
    let role = Role::default().with_identity("only identity  ");
    assert_eq!(role.render().as_deref(), Some("only identity"));
    let role = Role::default().with_instruction("line");
    assert_eq!(role.render().as_deref(), Some("line"));
}

#[test]
fn default_scope_is_agent_and_with_scope_sets_it() {
    assert_eq!(RoleScope::default(), RoleScope::Agent);
    let r = Role::default().with_scope(RoleScope::Session);
    assert_eq!(r.scope, RoleScope::Session);
}
