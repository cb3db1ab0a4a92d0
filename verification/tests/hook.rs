use bellows::hook::{AllowDenyHook, Hook, HookRegistry, ToolHookOutcome, TracingHook};

#[test]
fn allow_list_passes_listed_tools() {
    let h = AllowDenyHook::allow_only(&["bash", "fs_read"]);
    let outcome = h.check_tool("fs_read");
    assert!(matches!(outcome, ToolHookOutcome::Continue));
}

#[test]
fn allow_list_denies_unlisted_tools() {
    let h = AllowDenyHook::allow_only(&["bash"]);
    let outcome = h.check_tool("fs_write");
    assert!(matches!(outcome, ToolHookOutcome::Deny(_)));
}

#[test]
fn deny_list_blocks_listed_tools() {
    let h = AllowDenyHook::deny_list(&["fs_write", "bash"]);
    let outcome = h.check_tool("bash");
    assert!(matches!(outcome, ToolHookOutcome::Deny(_)));
}

#[test]
fn registry_preserves_registration_order() {
    let mut reg: HookRegistry<Box<dyn Hook>> = HookRegistry::new();
    reg.register(Box::new(TracingHook));
    reg.register(Box::new(AllowDenyHook::deny_list(&["x"])));
    let names: Vec<&str> = reg.list().iter().map(|h| h.name()).collect();
    assert_eq!(names, vec!["tracing", "allow-deny"]);
}

#[test]
fn deny_list_lets_unlisted_tools_run() {
    let h = AllowDenyHook::deny_list(&["bash"]);
    assert!(matches!(h.check_tool("fs_read"), ToolHookOutcome::Continue));
}

#[test]
fn denial_carries_the_default_or_custom_reason() {
    let h = AllowDenyHook::allow_only(&["bash"]);
    match h.check_tool("fs_write") {
        ToolHookOutcome::Deny(r) => assert_eq!(r, "tool not on allow-list"),
        _ => panic!("expected a denial"),
    }
    let h = AllowDenyHook::deny_list(&["bash"]);
    match h.check_tool("bash") {
        ToolHookOutcome::Deny(r) => assert_eq!(r, "tool on deny-list"),
        _ => panic!("expected a denial"),
    }
    let h = AllowDenyHook::deny_list(&["bash"]).with_reason("no shell here");
    match h.check_tool("bash") {
        ToolHookOutcome::Deny(r) => assert_eq!(r, "no shell here"),
        _ => panic!("expected a denial"),
    }
}

#[test]
fn empty_allow_list_denies_everything() {
    let h = AllowDenyHook::allow_only(&[]);
    assert!(matches!(h.check_tool("bash"), ToolHookOutcome::Deny(_)));
    assert_eq!(h.name(), "allow-deny");
}

#[test]
fn registry_builder_and_emptiness() {
    let reg: HookRegistry<TracingHook> = HookRegistry::default();
    assert!(reg.is_empty());
    let reg = reg.with(TracingHook).with(TracingHook);
    assert!(!reg.is_empty());
    assert_eq!(reg.list().len(), 2);
}

#[test]
fn cloned_hook_decides_as_the_original() {
    let h = AllowDenyHook::deny_list(&["bash"]).with_reason("no shell");
    let c = h.clone();
    assert_eq!(c.name(), "allow-deny");
    assert_eq!(c.reason, "no shell");
    assert_eq!(c.deny, Some(vec!["bash".to_string()]));
    assert!(c.allow.is_none());
    match c.check_tool("bash") {
        ToolHookOutcome::Deny(r) => assert_eq!(r, "no shell"),
        _ => panic!("bash must be denied"),
    }
    assert!(matches!(c.check_tool("fs_read"), ToolHookOutcome::Continue));
}
