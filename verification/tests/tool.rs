use bellows::error::BellowsError;
use bellows::json::JsonValue;
use bellows::sandbox::dir_entry;
use bellows::tool::{BashTool, FsListTool, FsReadTool, FsWriteTool, SimpleRegistry, Tool};

fn obj(pairs: &[(&str, JsonValue)]) -> JsonValue {
    JsonValue::Object(pairs.iter().map(|(k, v)| (k.to_string(), v.clone())).collect())
}

fn s(t: &str) -> JsonValue {
    JsonValue::String(t.to_string())
}

#[test]
fn builtin_schemas() {
    let b = BashTool.schema();
    assert_eq!(b.name, "bash");
    assert_eq!(b.description, "Execute a shell command in the agent's sandbox and return stdout/stderr.");
    assert_eq!(
        b.parameters.to_compact_string(),
        "{\"properties\":{\"cmd\":{\"description\":\"Shell command to run.\",\"type\":\"string\"},\"cwd\":{\"description\":\"Optional working directory (relative to workspace).\",\"type\":\"string\"},\"timeout_ms\":{\"minimum\":0,\"type\":\"integer\"}},\"required\":[\"cmd\"],\"type\":\"object\"}"
    );
    assert_eq!(
        FsReadTool.schema().parameters.to_compact_string(),
        "{\"properties\":{\"path\":{\"type\":\"string\"}},\"required\":[\"path\"],\"type\":\"object\"}"
    );
    assert_eq!(FsListTool.schema().name, "fs_list");
    let w = FsWriteTool.schema();
    assert_eq!(w.name, "fs_write");
    assert_eq!(
        w.parameters.to_compact_string(),
        "{\"properties\":{\"content\":{\"type\":\"string\"},\"path\":{\"type\":\"string\"}},\"required\":[\"path\",\"content\"],\"type\":\"object\"}"
    );
}

#[test]
fn bash_requires_cmd_and_passes_options() {
    match BashTool.request(&obj(&[])) {
        Err(BellowsError::Tool { name, reason }) => {
            assert_eq!(name, "bash");
            assert_eq!(reason, "missing required `cmd` argument");
        },
        _ => panic!("expected a tool error"),
    }
    let (cmd, opts) = BashTool
        .request(&obj(&[("cmd", s("ls")), ("cwd", s("src")), ("timeout_ms", JsonValue::unsigned(250))]))
        .ok()
        .unwrap();
    assert_eq!(cmd, "ls");
    assert_eq!(opts.cwd.as_deref(), Some("src"));
    assert_eq!(opts.timeout_ms, Some(250));
    assert!(opts.env.is_empty());
    assert!(opts.stdin.is_none());
    let (_, opts) = BashTool.request(&obj(&[("cmd", s("ls")), ("cwd", JsonValue::Bool(true))])).ok().unwrap();
    assert!(opts.cwd.is_none());
}

#[test]
fn file_tools_take_their_arguments_in_order() {
    assert_eq!(FsReadTool.path(&obj(&[("path", s("/x"))])).ok(), Some("/x"));
    assert!(matches!(FsListTool.path(&obj(&[])), Err(BellowsError::Tool { name, .. }) if name == "fs_list"));
    match FsWriteTool.arguments(&obj(&[("content", s("c"))])) {
        Err(BellowsError::Tool { reason, .. }) => assert_eq!(reason, "missing required `path` argument"),
        _ => panic!("expected a tool error"),
    }
    match FsWriteTool.arguments(&obj(&[("path", s("p"))])) {
        Err(BellowsError::Tool { reason, .. }) => assert_eq!(reason, "missing required `content` argument"),
        _ => panic!("expected a tool error"),
    }
    assert_eq!(FsWriteTool.arguments(&obj(&[("path", s("p")), ("content", s("c"))])).ok(), Some(("p", "c")));
}

#[test]
fn file_tool_results() {
    assert_eq!(
        FsReadTool.output("/f", b"hi\xff").to_compact_string(),
        "{\"content\":\"hi\u{fffd}\",\"path\":\"/f\"}"
    );
    assert_eq!(FsWriteTool.output("/f", "héllo").to_compact_string(), "{\"path\":\"/f\",\"written\":6}");
    let entries = vec![dir_entry("/d/a".into(), false, 1), dir_entry("/d/b".into(), true, 0)];
    assert_eq!(
        FsListTool.output("/d", &entries).to_compact_string(),
        "{\"entries\":[{\"is_dir\":false,\"path\":\"/d/a\",\"size\":1},{\"is_dir\":true,\"path\":\"/d/b\"}],\"path\":\"/d\"}"
    );
}

#[test]
fn registry_resolves_the_first_tool_of_a_name() {
    let reg: SimpleRegistry<BashTool> = SimpleRegistry::new().with(BashTool);
    assert!(reg.get("bash").is_some());
    assert!(reg.get("fs_read").is_none());
    assert_eq!(reg.list().len(), 1);
    let mut reg2: SimpleRegistry<FsReadTool> = SimpleRegistry::default();
    reg2.register(FsReadTool);
    assert!(reg2.get("fs_read").is_some());
}

#[test]
fn registry_finds_tools_by_the_names_they_were_registered_under() {
    let mut reg: SimpleRegistry<u32> = SimpleRegistry::new();
    reg.register_as("first".to_string(), 1);
    reg.register_as("second".to_string(), 2);
    reg.register_as("first".to_string(), 3);
    assert_eq!(reg.get("first"), Some(&1));
    assert_eq!(reg.get("second"), Some(&2));
    assert_eq!(reg.get("third"), None);
    assert_eq!(reg.list(), vec![&1, &2, &3]);
}

#[test]
fn registering_a_builtin_tool_uses_its_schema_name() {
    let mut bash: SimpleRegistry<BashTool> = SimpleRegistry::new();
    bash.register(BashTool);
    assert!(bash.get("bash").is_some());
    assert!(bash.get("fs_list").is_none());
    let list: SimpleRegistry<FsListTool> = SimpleRegistry::new().with(FsListTool);
    assert!(list.get("fs_list").is_some());
    let write: SimpleRegistry<FsWriteTool> = SimpleRegistry::new().with(FsWriteTool);
    assert!(write.get("fs_write").is_some());
    assert!(write.get("bash").is_none());
}
