use bellows::error::BellowsError;
use bellows::sandbox::{
    dir_entry, finished_result, saturated_millis, timed_out_result, ExecOpts, LocalSandbox,
    VirtualSandbox, DEFAULT_TIMEOUT_MS,
};

#[test]
fn local_paths_resolve_against_the_workspace() {
    let sb = LocalSandbox::new("/work");
    assert_eq!(sb.name(), "local");
    assert_eq!(sb.workspace(), "/work");
    assert_eq!(sb.resolve("a/b.txt").ok().as_deref(), Some("/work/a/b.txt"));
    assert_eq!(sb.resolve("/etc/hosts").ok().as_deref(), Some("/etc/hosts"));
    assert_eq!(LocalSandbox::new("/work/").resolve("x").ok().as_deref(), Some("/work/x"));
    assert_eq!(LocalSandbox::new("").resolve("x").ok().as_deref(), Some("x"));
    assert_eq!(sb.resolve("a/../b").ok().as_deref(), Some("/work/a/../b"));
    assert_eq!(sb.resolve("./a/./..").ok().as_deref(), Some("/work/./a/./.."));
    assert_eq!(sb.resolve("").ok().as_deref(), Some("/work/"));
}

#[test]
fn paths_that_climb_out_of_the_workspace_are_refused() {
    let sb = LocalSandbox::new("/w");
    for bad in ["../etc/passwd", "..", "a/../..", "a/b/../../../x", "./../x"] {
        match sb.resolve(bad) {
            Err(BellowsError::Sandbox(m)) => assert_eq!(m, format!("path escapes the workspace: {bad}")),
            other => panic!("expected {bad:?} to be refused, got {other:?}"),
        }
    }
    let opts = ExecOpts { cwd: Some("../..".into()), ..ExecOpts::default() };
    assert!(matches!(sb.plan_exec("ls", opts), Err(BellowsError::Sandbox(_))));
}

#[test]
fn exec_plans_run_sh_in_the_resolved_directory() {
    let sb = LocalSandbox::new("/work");
    let plan = sb.plan_exec("echo hi", ExecOpts::default()).ok().unwrap();
    assert_eq!(plan.program, "sh");
    assert_eq!(plan.args, vec!["-c".to_string(), "echo hi".to_string()]);
    assert_eq!(plan.cwd, "/work");
    assert!(plan.inherit_path);
    assert_eq!(plan.timeout_ms, DEFAULT_TIMEOUT_MS);
    let opts = ExecOpts {
        cwd: Some("sub".into()),
        env: vec![("K".into(), "V".into())],
        timeout_ms: Some(5),
        stdin: Some("in".into()),
    };
    let plan = sb.plan_exec("cat", opts).ok().unwrap();
    assert_eq!(plan.cwd, "/work/sub");
    assert!(!plan.inherit_path);
    assert_eq!(plan.env, vec![("K".to_string(), "V".to_string())]);
    assert_eq!(plan.timeout_ms, 5);
    assert_eq!(plan.stdin.as_deref(), Some("in"));
}

#[test]
fn timeouts_and_finished_runs_report_as_documented() {
    let r = timed_out_result(1500);
    assert_eq!(r.exit_code, None);
    assert_eq!(r.stdout, "");
    assert_eq!(r.stderr, "[bellows] killed: timeout after 1500ms");
    assert!(r.killed);
    assert_eq!(r.duration_ms, 1500);
    let r = finished_result(Some(2), b"out\n", &[0x66, 0xff], 42);
    assert_eq!(r.exit_code, Some(2));
    assert_eq!(r.stdout, "out\n");
    assert_eq!(r.stderr, "f\u{fffd}");
    assert!(!r.killed);
    assert_eq!(r.duration_ms, 42);
    assert_eq!(saturated_millis(u128::from(u64::MAX) + 1), u64::MAX);
}

#[test]
fn results_and_entries_as_json() {
    let r = finished_result(Some(-1), b"", b"e", 3);
    assert_eq!(
        r.to_json().to_compact_string(),
        "{\"duration_ms\":3,\"exit_code\":-1,\"killed\":false,\"stderr\":\"e\",\"stdout\":\"\"}"
    );
    let t = timed_out_result(1);
    assert!(t.to_json().to_compact_string().contains("\"exit_code\":null"));
    let d = dir_entry("/a".into(), true, 4096);
    assert_eq!(d.size, None);
    assert_eq!(d.to_json().to_compact_string(), "{\"is_dir\":true,\"path\":\"/a\"}");
    let f = dir_entry("/b".into(), false, 7);
    assert_eq!(f.to_json().to_compact_string(), "{\"is_dir\":false,\"path\":\"/b\",\"size\":7}");
}

#[test]
fn the_virtual_sandbox_refuses_commands() {
    let v = VirtualSandbox;
    assert_eq!(v.name(), "virtual");
    match v.exec("ls", ExecOpts::default()) {
        Err(BellowsError::Sandbox(m)) => {
            assert_eq!(m, "VirtualSandbox does not execute commands — use bellows-sandbox-local")
        },
        _ => panic!("expected a sandbox error"),
    }
}
