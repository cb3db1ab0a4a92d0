//! Tool execution environments: the options and results of a command, the
//! entries of a directory listing, the in-process "virtual" sandbox, and the
//! decisions of the local subprocess sandbox (where a path resolves, how a
//! command is launched, what a timed-out or finished run reports). The
//! processes and files themselves are handled outside this crate.

use vstd::prelude::*;
use vstd::utf8::{decode_utf8, valid_utf8};

use crate::error::BellowsError;
use crate::json::{push_member, JsonNumber, JsonValue, JsonView, NumberView};
use crate::role::{clone_opt_string, opt_string_view};
use crate::text::{append_str, chars_of, decimal, decimal_string};

verus! {

/// Default per-call timeout of the local sandbox, in milliseconds.
pub const DEFAULT_TIMEOUT_MS: u64 = 30000;

/// Options of one `exec` call.
#[derive(Debug)]
pub struct ExecOpts {
    /// Working directory for the process; `None` is the sandbox default.
    pub cwd: Option<String>,
    /// Environment variables to inject.
    pub env: Vec<(String, String)>,
    /// Hard timeout in milliseconds; `None` is the sandbox default.
    pub timeout_ms: Option<u64>,
    /// Optional stdin payload.
    pub stdin: Option<String>,
}

pub struct ExecOptsView {
    pub cwd: Option<Seq<char>>,
    pub env: Seq<(Seq<char>, Seq<char>)>,
    pub timeout_ms: Option<u64>,
    pub stdin: Option<Seq<char>>,
}

pub open spec fn pairs_view(v: Seq<(String, String)>) -> Seq<(Seq<char>, Seq<char>)> {
    v.map_values(|p: (String, String)| (p.0@, p.1@))
}

impl View for ExecOpts {
    type V = ExecOptsView;

    open spec fn view(&self) -> ExecOptsView {
        ExecOptsView {
            cwd: opt_string_view(self.cwd),
            env: pairs_view(self.env@),
            timeout_ms: self.timeout_ms,
            stdin: opt_string_view(self.stdin),
        }
    }
}

impl Default for ExecOpts {
    fn default() -> (o: Self)
        ensures
            o@ == (ExecOptsView { cwd: None, env: Seq::empty(), timeout_ms: None, stdin: None }),
    {
        let o = ExecOpts { cwd: None, env: Vec::new(), timeout_ms: None, stdin: None };
        assert(o@.env =~= Seq::<(Seq<char>, Seq<char>)>::empty());
        o
    }
}

/// Result of an `exec` call.
#[derive(Debug)]
pub struct ExecResult {
    /// Exit status; `None` when the process was killed before it exited.
    pub exit_code: Option<i32>,
    /// Captured stdout.
    pub stdout: String,
    /// Captured stderr.
    pub stderr: String,
    /// True when the sandbox terminated the process (timeout, ...).
    pub killed: bool,
    /// Wall-clock duration in milliseconds.
    pub duration_ms: u64,
}

pub struct ExecResultView {
    pub exit_code: Option<i32>,
    pub stdout: Seq<char>,
    pub stderr: Seq<char>,
    pub killed: bool,
    pub duration_ms: u64,
}

impl View for ExecResult {
    type V = ExecResultView;

    open spec fn view(&self) -> ExecResultView {
        ExecResultView {
            exit_code: self.exit_code,
            stdout: self.stdout@,
            stderr: self.stderr@,
            killed: self.killed,
            duration_ms: self.duration_ms,
        }
    }
}

impl Clone for ExecResult {
    fn clone(&self) -> (r: Self)
        ensures
            r@ == self@,
    {
        ExecResult {
            exit_code: self.exit_code,
            stdout: self.stdout.clone(),
            stderr: self.stderr.clone(),
            killed: self.killed,
            duration_ms: self.duration_ms,
        }
    }
}

/// One entry of a directory listing.
#[derive(Debug)]
pub struct DirEntry {
    /// Path of the entry.
    pub path: String,
    /// `true` if the entry is a directory.
    pub is_dir: bool,
    /// Size in bytes for files; `None` for directories.
    pub size: Option<u64>,
}

pub struct DirEntryView {
    pub path: Seq<char>,
    pub is_dir: bool,
    pub size: Option<u64>,
}

impl View for DirEntry {
    type V = DirEntryView;

    open spec fn view(&self) -> DirEntryView {
        DirEntryView { path: self.path@, is_dir: self.is_dir, size: self.size }
    }
}

impl Clone for DirEntry {
    fn clone(&self) -> (r: Self)
        ensures
            r@ == self@,
    {
        DirEntry { path: self.path.clone(), is_dir: self.is_dir, size: self.size }
    }
}

/// The listing entry for a path: directories carry no size, files carry
/// their length.
pub fn dir_entry(path: String, is_dir: bool, len: u64) -> (e: DirEntry)
    ensures
        e@ == (DirEntryView {
            path: path@,
            is_dir,
            size: if is_dir {
                None
            } else {
                Some(len)
            },
        }),
{
    DirEntry {
        path,
        is_dir,
        size: if is_dir {
            None
        } else {
            Some(len)
        },
    }
}

// ── JSON shapes ─────────────────────────────────────────────────────────────

/// A signed 32-bit integer as a JSON number.
pub open spec fn int_view(n: i32) -> JsonView {
    if n >= 0 {
        JsonView::Number(NumberView::PosInt(n as u64))
    } else {
        JsonView::Number(NumberView::NegInt(n as i64))
    }
}

/// The JSON object of an exec result, field by field.
pub open spec fn exec_result_json(r: ExecResultView) -> JsonView {
    JsonView::Object(
        seq![
            (
                "exit_code"@,
                match r.exit_code {
                    Some(c) => int_view(c),
                    None => JsonView::Null,
                },
            ),
            ("stdout"@, JsonView::Str(r.stdout)),
            ("stderr"@, JsonView::Str(r.stderr)),
            ("killed"@, JsonView::Bool(r.killed)),
            ("duration_ms"@, JsonView::Number(NumberView::PosInt(r.duration_ms))),
        ],
    )
}

/// The JSON object of a listing entry; a missing size is left out.
pub open spec fn dir_entry_json(e: DirEntryView) -> JsonView {
    let base = seq![("path"@, JsonView::Str(e.path)), ("is_dir"@, JsonView::Bool(e.is_dir))];
    JsonView::Object(
        match e.size {
            Some(n) => base.push(("size"@, JsonView::Number(NumberView::PosInt(n)))),
            None => base,
        },
    )
}

fn int_value(n: i32) -> (v: JsonValue)
    ensures
        v@ == int_view(n),
{
    if n >= 0 {
        JsonValue::Number(JsonNumber::PosInt(n as u64))
    } else {
        JsonValue::Number(JsonNumber::NegInt(n as i64))
    }
}

impl ExecResult {
    /// The result as a JSON object.
    pub fn to_json(&self) -> (v: JsonValue)
        ensures
            v@ == exec_result_json(self@),
    {
        let mut e: Vec<(String, JsonValue)> = Vec::new();
        let code = match self.exit_code {
            Some(c) => int_value(c),
            None => JsonValue::Null,
        };
        push_member(&mut e, "exit_code", code);
        push_member(&mut e, "stdout", JsonValue::String(self.stdout.clone()));
        push_member(&mut e, "stderr", JsonValue::String(self.stderr.clone()));
        push_member(&mut e, "killed", JsonValue::Bool(self.killed));
        push_member(&mut e, "duration_ms", JsonValue::unsigned(self.duration_ms));
        let v = JsonValue::Object(e);
        proof {
            match exec_result_json(self@) {
                JsonView::Object(m) => assert(crate::json::entry_views(e@) =~= m),
                _ => {},
            }
        }
        v
    }
}

impl DirEntry {
    /// The entry as a JSON object.
    pub fn to_json(&self) -> (v: JsonValue)
        ensures
            v@ == dir_entry_json(self@),
    {
        let mut e: Vec<(String, JsonValue)> = Vec::new();
        push_member(&mut e, "path", JsonValue::String(self.path.clone()));
        push_member(&mut e, "is_dir", JsonValue::Bool(self.is_dir));
        match self.size {
            Some(n) => push_member(&mut e, "size", JsonValue::unsigned(n)),
            None => {},
        }
        let v = JsonValue::Object(e);
        proof {
            match dir_entry_json(self@) {
                JsonView::Object(m) => assert(crate::json::entry_views(e@) =~= m),
                _ => {},
            }
        }
        v
    }
}

// ── The virtual sandbox ─────────────────────────────────────────────────────

/// In-process "virtual" sandbox: no isolation, and no command execution.
/// Files are read and written on the host as they are.
#[derive(Debug, Default, Clone, Copy)]
pub struct VirtualSandbox;

impl VirtualSandbox {
    /// The sandbox's name.
    pub fn name(&self) -> (n: &'static str)
        ensures
            n@ == "virtual"@,
    {
        "virtual"
    }

    /// Commands are refused: the virtual sandbox does not execute them.
    pub fn exec(&self, cmd: &str, opts: ExecOpts) -> (r: Result<ExecResult, BellowsError>)
        ensures
            r matches Err(BellowsError::Sandbox(m)) && m@
                == "VirtualSandbox does not execute commands — use bellows-sandbox-local"@,
    {
        Err(
            BellowsError::Sandbox(
                "VirtualSandbox does not execute commands — use bellows-sandbox-local".to_owned(),
            ),
        )
    }
}

// ── The local sandbox ───────────────────────────────────────────────────────

/// Whether a path is absolute (on Unix: it starts at the root).
pub open spec fn is_absolute(p: Seq<char>) -> bool {
    p.len() > 0 && p[0] == '/'
}

/// `base` joined with `p` (`Path::join`): an absolute `p` replaces `base`;
/// otherwise `p` is appended after a separator, unless `base` is empty or
/// already ends with one.
pub open spec fn joined_path(base: Seq<char>, p: Seq<char>) -> Seq<char> {
    if is_absolute(p) {
        p
    } else if base.len() == 0 || base.last() == '/' {
        base + p
    } else {
        base + seq!['/'] + p
    }
}

/// Joining keeps an absolute path as it is; a relative one comes after the
/// whole base, with exactly one separator between them when the base is
/// not empty and does not already end with one.
pub proof fn lemma_joined_path_shape(base: Seq<char>, p: Seq<char>)
    ensures
        is_absolute(p) ==> joined_path(base, p) == p,
        !is_absolute(p) ==> {
            let j = joined_path(base, p);
            let sep: int = if base.len() == 0 || base.last() == '/' { 0 } else { 1 };
            &&& j.len() == base.len() + sep + p.len()
            &&& j.take(base.len() as int) == base
            &&& j.skip(base.len() + sep) == p
            &&& (sep == 1 ==> j[base.len() as int] == '/')
        },
{
    if !is_absolute(p) {
        let j = joined_path(base, p);
        if base.len() == 0 || base.last() == '/' {
            assert(j.take(base.len() as int) =~= base);
            assert(j.skip(base.len() as int) =~= p);
        } else {
            assert(j.take(base.len() as int) =~= base);
            assert(j.skip(base.len() + 1int) =~= p);
        }
    }
}

/// The length of the first segment of `s`: the characters before its
/// first `/`.
pub open spec fn segment_len(s: Seq<char>) -> nat
    decreases s.len(),
{
    if s.len() == 0 || s[0] == '/' {
        0
    } else {
        1 + segment_len(s.drop_first())
    }
}

/// How one path segment moves relative to where it starts: `..` climbs one
/// level, an empty segment or `.` stays, any other name descends one.
pub open spec fn segment_step(seg: Seq<char>) -> int {
    if seg == ".."@ {
        -1
    } else if seg.len() == 0 || seg == "."@ {
        0
    } else {
        1
    }
}

/// Whether walking the segments of the relative path `s` from left to
/// right, starting `depth` levels below the workspace, ever climbs above
/// the workspace. A path that never does stays, once `.` and `..` are
/// resolved lexically, inside the workspace.
pub open spec fn climbs_out(s: Seq<char>, depth: int) -> bool
    decreases s.len(),
{
    let k = segment_len(s);
    let d = depth + segment_step(s.take(k as int));
    if d < 0 {
        true
    } else if k >= s.len() {
        false
    } else {
        climbs_out(s.skip(k + 1int), d)
    }
}

/// Whether the sandbox refuses `path`: a relative path that climbs above
/// the workspace. Absolute paths are taken as they are.
pub open spec fn escapes_workspace(path: Seq<char>) -> bool {
    !is_absolute(path) && climbs_out(path, 0)
}

/// The message of the error for a path that leaves the workspace.
pub open spec fn escape_text(path: Seq<char>) -> Seq<char> {
    "path escapes the workspace: "@ + path
}

/// The lexical normalisation of the relative path `s` below the directories
/// `stack`: `.` and empty segments are dropped, `..` removes the last
/// directory, and any other name is added. `None` when a `..` would leave
/// the starting directory.
pub open spec fn lexical(s: Seq<char>, stack: Seq<Seq<char>>) -> Option<Seq<Seq<char>>>
    decreases s.len(),
{
    let k = segment_len(s);
    let seg = s.take(k as int);
    let next = if seg == ".."@ {
        if stack.len() == 0 {
            None
        } else {
            Some(stack.drop_last())
        }
    } else if seg.len() == 0 || seg == "."@ {
        Some(stack)
    } else {
        Some(stack.push(seg))
    };
    match next {
        None => None,
        Some(st) => if k >= s.len() {
            Some(st)
        } else {
            lexical(s.skip(k + 1int), st)
        },
    }
}

proof fn lemma_climbs_is_lexical_failure(s: Seq<char>, stack: Seq<Seq<char>>)
    ensures
        climbs_out(s, stack.len() as int) <==> lexical(s, stack) is None,
    decreases s.len(),
{
    let k = segment_len(s);
    let seg = s.take(k as int);
    if seg == ".."@ {
        if stack.len() > 0 && k < s.len() {
            lemma_climbs_is_lexical_failure(s.skip(k + 1int), stack.drop_last());
        }
    } else if seg.len() == 0 || seg == "."@ {
        if k < s.len() {
            lemma_climbs_is_lexical_failure(s.skip(k + 1int), stack);
        }
    } else {
        if k < s.len() {
            lemma_climbs_is_lexical_failure(s.skip(k + 1int), stack.push(seg));
        }
    }
}

/// The jail: a relative path is refused exactly when its lexical
/// normalisation would leave the workspace; every path that is accepted
/// normalises to a list of directories below the workspace.
pub proof fn lemma_accepted_paths_stay_inside(path: Seq<char>)
    requires
        !is_absolute(path),
    ensures
        escapes_workspace(path) <==> lexical(path, Seq::empty()) is None,
{
    lemma_climbs_is_lexical_failure(path, Seq::empty());
}

/// Whether the relative path `c` climbs above its starting directory.
fn climbs_out_of(c: &Vec<char>) -> (b: bool)
    ensures
        b == climbs_out(c@, 0),
{
    let n = c.len();
    let mut start: usize = 0;
    let mut depth: usize = 0;
    assert(c@.skip(0) =~= c@);
    loop
        invariant
            n == c.len(),
            start <= n,
            depth <= start,
            climbs_out(c@, 0) == climbs_out(c@.skip(start as int), depth as int),
        decreases n - start,
    {
        let mut e = start;
        while e < n && c[e] != '/'
            invariant
                n == c.len(),
                start <= e <= n,
                segment_len(c@.skip(start as int)) == (e - start) + segment_len(c@.skip(e as int)),
            decreases n - e,
        {
            assert(c@.skip(e as int).drop_first() =~= c@.skip(e + 1));
            e = e + 1;
        }
        let k = e - start;
        proof {
            reveal_strlit("..");
            reveal_strlit(".");
            if e < n {
                assert(c@.skip(e as int)[0] == c@[e as int]);
            } else {
                assert(c@.skip(e as int).len() == 0);
            }
            assert(segment_len(c@.skip(start as int)) == k);
        }
        let ghost seg = c@.skip(start as int).take(k as int);
        assert(seg =~= c@.subrange(start as int, e as int));
        let dotdot = k == 2 && c[start] == '.' && c[start + 1] == '.';
        let stay = k == 0 || (k == 1 && c[start] == '.');
        proof {
            if dotdot {
                assert(seg =~= ".."@);
            } else if seg == ".."@ {
                assert(seg[0] == '.' && seg[1] == '.');
            }
            if k == 1 && c@[start as int] == '.' {
                assert(seg =~= "."@);
            } else if seg == "."@ {
                assert(seg[0] == '.');
            }
        }
        if dotdot {
            if depth == 0 {
                return true;
            }
            depth = depth - 1;
        } else if !stay {
            depth = depth + 1;
        }
        if e >= n {
            return false;
        }
        assert(c@.skip(start as int).skip(k + 1) =~= c@.skip(e + 1));
        start = e + 1;
    }
}

/// Subprocess sandbox rooted at a workspace directory. No isolation beyond
/// the working directory and the environment.
#[derive(Debug)]
pub struct LocalSandbox {
    workspace: String,
    name: String,
}

/// How a command is launched: `sh -c <cmd>` in `cwd`, with exactly the
/// variables of `env`, plus the parent's `PATH` when `inherit_path`, with
/// `stdin` written to it, and killed after `timeout_ms`.
#[derive(Debug)]
pub struct ExecPlan {
    pub program: String,
    pub args: Vec<String>,
    pub cwd: String,
    pub env: Vec<(String, String)>,
    pub inherit_path: bool,
    pub stdin: Option<String>,
    pub timeout_ms: u64,
}

pub open spec fn strings_of(v: Seq<String>) -> Seq<Seq<char>> {
    v.map_values(|s: String| s@)
}

/// What a plan for `cmd` under `opts` holds: `sh -c <cmd>`, in `opts.cwd`
/// joined to the workspace (the workspace itself when absent), with
/// exactly the given variables, the parent's `PATH` when none is given, the
/// given stdin, and the given timeout or the default one.
pub open spec fn plan_for(sb: LocalSandbox, cmd: Seq<char>, opts: ExecOptsView, p: ExecPlan) -> bool {
    &&& p.program@ == "sh"@
    &&& strings_of(p.args@) == seq!["-c"@, cmd]
    &&& p.cwd@ == match opts.cwd {
        Some(c) => joined_path(sb.workspace_spec(), c),
        None => sb.workspace_spec(),
    }
    &&& pairs_view(p.env@) == opts.env
    &&& p.inherit_path == (opts.env.len() == 0)
    &&& opt_string_view(p.stdin) == opts.stdin
    &&& p.timeout_ms == match opts.timeout_ms {
        Some(t) => t,
        None => DEFAULT_TIMEOUT_MS,
    }
}

impl LocalSandbox {
    pub closed spec fn workspace_spec(self) -> Seq<char> {
        self.workspace@
    }

    pub closed spec fn name_spec(self) -> Seq<char> {
        self.name@
    }

    /// A sandbox rooted at `workspace`, named `local`.
    pub fn new(workspace: &str) -> (s: Self)
        ensures
            s.workspace_spec() == workspace@,
            s.name_spec() == "local"@,
    {
        LocalSandbox { workspace: workspace.to_owned(), name: "local".to_owned() }
    }

    /// The sandbox's name.
    pub fn name(&self) -> (n: &str)
        ensures
            n@ == self.name_spec(),
    {
        self.name.as_str()
    }

    /// The workspace directory.
    pub fn workspace(&self) -> (w: &str)
        ensures
            w@ == self.workspace_spec(),
    {
        self.workspace.as_str()
    }

    /// Resolve `path` relative to the workspace. A relative path resolves
    /// under the workspace root; one that climbs above it (through `..`)
    /// is refused with a `Sandbox` error. An absolute path is taken as it
    /// is.
    pub fn resolve(&self, path: &str) -> (r: Result<String, BellowsError>)
        ensures
            if escapes_workspace(path@) {
                r matches Err(BellowsError::Sandbox(m)) && m@ == escape_text(path@)
            } else {
                r matches Ok(s) && s@ == joined_path(self.workspace_spec(), path@)
            },
    {
        let p = chars_of(path);
        if p.len() > 0 && p[0] == '/' {
            return Ok(path.to_owned());
        }
        if climbs_out_of(&p) {
            let mut m = "path escapes the workspace: ".to_owned();
            append_str(&mut m, path);
            return Err(BellowsError::Sandbox(m));
        }
        let w = chars_of(self.workspace.as_str());
        let mut out = self.workspace.clone();
        if !(w.len() == 0 || w[w.len() - 1] == '/') {
            append_str(&mut out, "/");
            proof {
                reveal_strlit("/");
            }
        }
        append_str(&mut out, path);
        Ok(out)
    }

    /// How `cmd` is launched under `opts`: in `opts.cwd` resolved against
    /// the workspace (the workspace itself when absent), with only the
    /// given variables (and `PATH`, when none is given), killed after
    /// `opts.timeout_ms` or [`DEFAULT_TIMEOUT_MS`]. A working directory
    /// that leaves the workspace is refused as [`LocalSandbox::resolve`]
    /// refuses it.
    pub fn plan_exec(&self, cmd: &str, opts: ExecOpts) -> (r: Result<ExecPlan, BellowsError>)
        ensures
            if opts@.cwd is Some && escapes_workspace(opts@.cwd->0) {
                r matches Err(BellowsError::Sandbox(m)) && m@ == escape_text(opts@.cwd->0)
            } else {
                r matches Ok(p) && plan_for(*self, cmd@, opts@, p)
            },
    {
        let cwd = match &opts.cwd {
            Some(c) => match self.resolve(c.as_str()) {
                Ok(d) => d,
                Err(e) => return Err(e),
            },
            None => self.workspace.clone(),
        };
        let mut args: Vec<String> = Vec::new();
        args.push("-c".to_owned());
        args.push(cmd.to_owned());
        assert(strings_of(args@) =~= seq!["-c"@, cmd@]);
        let inherit_path = opts.env.len() == 0;
        let timeout_ms = match opts.timeout_ms {
            Some(t) => t,
            None => DEFAULT_TIMEOUT_MS,
        };
        Ok(
            ExecPlan {
                program: "sh".to_owned(),
                args,
                cwd,
                env: opts.env,
                inherit_path,
                stdin: opts.stdin,
                timeout_ms,
            },
        )
    }
}

/// A planned command is `sh -c <cmd>`; it gets every variable of the
/// options, in order, and nothing else; the parent's `PATH` is passed on
/// only when no variable is given; it runs in the workspace unless a
/// directory is given; and it gets the given stdin and the given timeout,
/// 30 seconds by default.
pub proof fn lemma_plan_env_is_opts_env(sb: LocalSandbox, cmd: Seq<char>, opts: ExecOptsView, p: ExecPlan)
    requires
        plan_for(sb, cmd, opts, p),
    ensures
        p.program@ == "sh"@,
        p.args@.len() == 2 && p.args@[0]@ == "-c"@ && p.args@[1]@ == cmd,
        opts.cwd is None ==> p.cwd@ == sb.workspace_spec(),
        opts.timeout_ms matches Some(t) ==> p.timeout_ms == t,
        opts.timeout_ms is None ==> p.timeout_ms == 30000,
        opts.stdin is None ==> p.stdin is None,
        opts.stdin matches Some(t) ==> p.stdin matches Some(s) && s@ == t,
        p.env@.len() == opts.env.len(),
        forall|k: int|
            0 <= k < opts.env.len() ==> (#[trigger] p.env@[k]).0@ == opts.env[k].0 && p.env@[k].1@
                == opts.env[k].1,
        p.inherit_path <==> p.env@.len() == 0,
{
    assert(strings_of(p.args@).len() == p.args@.len());
    assert(strings_of(p.args@)[0] == p.args@[0]@ && strings_of(p.args@)[1] == p.args@[1]@);
    assert forall|k: int| 0 <= k < opts.env.len() implies (#[trigger] p.env@[k]).0@ == opts.env[k].0
        && p.env@[k].1@ == opts.env[k].1 by {
        assert(pairs_view(p.env@)[k] == (p.env@[k].0@, p.env@[k].1@));
    }
}

/// The note left in stderr when a command times out.
pub open spec fn timeout_note(timeout_ms: u64) -> Seq<char> {
    "[bellows] killed: timeout after "@ + decimal(timeout_ms as nat) + "ms"@
}

/// The result of a command killed at its timeout: no exit code, empty
/// stdout, a note in stderr, and the timeout as its duration.
pub fn timed_out_result(timeout_ms: u64) -> (r: ExecResult)
    ensures
        r@ == (ExecResultView {
            exit_code: None,
            stdout: Seq::empty(),
            stderr: timeout_note(timeout_ms),
            killed: true,
            duration_ms: timeout_ms,
        }),
{
    let mut stderr = "[bellows] killed: timeout after ".to_owned();
    let ms = decimal_string(timeout_ms);
    append_str(&mut stderr, ms.as_str());
    append_str(&mut stderr, "ms");
    let r = ExecResult { exit_code: None, stdout: String::new(), stderr, killed: true, duration_ms: timeout_ms };
    assert(r@.stdout =~= Seq::<char>::empty());
    r
}

/// The text that `String::from_utf8_lossy` makes of some bytes.
pub uninterp spec fn lossy_text(bytes: Seq<u8>) -> Seq<char>;

/// `String::from_utf8_lossy`: valid UTF-8 decodes as it is (invalid
/// sequences become U+FFFD, which is not stated here).
#[verifier::external_body]
pub(crate) fn lossy_utf8(bytes: &[u8]) -> (s: String)
    ensures
        s@ == lossy_text(bytes@),
        valid_utf8(bytes@) ==> s@ == decode_utf8(bytes@),
{
    String::from_utf8_lossy(bytes).into_owned()
}

/// A duration in milliseconds, saturated to 64 bits.
pub fn saturated_millis(ms: u128) -> (r: u64)
    ensures
        r == if ms <= u64::MAX as u128 {
            ms as u64
        } else {
            u64::MAX
        },
{
    if ms <= u64::MAX as u128 {
        ms as u64
    } else {
        u64::MAX
    }
}

/// The result of a command that exited: its exit code, its output decoded
/// as UTF-8 (lossily), not killed, and the elapsed time saturated to 64
/// bits.
pub fn finished_result(
    exit_code: Option<i32>,
    stdout: &[u8],
    stderr: &[u8],
    elapsed_ms: u128,
) -> (r: ExecResult)
    ensures
        r@ == (ExecResultView {
            exit_code,
            stdout: lossy_text(stdout@),
            stderr: lossy_text(stderr@),
            killed: false,
            duration_ms: if elapsed_ms <= u64::MAX as u128 {
                elapsed_ms as u64
            } else {
                u64::MAX
            },
        }),
{
    ExecResult {
        exit_code,
        stdout: lossy_utf8(stdout),
        stderr: lossy_utf8(stderr),
        killed: false,
        duration_ms: saturated_millis(elapsed_ms),
    }
}

} // verus!
