//! The tool surface shown to the model: tool schemas, the registry that
//! resolves tool names, and the built-in tools' schemas, argument handling
//! and result shapes. Running a tool (a process, a file) happens outside
//! this crate, through a sandbox.

use vstd::prelude::*;

use crate::error::BellowsError;
use crate::json::{
    entry_views, json_views, lemma_json_views_push, push_member, str_member, view_as_u64, view_get,
    JsonValue, JsonView, NumberView,
};
use crate::sandbox::{dir_entry_json, lossy_text, lossy_utf8, DirEntry, ExecOpts, ExecOptsView};
use crate::text::{append_str, str_eq};

verus! {

/// Name, description and JSON Schema of a tool's arguments.
#[derive(Debug)]
pub struct ToolSchema {
    /// Logical tool name, stable across versions.
    pub name: String,
    /// Free-text description shown to the model.
    pub description: String,
    /// JSON Schema of the `arguments` object.
    pub parameters: JsonValue,
}

pub struct ToolSchemaView {
    pub name: Seq<char>,
    pub description: Seq<char>,
    pub parameters: JsonView,
}

impl View for ToolSchema {
    type V = ToolSchemaView;

    open spec fn view(&self) -> ToolSchemaView {
        ToolSchemaView {
            name: self.name@,
            description: self.description@,
            parameters: self.parameters@,
        }
    }
}

impl Clone for ToolSchema {
    fn clone(&self) -> (r: Self)
        ensures
            r@ == self@,
    {
        ToolSchema {
            name: self.name.clone(),
            description: self.description.clone(),
            parameters: self.parameters.clone(),
        }
    }
}

/// A tool the agent can invoke, by the schema it shows the model. The
/// invocation itself is asynchronous and runs outside this crate.
pub trait Tool {
    /// The name the tool is known by: the name of its schema.
    spec fn tool_name(&self) -> Seq<char>;

    /// The tool's schema.
    fn schema(&self) -> (s: ToolSchema)
        ensures
            s.name@ == self.tool_name(),
    ;
}

/// Whether entry `i` of `ts` is the first one registered under `name`.
pub open spec fn is_first_tool<T>(ts: Seq<(Seq<char>, T)>, name: Seq<char>, i: int) -> bool {
    &&& 0 <= i < ts.len()
    &&& ts[i].0 == name
    &&& forall|j: int| 0 <= j < i ==> (#[trigger] ts[j]).0 != name
}

/// Registry that holds tools in registration order, each under its name,
/// and resolves them by name.
pub struct SimpleRegistry<T> {
    tools: Vec<(String, T)>,
}

impl<T> View for SimpleRegistry<T> {
    type V = Seq<(Seq<char>, T)>;

    closed spec fn view(&self) -> Seq<(Seq<char>, T)> {
        self.tools@.map_values(|e: (String, T)| (e.0@, e.1))
    }
}

impl<T> SimpleRegistry<T> {
    /// Empty registry.
    pub fn new() -> (r: Self)
        ensures
            r@ == Seq::<(Seq<char>, T)>::empty(),
    {
        let r = SimpleRegistry { tools: Vec::new() };
        assert(r@ =~= Seq::<(Seq<char>, T)>::empty());
        r
    }

    /// Register a tool under `name`, after those registered so far.
    pub fn register_as(&mut self, name: String, tool: T)
        ensures
            final(self)@ == old(self)@.push((name@, tool)),
    {
        let ghost before = self.tools@;
        self.tools.push((name, tool));
        assert(self@ =~= before.map_values(|e: (String, T)| (e.0@, e.1)).push((name@, tool)));
    }

    /// All tools, in registration order.
    pub fn list(&self) -> (r: Vec<&T>)
        ensures
            r@.len() == self@.len(),
            forall|i: int| 0 <= i < r@.len() ==> *(#[trigger] r@[i]) == self@[i].1,
    {
        let mut r: Vec<&T> = Vec::new();
        let mut i: usize = 0;
        while i < self.tools.len()
            invariant
                i <= self.tools.len(),
                r@.len() == i,
                forall|j: int| 0 <= j < i ==> *(#[trigger] r@[j]) == self@[j].1,
            decreases self.tools.len() - i,
        {
            r.push(&self.tools[i].1);
            i = i + 1;
        }
        r
    }

    /// The first tool registered under `name`, if any.
    pub fn get(&self, name: &str) -> (r: Option<&T>)
        ensures
            r matches Some(t) ==> exists|i: int| is_first_tool(self@, name@, i) && *t == (#[trigger] self@[i]).1,
            r is None ==> forall|i: int| 0 <= i < self@.len() ==> (#[trigger] self@[i]).0 != name@,
    {
        let mut i: usize = 0;
        while i < self.tools.len()
            invariant
                i <= self.tools.len(),
                forall|j: int| 0 <= j < i ==> (#[trigger] self@[j]).0 != name@,
            decreases self.tools.len() - i,
        {
            if str_eq(self.tools[i].0.as_str(), name) {
                assert(is_first_tool(self@, name@, i as int));
                return Some(&self.tools[i].1);
            }
            i = i + 1;
        }
        None
    }
}

impl<T: Tool> SimpleRegistry<T> {
    /// Register a tool after those registered so far, under the name of
    /// its schema.
    pub fn register(&mut self, tool: T)
        ensures
            final(self)@ == old(self)@.push((tool.tool_name(), tool)),
    {
        let name = tool.schema().name;
        self.register_as(name, tool);
    }

    /// Builder-style registration.
    pub fn with(self, tool: T) -> (r: Self)
        ensures
            r@ == self@.push((tool.tool_name(), tool)),
    {
        let mut me = self;
        me.register(tool);
        me
    }
}

/// A tool registered under a name that no earlier tool has is the one
/// that the registry resolves that name to, and no other entry is.
pub proof fn lemma_registered_tool_is_found<T>(ts: Seq<(Seq<char>, T)>, name: Seq<char>, tool: T)
    requires
        forall|j: int| 0 <= j < ts.len() ==> (#[trigger] ts[j]).0 != name,
    ensures
        is_first_tool(ts.push((name, tool)), name, ts.len() as int),
        ts.push((name, tool))[ts.len() as int].1 == tool,
        forall|i: int| #[trigger] is_first_tool(ts.push((name, tool)), name, i) ==> i == ts.len(),
{
    let us = ts.push((name, tool));
    assert forall|j: int| 0 <= j < ts.len() implies (#[trigger] us[j]).0 != name by {
        assert(us[j] == ts[j]);
    }
}

impl<T> Default for SimpleRegistry<T> {
    fn default() -> (r: Self)
        ensures
            r@ == Seq::<(Seq<char>, T)>::empty(),
    {
        SimpleRegistry::new()
    }
}

// ── JSON Schema pieces ──────────────────────────────────────────────────────

pub open spec fn jstr(s: Seq<char>) -> JsonView {
    JsonView::Str(s)
}

/// `{"type": t}`.
pub open spec fn typed(t: Seq<char>) -> JsonView {
    JsonView::Object(seq![("type"@, jstr(t))])
}

/// `{"type": t, "description": d}`.
pub open spec fn typed_described(t: Seq<char>, d: Seq<char>) -> JsonView {
    JsonView::Object(seq![("type"@, jstr(t)), ("description"@, jstr(d))])
}

/// `{"type": "object", "required": required, "properties": properties}`.
pub open spec fn object_schema(required: Seq<Seq<char>>, properties: Seq<(Seq<char>, JsonView)>) -> JsonView {
    JsonView::Object(
        seq![
            ("type"@, jstr("object"@)),
            ("required"@, JsonView::Array(required.map_values(|r: Seq<char>| jstr(r)))),
            ("properties"@, JsonView::Object(properties)),
        ],
    )
}

fn typed_value(t: &str) -> (v: JsonValue)
    ensures
        v@ == typed(t@),
{
    let mut e: Vec<(String, JsonValue)> = Vec::new();
    push_member(&mut e, "type", JsonValue::string(t));
    assert(entry_views(e@) =~= seq![("type"@, jstr(t@))]);
    JsonValue::Object(e)
}

fn typed_described_value(t: &str, d: &str) -> (v: JsonValue)
    ensures
        v@ == typed_described(t@, d@),
{
    let mut e: Vec<(String, JsonValue)> = Vec::new();
    push_member(&mut e, "type", JsonValue::string(t));
    push_member(&mut e, "description", JsonValue::string(d));
    assert(entry_views(e@) =~= seq![("type"@, jstr(t@)), ("description"@, jstr(d@))]);
    JsonValue::Object(e)
}

fn object_schema_value(required: &[&str], properties: Vec<(String, JsonValue)>) -> (v: JsonValue)
    ensures
        v@ == object_schema(required@.map_values(|r: &str| r@), entry_views(properties@)),
{
    let mut names: Vec<JsonValue> = Vec::new();
    let ghost req = required@.map_values(|r: &str| r@);
    let mut i: usize = 0;
    while i < required.len()
        invariant
            i <= required.len(),
            req == required@.map_values(|r: &str| r@),
            json_views(names@) == req.take(i as int).map_values(|r: Seq<char>| jstr(r)),
        decreases required.len() - i,
    {
        let n = JsonValue::string(required[i]);
        proof {
            lemma_json_views_push(names@, n);
            assert(req.take(i + 1) =~= req.take(i as int).push(req[i as int]));
            assert(req.take(i + 1).map_values(|r: Seq<char>| jstr(r)) =~= req.take(i as int).map_values(
                |r: Seq<char>| jstr(r),
            ).push(jstr(req[i as int])));
        }
        names.push(n);
        i = i + 1;
    }
    assert(req.take(required.len() as int) =~= req);
    let mut e: Vec<(String, JsonValue)> = Vec::new();
    push_member(&mut e, "type", JsonValue::string("object"));
    push_member(&mut e, "required", JsonValue::Array(names));
    let ghost props = entry_views(properties@);
    push_member(&mut e, "properties", JsonValue::Object(properties));
    assert(entry_views(e@) =~= seq![
        ("type"@, jstr("object"@)),
        ("required"@, JsonView::Array(req.map_values(|r: Seq<char>| jstr(r)))),
        ("properties"@, JsonView::Object(props)),
    ]);
    JsonValue::Object(e)
}

// ── Built-in tools ──────────────────────────────────────────────────────────

/// The reason given when a required string argument is missing.
pub open spec fn missing_argument(arg: Seq<char>) -> Seq<char> {
    "missing required `"@ + arg + "` argument"@
}

/// The text of the required string argument `key` of a call of `tool`; a
/// missing or non-string argument is a `Tool` error naming the tool.
pub fn required_str<'a>(tool: &str, args: &'a JsonValue, key: &str) -> (r: Result<&'a str, BellowsError>)
    ensures
        match str_member(args@, key@) {
            Some(t) => r matches Ok(x) && x@ == t,
            None => r matches Err(BellowsError::Tool { name, reason }) && name@ == tool@ && reason@
                == missing_argument(key@),
        },
{
    match args.str_member(key) {
        Some(t) => Ok(t),
        None => {
            let mut reason = "missing required `".to_owned();
            append_str(&mut reason, key);
            append_str(&mut reason, "` argument");
            Err(BellowsError::Tool { name: tool.to_owned(), reason })
        },
    }
}

/// Run a shell command in the active sandbox.
#[derive(Debug, Default, Clone, Copy)]
pub struct BashTool;

/// Read a file from the active sandbox as UTF-8.
#[derive(Debug, Default, Clone, Copy)]
pub struct FsReadTool;

/// Write a file in the active sandbox.
#[derive(Debug, Default, Clone, Copy)]
pub struct FsWriteTool;

/// List a directory in the active sandbox.
#[derive(Debug, Default, Clone, Copy)]
pub struct FsListTool;

/// The argument schema of `bash`.
pub open spec fn bash_parameters() -> JsonView {
    object_schema(
        seq!["cmd"@],
        seq![
            ("cmd"@, typed_described("string"@, "Shell command to run."@)),
            ("cwd"@, typed_described("string"@, "Optional working directory (relative to workspace)."@)),
            (
                "timeout_ms"@,
                JsonView::Object(
                    seq![("type"@, jstr("integer"@)), ("minimum"@, JsonView::Number(NumberView::PosInt(0)))],
                ),
            ),
        ],
    )
}

/// The argument schema of the tools that take a path only.
pub open spec fn path_parameters() -> JsonView {
    object_schema(seq!["path"@], seq![("path"@, typed("string"@))])
}

/// The argument schema of `fs_write`.
pub open spec fn write_parameters() -> JsonView {
    object_schema(
        seq!["path"@, "content"@],
        seq![("path"@, typed("string"@)), ("content"@, typed("string"@))],
    )
}

fn path_parameters_value() -> (v: JsonValue)
    ensures
        v@ == path_parameters(),
{
    let mut props: Vec<(String, JsonValue)> = Vec::new();
    push_member(&mut props, "path", typed_value("string"));
    let required: [&str; 1] = ["path"];
    let v = object_schema_value(required.as_slice(), props);
    assert(required@.map_values(|r: &str| r@) =~= seq!["path"@]);
    assert(entry_views(props@) =~= seq![("path"@, typed("string"@))]);
    v
}

impl Tool for BashTool {
    open spec fn tool_name(&self) -> Seq<char> {
        "bash"@
    }

    fn schema(&self) -> (s: ToolSchema)
        ensures
            s@ == (ToolSchemaView {
                name: "bash"@,
                description: "Execute a shell command in the agent's sandbox and return stdout/stderr."@,
                parameters: bash_parameters(),
            }),
    {
        let mut props: Vec<(String, JsonValue)> = Vec::new();
        push_member(&mut props, "cmd", typed_described_value("string", "Shell command to run."));
        push_member(
            &mut props,
            "cwd",
            typed_described_value("string", "Optional working directory (relative to workspace)."),
        );
        let mut t: Vec<(String, JsonValue)> = Vec::new();
        push_member(&mut t, "type", JsonValue::string("integer"));
        push_member(&mut t, "minimum", JsonValue::unsigned(0));
        assert(entry_views(t@) =~= seq![
            ("type"@, jstr("integer"@)),
            ("minimum"@, JsonView::Number(NumberView::PosInt(0))),
        ]);
        push_member(&mut props, "timeout_ms", JsonValue::Object(t));
        assert(entry_views(props@) =~= seq![
            ("cmd"@, typed_described("string"@, "Shell command to run."@)),
            ("cwd"@, typed_described("string"@, "Optional working directory (relative to workspace)."@)),
            (
                "timeout_ms"@,
                JsonView::Object(
                    seq![("type"@, jstr("integer"@)), ("minimum"@, JsonView::Number(NumberView::PosInt(0)))],
                ),
            ),
        ]);
        let required: [&str; 1] = ["cmd"];
        let parameters = object_schema_value(required.as_slice(), props);
        assert(required@.map_values(|r: &str| r@) =~= seq!["cmd"@]);
        ToolSchema {
            name: "bash".to_owned(),
            description: "Execute a shell command in the agent's sandbox and return stdout/stderr.".to_owned(),
            parameters,
        }
    }
}

impl BashTool {
    /// The command and exec options of a call: `cmd` is required; `cwd`
    /// (when a string) and `timeout_ms` (when an unsigned integer) are
    /// passed on; no environment and no stdin.
    pub fn request(&self, args: &JsonValue) -> (r: Result<(String, ExecOpts), BellowsError>)
        ensures
            match str_member(args@, "cmd"@) {
                Some(c) => r matches Ok((cmd, opts)) && cmd@ == c && opts@ == (ExecOptsView {
                    cwd: str_member(args@, "cwd"@),
                    env: Seq::empty(),
                    timeout_ms: match view_get(args@, "timeout_ms"@) {
                        Some(t) => view_as_u64(t),
                        None => None,
                    },
                    stdin: None,
                }),
                None => r matches Err(BellowsError::Tool { name, reason }) && name@ == "bash"@
                    && reason@ == missing_argument("cmd"@),
            },
    {
        let cmd = match required_str("bash", args, "cmd") {
            Ok(c) => c,
            Err(e) => return Err(e),
        };
        let cwd = match args.str_member("cwd") {
            Some(c) => Some(c.to_owned()),
            None => None,
        };
        let timeout_ms = match args.get("timeout_ms") {
            Some(t) => t.as_u64(),
            None => None,
        };
        let opts = ExecOpts { cwd, env: Vec::new(), timeout_ms, stdin: None };
        assert(opts@.env =~= Seq::<(Seq<char>, Seq<char>)>::empty());
        Ok((cmd.to_owned(), opts))
    }
}

impl Tool for FsReadTool {
    open spec fn tool_name(&self) -> Seq<char> {
        "fs_read"@
    }

    fn schema(&self) -> (s: ToolSchema)
        ensures
            s@ == (ToolSchemaView {
                name: "fs_read"@,
                description: "Read a file from the agent's sandbox as UTF-8 text."@,
                parameters: path_parameters(),
            }),
    {
        ToolSchema {
            name: "fs_read".to_owned(),
            description: "Read a file from the agent's sandbox as UTF-8 text.".to_owned(),
            parameters: path_parameters_value(),
        }
    }
}

/// `{"path": path, "content": content}`.
pub open spec fn read_output(path: Seq<char>, content: Seq<char>) -> JsonView {
    JsonView::Object(seq![("path"@, jstr(path)), ("content"@, jstr(content))])
}

impl FsReadTool {
    /// The path to read: the required `path` argument.
    pub fn path<'a>(&self, args: &'a JsonValue) -> (r: Result<&'a str, BellowsError>)
        ensures
            match str_member(args@, "path"@) {
                Some(t) => r matches Ok(x) && x@ == t,
                None => r matches Err(BellowsError::Tool { name, reason }) && name@ == "fs_read"@
                    && reason@ == missing_argument("path"@),
            },
    {
        required_str("fs_read", args, "path")
    }

    /// The result of a read: the path and the file's bytes as (lossy)
    /// UTF-8 text.
    pub fn output(&self, path: &str, bytes: &[u8]) -> (v: JsonValue)
        ensures
            v@ == read_output(path@, lossy_text(bytes@)),
    {
        let mut e: Vec<(String, JsonValue)> = Vec::new();
        push_member(&mut e, "path", JsonValue::string(path));
        push_member(&mut e, "content", JsonValue::String(lossy_utf8(bytes)));
        assert(entry_views(e@) =~= seq![("path"@, jstr(path@)), ("content"@, jstr(lossy_text(bytes@)))]);
        JsonValue::Object(e)
    }
}

impl Tool for FsWriteTool {
    open spec fn tool_name(&self) -> Seq<char> {
        "fs_write"@
    }

    fn schema(&self) -> (s: ToolSchema)
        ensures
            s@ == (ToolSchemaView {
                name: "fs_write"@,
                description: "Write a file in the agent's sandbox. Creates parent dirs as needed."@,
                parameters: write_parameters(),
            }),
    {
        let mut props: Vec<(String, JsonValue)> = Vec::new();
        push_member(&mut props, "path", typed_value("string"));
        push_member(&mut props, "content", typed_value("string"));
        let required: [&str; 2] = ["path", "content"];
        let parameters = object_schema_value(required.as_slice(), props);
        assert(required@.map_values(|r: &str| r@) =~= seq!["path"@, "content"@]);
        assert(entry_views(props@) =~= seq![("path"@, typed("string"@)), ("content"@, typed("string"@))]);
        ToolSchema {
            name: "fs_write".to_owned(),
            description: "Write a file in the agent's sandbox. Creates parent dirs as needed.".to_owned(),
            parameters,
        }
    }
}

/// `{"path": path, "written": bytes}`.
pub open spec fn write_output(path: Seq<char>, written: nat) -> JsonView {
    JsonView::Object(
        seq![("path"@, jstr(path)), ("written"@, JsonView::Number(NumberView::PosInt(written as u64)))],
    )
}

impl FsWriteTool {
    /// The path and content of a write: `path` then `content`, both
    /// required.
    pub fn arguments<'a>(&self, args: &'a JsonValue) -> (r: Result<(&'a str, &'a str), BellowsError>)
        ensures
            match (str_member(args@, "path"@), str_member(args@, "content"@)) {
                (Some(p), Some(c)) => r matches Ok((x, y)) && x@ == p && y@ == c,
                (None, _) => r matches Err(BellowsError::Tool { name, reason }) && name@ == "fs_write"@
                    && reason@ == missing_argument("path"@),
                (Some(_), None) => r matches Err(BellowsError::Tool { name, reason }) && name@
                    == "fs_write"@ && reason@ == missing_argument("content"@),
            },
    {
        let path = match required_str("fs_write", args, "path") {
            Ok(p) => p,
            Err(e) => return Err(e),
        };
        let content = match required_str("fs_write", args, "content") {
            Ok(c) => c,
            Err(e) => return Err(e),
        };
        Ok((path, content))
    }

    /// The result of a write: the path and the number of bytes written
    /// (the UTF-8 length of the content).
    pub fn output(&self, path: &str, content: &str) -> (v: JsonValue)
        ensures
            v@ == write_output(path@, vstd::utf8::encode_utf8(content@).len()),
    {
        let n = content.as_bytes().len();
        let mut e: Vec<(String, JsonValue)> = Vec::new();
        push_member(&mut e, "path", JsonValue::string(path));
        push_member(&mut e, "written", JsonValue::unsigned(n as u64));
        assert(entry_views(e@) =~= seq![
            ("path"@, jstr(path@)),
            ("written"@, JsonView::Number(NumberView::PosInt(n as u64))),
        ]);
        JsonValue::Object(e)
    }
}

impl Tool for FsListTool {
    open spec fn tool_name(&self) -> Seq<char> {
        "fs_list"@
    }

    fn schema(&self) -> (s: ToolSchema)
        ensures
            s@ == (ToolSchemaView {
                name: "fs_list"@,
                description: "List a directory in the agent's sandbox."@,
                parameters: path_parameters(),
            }),
    {
        ToolSchema {
            name: "fs_list".to_owned(),
            description: "List a directory in the agent's sandbox.".to_owned(),
            parameters: path_parameters_value(),
        }
    }
}

pub open spec fn entries_json(es: Seq<DirEntry>) -> Seq<JsonView> {
    es.map_values(|e: DirEntry| dir_entry_json(e@))
}

/// `{"path": path, "entries": [entry, ...]}`.
pub open spec fn list_output(path: Seq<char>, entries: Seq<DirEntry>) -> JsonView {
    JsonView::Object(seq![("path"@, jstr(path)), ("entries"@, JsonView::Array(entries_json(entries)))])
}

impl FsListTool {
    /// The directory to list: the required `path` argument.
    pub fn path<'a>(&self, args: &'a JsonValue) -> (r: Result<&'a str, BellowsError>)
        ensures
            match str_member(args@, "path"@) {
                Some(t) => r matches Ok(x) && x@ == t,
                None => r matches Err(BellowsError::Tool { name, reason }) && name@ == "fs_list"@
                    && reason@ == missing_argument("path"@),
            },
    {
        required_str("fs_list", args, "path")
    }

    /// The result of a listing: the path and each entry, in order.
    pub fn output(&self, path: &str, entries: &[DirEntry]) -> (v: JsonValue)
        ensures
            v@ == list_output(path@, entries@),
    {
        let mut list: Vec<JsonValue> = Vec::new();
        let mut i: usize = 0;
        while i < entries.len()
            invariant
                i <= entries.len(),
                json_views(list@) == entries_json(entries@.take(i as int)),
            decreases entries.len() - i,
        {
            let j = entries[i].to_json();
            proof {
                lemma_json_views_push(list@, j);
                assert(entries@.take(i + 1) =~= entries@.take(i as int).push(entries@[i as int]));
                assert(entries_json(entries@.take(i + 1)) =~= entries_json(entries@.take(i as int)).push(
                    dir_entry_json(entries@[i as int]@),
                ));
            }
            list.push(j);
            i = i + 1;
        }
        assert(entries@.take(entries.len() as int) =~= entries@);
        let mut e: Vec<(String, JsonValue)> = Vec::new();
        push_member(&mut e, "path", JsonValue::string(path));
        push_member(&mut e, "entries", JsonValue::Array(list));
        assert(entry_views(e@) =~= seq![
            ("path"@, jstr(path@)),
            ("entries"@, JsonView::Array(entries_json(entries@))),
        ]);
        JsonValue::Object(e)
    }
}

} // verus!
