# bellows

The kernel of an agent-harness framework, written in Verus. Every function
under `src/` carries a contract. Verus proves them all except those of the
small wrappers marked `#[verifier::external_body]`, which call `serde_json`,
`serde_yaml_ng`, `ulid`, `reqwest` and a few `std` functions; their
contracts are taken as given and their doc comments say what they claim.

- `src/role.rs` — role overlays, their `call > session > agent` precedence
  and the system prompt they render to.
- `src/message.rs`, `src/model.rs`, `src/json.rs` — conversation messages,
  model responses and stream deltas, and the JSON values that flow through
  tools.
- `src/anthropic.rs` — the Anthropic Messages API: request bodies, headers
  and credentials, decoded responses, and the projection of its SSE
  protocol onto the stream deltas, with the laws that make the stream a
  one-shot iterator.
- `src/stream.rs`, `src/server.rs` — the streaming event taxonomy, tool
  labels, and what the HTTP server writes (SSE lines, JSON bodies, the web
  page, the port).
- `src/session.rs`, `src/skill.rs` — sessions and their in-memory store;
  Markdown skills with YAML frontmatter, bundles and directory order.
- `src/hook.rs`, `src/tool.rs`, `src/sandbox.rs`, `src/mock.rs`,
  `src/cli.rs`, `src/error.rs` — hook verdicts, the built-in tools, the
  sandboxes' decisions, the echo provider, the command line's choices, and
  the error type.

`app/` holds what Verus does not see: the `bellows` command, the
asynchronous contract (providers, sandboxes, tools, stores, hooks,
workflows), HTTP transport, processes and files, and the Axum server.
`tests/` exercises the library from outside.
