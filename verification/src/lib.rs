//! Bellows: the verified kernel of an agent-harness framework.
//!
//! The crate holds the data model and the decision logic of the harness:
//! role overlays and their precedence, conversation messages, the JSON
//! values that flow through tools, hook verdicts, the streaming event
//! taxonomy, the Anthropic Messages API (request bodies, responses, and the
//! projection of its SSE protocol), sessions and their in-memory store,
//! Markdown skills, the built-in tools' schemas and argument handling, the
//! sandboxes' decisions, what the HTTP server writes, and the command
//! line's choices. Every function here carries a contract; Verus proves
//! all of them but those of the few wrappers around outside calls (marked
//! `external_body`), whose contracts are trusted. The asynchronous plumbing
//! (HTTP, processes, files) lives outside this crate.

mod text;
pub mod role;
pub mod json;
pub mod message;
pub mod error;
pub mod model;
pub mod hook;
pub mod stream;
pub mod anthropic;
pub mod tool;
pub mod session;
pub mod skill;
pub mod server;
pub mod sandbox;
pub mod mock;
pub mod cli;
