//! The single error type returned across the kernel contract.

use vstd::prelude::*;

use crate::text::append_str;

verus! {

#[verifier::external_type_specification]
#[verifier::external_body]
pub struct ExIoError(std::io::Error);

/// Canonical error type returned across the kernel contract boundary.
#[derive(Debug)]
#[non_exhaustive]
pub enum BellowsError {
    /// The model provider returned a transport, parse, or protocol error.
    Model(String),
    /// The sandbox could not execute, or a filesystem operation failed.
    Sandbox(String),
    /// A tool invocation failed.
    Tool {
        /// Logical name of the tool that failed.
        name: String,
        /// Human-readable reason supplied by the tool implementation.
        reason: String,
    },
    /// Skill loading or parsing failed.
    Skill(String),
    /// Session storage error.
    Session(String),
    /// A required configuration value was missing or invalid.
    Config(String),
    /// The workflow itself produced a domain error.
    Workflow(String),
    /// I/O error not covered by another variant.
    Io(std::io::Error),
    /// Serialization or deserialization failed on the boundary.
    Serde(String),
    /// Catch-all for cases that fit no other variant.
    Other(String),
}

/// The message that `Display` writes for an error, when the error is not an
/// I/O error (whose message is the operating system's).
pub open spec fn error_text(e: BellowsError) -> Option<Seq<char>> {
    match e {
        BellowsError::Model(m) => Some("model provider error: "@ + m@),
        BellowsError::Sandbox(m) => Some("sandbox error: "@ + m@),
        BellowsError::Tool { name, reason } => Some("tool `"@ + name@ + "` failed: "@ + reason@),
        BellowsError::Skill(m) => Some("skill error: "@ + m@),
        BellowsError::Session(m) => Some("session error: "@ + m@),
        BellowsError::Config(m) => Some("configuration error: "@ + m@),
        BellowsError::Workflow(m) => Some("workflow error: "@ + m@),
        BellowsError::Io(_) => None,
        BellowsError::Serde(m) => Some("serialization error: "@ + m@),
        BellowsError::Other(m) => Some(m@),
    }
}

/// `std::io::Error`'s `Display` text. Nothing is stated of it: it comes
/// from the operating system.
#[verifier::external_body]
pub(crate) fn io_error_text(e: &std::io::Error) -> String {
    e.to_string()
}

/// `prefix` followed by `detail`.
fn joined(prefix: &str, detail: &str) -> (s: String)
    ensures
        s@ == prefix@ + detail@,
{
    let mut s = prefix.to_owned();
    append_str(&mut s, detail);
    s
}

impl BellowsError {
    /// The human-readable message of the error (what `Display` writes).
    pub fn text(&self) -> (s: String)
        ensures
            error_text(*self) matches Some(t) ==> s@ == t,
    {
        match self {
            BellowsError::Model(m) => joined("model provider error: ", m.as_str()),
            BellowsError::Sandbox(m) => joined("sandbox error: ", m.as_str()),
            BellowsError::Tool { name, reason } => {
                let mut s = joined("tool `", name.as_str());
                append_str(&mut s, "` failed: ");
                append_str(&mut s, reason.as_str());
                s
            },
            BellowsError::Skill(m) => joined("skill error: ", m.as_str()),
            BellowsError::Session(m) => joined("session error: ", m.as_str()),
            BellowsError::Config(m) => joined("configuration error: ", m.as_str()),
            BellowsError::Workflow(m) => joined("workflow error: ", m.as_str()),
            BellowsError::Io(e) => io_error_text(e),
            BellowsError::Serde(m) => joined("serialization error: ", m.as_str()),
            BellowsError::Other(m) => m.clone(),
        }
    }
}

/// The error for a failed JSON (de)serialisation: `Serde` with the JSON
/// error's text.
pub fn serde_error(e: serde_json::Error) -> (r: BellowsError)
    ensures
        r is Serde,
{
    BellowsError::Serde(crate::json::json_error_text(&e))
}

} // verus!
