//! The command-line front end's decisions: how verbose the log is, and
//! what the toolchain probe reports.

use vstd::prelude::*;

use crate::text::{trim, trim_spec};

verus! {

/// The log filter for a `-v` count: `info`, then `debug`, then `trace`.
pub open spec fn level_for(verbose: u8) -> Seq<char> {
    if verbose == 0 {
        "info"@
    } else if verbose == 1 {
        "debug"@
    } else {
        "trace"@
    }
}

/// The log filter for a `-v` count.
pub fn log_level(verbose: u8) -> (s: &'static str)
    ensures
        s@ == level_for(verbose),
{
    match verbose {
        0 => "info",
        1 => "debug",
        _ => "trace",
    }
}

/// What `doctor` reports for the compiler: the trimmed output of
/// `rustc --version` when it ran and printed UTF-8, else `unknown`.
pub fn rustc_version_text(stdout: Option<&str>) -> (s: String)
    ensures
        s@ == match stdout {
            Some(t) => trim_spec(t@),
            None => "unknown"@,
        },
{
    match stdout {
        Some(t) => trim(t),
        None => "unknown".to_owned(),
    }
}

} // verus!
