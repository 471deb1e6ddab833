//! What one invocation asked for, as parsed from the command line by the
//! caller.

use vstd::prelude::*;

verus! {

/// The parsed command line: switches, the requested local backend, the
/// prompt, and the usage text shown on request.
#[derive(Debug, Clone, PartialEq)]
pub struct CommandLine {
    pub verbose: bool,
    pub clear: bool,
    pub markdown: bool,
    pub list: bool,
    pub system: Option<String>,
    pub prompt: String,
    pub local: Option<String>,
    pub usage: String,
    pub scan: Option<String>,
}

impl CommandLine {
    /// The effective markdown switch: the flag, when present, toggles the
    /// configured default.
    pub fn effective_markdown(flag_present: bool, default_markdown: bool) -> (r: bool)
        ensures
            r == if flag_present {
                !default_markdown
            } else {
                default_markdown
            },
    {
        if flag_present {
            !default_markdown
        } else {
            default_markdown
        }
    }
}

} // verus!
