use vstd::prelude::*;

verus! {

use crate::text::{chars_to_string, dec_rep, push_chars, push_str_chars, u64_to_chars};

/// Every way an invocation can fail, kept apart so that a caller can tell
/// a local configuration problem from a transport fault, a rejection by the
/// server, a response of an unexpected shape, or a profile-file problem.
#[derive(Debug, PartialEq, Eq)]
pub enum CliError {
    /// Unresolvable home directory, invalid profile file structure, or a
    /// reference to an unknown profile name. No network call was attempted.
    Configuration(String),
    /// The request could not be sent or no response was received.
    Transport(String),
    /// A response was received with a non-success status; carries the status
    /// code and the raw body text.
    Request { status: u16, body: String },
    /// The status was a success but the body did not match the expected shape.
    Decode(String),
    /// A local file read or write failed during profile load or save.
    Storage(String),
}

/// The one-line text that an error surfaces to the user.
pub open spec fn message_spec(e: CliError) -> Seq<char> {
    match e {
        CliError::Configuration(m) => m@,
        CliError::Transport(m) => "Transport error: "@ + m@,
        CliError::Request { status, body } => "Request failed: "@ + dec_rep(status as nat) + " - "@
            + body@,
        CliError::Decode(m) => "Decode error: "@ + m@,
        CliError::Storage(m) => "Storage error: "@ + m@,
    }
}

impl CliError {
    /// Renders the error as the line shown to the user.
    pub fn message(&self) -> (r: String)
        ensures
            r@ == message_spec(*self),
    {
        match self {
            CliError::Configuration(m) => {
                let mut out: Vec<char> = Vec::new();
                push_str_chars(&mut out, m.as_str());
                chars_to_string(&out)
            },
            CliError::Transport(m) => {
                let mut out: Vec<char> = Vec::new();
                push_str_chars(&mut out, "Transport error: ");
                push_str_chars(&mut out, m.as_str());
                chars_to_string(&out)
            },
            CliError::Request { status, body } => {
                let mut out: Vec<char> = Vec::new();
                push_str_chars(&mut out, "Request failed: ");
                let digits = u64_to_chars(*status as u64);
                push_chars(&mut out, &digits);
                push_str_chars(&mut out, " - ");
                push_str_chars(&mut out, body.as_str());
                chars_to_string(&out)
            },
            CliError::Decode(m) => {
                let mut out: Vec<char> = Vec::new();
                push_str_chars(&mut out, "Decode error: ");
                push_str_chars(&mut out, m.as_str());
                chars_to_string(&out)
            },
            CliError::Storage(m) => {
                let mut out: Vec<char> = Vec::new();
                push_str_chars(&mut out, "Storage error: ");
                push_str_chars(&mut out, m.as_str());
                chars_to_string(&out)
            },
        }
    }
}

} // verus!
