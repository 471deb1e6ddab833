//! The typed failures a backend turn or a store operation can surface.

use vstd::prelude::*;
use vstd::string::StringExecFns;

verus! {

/// Everything that can go wrong while running one conversational turn or
/// while loading the persisted state. All variants are recoverable by the
/// caller; none terminates the process.
#[derive(Clone, Debug, PartialEq)]
pub enum ChatError {
    /// Transport-level failure reaching the remote service.
    Network,
    /// The remote service returned an error payload or a non-success status;
    /// carries the server-side message when one was embedded.
    RemoteAPI(String),
    /// A malformed streaming record or malformed persisted JSON.
    Parse,
    /// A well-formed response that contained no usable content.
    EmptyResult,
    /// A named local backend was requested but is not configured; carries the
    /// requested name.
    BackendNotFound(String),
}

impl ChatError {
    /// The text this error surfaces to the user.
    pub open spec fn spec_message(self) -> Seq<char> {
        match self {
            ChatError::Network => "network failure"@,
            ChatError::RemoteAPI(m) => m@,
            ChatError::Parse => "malformed response"@,
            ChatError::EmptyResult => "empty result"@,
            ChatError::BackendNotFound(n) => n@,
        }
    }

    pub fn message(&self) -> (r: String)
        ensures
            r@ == self.spec_message(),
    {
        match self {
            ChatError::Network => String::from_str("network failure"),
            ChatError::RemoteAPI(m) => m.clone(),
            ChatError::Parse => String::from_str("malformed response"),
            ChatError::EmptyResult => String::from_str("empty result"),
            ChatError::BackendNotFound(n) => n.clone(),
        }
    }
}

/// A plain error value carrying one line of text.
#[derive(Debug)]
pub struct ErrorMessage {
    message: String,
}

impl View for ErrorMessage {
    type V = Seq<char>;

    closed spec fn view(&self) -> Seq<char> {
        self.message@
    }
}

impl ErrorMessage {
    pub fn new(message: &str) -> (e: ErrorMessage)
        ensures
            e@ == message@,
    {
        ErrorMessage { message: String::from_str(message) }
    }

    /// The carried text; stands in for rendering the error.
    pub fn text(&self) -> (r: &str)
        ensures
            r@ == self@,
    {
        self.message.as_str()
    }
}

} // verus!
