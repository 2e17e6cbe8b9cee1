//! The error that the library reports.

use vstd::prelude::*;
use vstd::string::StringExecFns;

verus! {

/// What failed.
#[derive(Debug, Clone, Copy, PartialEq, Eq, Structural)]
pub enum ErrorKind {
    /// The model provider: transport, authentication, or a response that is not JSON.
    Provider,
    /// The runtime around a command or a plugin: a spawn, a load, a trap, guest memory.
    Runtime,
    /// The way the program was invoked.
    Usage,
}

/// A failure, with the text that describes it.
#[derive(Debug, Clone, PartialEq, Eq)]
pub struct WarpError {
    pub kind: ErrorKind,
    pub message: String,
}

/// The words that introduce an error of the given kind in a report.
pub open spec fn kind_label(kind: ErrorKind) -> Seq<char> {
    match kind {
        ErrorKind::Provider => "provider error"@,
        ErrorKind::Runtime => "runtime error"@,
        ErrorKind::Usage => "usage error"@,
    }
}

impl WarpError {
    /// An error of the given kind.
    pub fn new(kind: ErrorKind, message: &str) -> (e: WarpError)
        ensures
            e.kind == kind,
            e.message@ == message@,
    {
        WarpError { kind, message: message.to_string() }
    }

    /// A provider error.
    pub fn provider(message: &str) -> (e: WarpError)
        ensures
            e.kind == ErrorKind::Provider,
            e.message@ == message@,
    {
        WarpError::new(ErrorKind::Provider, message)
    }

    /// A runtime error.
    pub fn runtime(message: &str) -> (e: WarpError)
        ensures
            e.kind == ErrorKind::Runtime,
            e.message@ == message@,
    {
        WarpError::new(ErrorKind::Runtime, message)
    }

    /// A usage error.
    pub fn usage(message: &str) -> (e: WarpError)
        ensures
            e.kind == ErrorKind::Usage,
            e.message@ == message@,
    {
        WarpError::new(ErrorKind::Usage, message)
    }

    /// The line that reports this error: the label of its kind, a colon and
    /// a space, then the message.
    pub fn to_string(&self) -> (line: String)
        ensures
            line@ == kind_label(self.kind) + ": "@ + self.message@,
    {
        let mut line = match self.kind {
            ErrorKind::Provider => "provider error".to_string(),
            ErrorKind::Runtime => "runtime error".to_string(),
            ErrorKind::Usage => "usage error".to_string(),
        };
        line.append(": ");
        line.append(self.message.as_str());
        line
    }
}

} // verus!
