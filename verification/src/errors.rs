//! The error taxonomy of the snippet-execution service. A timeout is not an
//! error: it is a first-class outcome (see `languages::ContainerResponse`).

use vstd::prelude::*;

verus! {

/// Every per-request or startup failure the service can surface.
#[derive(Clone, Copy, Debug, PartialEq, Eq, Structural)]
pub enum ExecError {
    /// A required root or scratch path is missing or unreadable; fatal at startup.
    ConfigurationError,
    /// The command text does not match the run-command grammar.
    InvalidCommand,
    /// The requested identifier is absent from the language registry.
    UnsupportedLanguage,
    /// The isolated process failed to start; not retried.
    LaunchError,
    /// A pipe read or write failed mid-run; the run is aborted.
    IoError,
    /// Captured output bytes are not valid UTF-8; never silently substituted.
    EncodingError,
}

impl ExecError {
    /// A human-readable description of the failure.
    pub fn message(&self) -> (r: String)
        ensures
            *self is ConfigurationError ==> r@ == "Configuration path is missing or unreadable"@,
            *self is InvalidCommand ==> r@ == "RegEx is not match"@,
            *self is UnsupportedLanguage ==> r@ == "Language is not yet supported"@,
            *self is LaunchError ==> r@ == "Isolated process failed to start"@,
            *self is IoError ==> r@ == "Pipe read or write failed"@,
            *self is EncodingError ==> r@ == "Captured bytes are not valid UTF-8"@,
    {
        match self {
            ExecError::ConfigurationError => "Configuration path is missing or unreadable".to_owned(),
            ExecError::InvalidCommand => "RegEx is not match".to_owned(),
            ExecError::UnsupportedLanguage => "Language is not yet supported".to_owned(),
            ExecError::LaunchError => "Isolated process failed to start".to_owned(),
            ExecError::IoError => "Pipe read or write failed".to_owned(),
            ExecError::EncodingError => "Captured bytes are not valid UTF-8".to_owned(),
        }
    }
}

} // verus!
