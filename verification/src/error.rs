//! The error type shared by every component.

use vstd::prelude::*;

verus! {

/// Which class of failure an [`AppError`] reports.
#[derive(Clone, Copy, Debug, PartialEq, Eq, Structural)]
pub enum ErrorKind {
    Database,
    Network,
    Io,
    Parse,
    Validation,
    NotFound,
    Keyring,
    Other,
}

/// A failure, tagged by its class and carrying a human-readable message.
#[derive(Debug)]
pub enum AppError {
    /// The local persistence layer failed.
    Database(String),
    /// A remote source could not be reached or answered with a failure.
    Network(String),
    /// A local file could not be read.
    Io(String),
    /// A calendar document is malformed at its top level.
    Parse(String),
    /// A configuration value is missing or unusable.
    Validation(String),
    /// Something that was asked for does not exist.
    NotFound(String),
    /// The credential store failed.
    Keyring(String),
    /// Any other failure.
    Other(String),
}

impl AppError {
    /// The class of this failure.
    pub open spec fn kind(&self) -> ErrorKind {
        match self {
            AppError::Database(_) => ErrorKind::Database,
            AppError::Network(_) => ErrorKind::Network,
            AppError::Io(_) => ErrorKind::Io,
            AppError::Parse(_) => ErrorKind::Parse,
            AppError::Validation(_) => ErrorKind::Validation,
            AppError::NotFound(_) => ErrorKind::NotFound,
            AppError::Keyring(_) => ErrorKind::Keyring,
            AppError::Other(_) => ErrorKind::Other,
        }
    }

    /// The message of this failure.
    pub open spec fn text(&self) -> Seq<char> {
        match self {
            AppError::Database(m) => m@,
            AppError::Network(m) => m@,
            AppError::Io(m) => m@,
            AppError::Parse(m) => m@,
            AppError::Validation(m) => m@,
            AppError::NotFound(m) => m@,
            AppError::Keyring(m) => m@,
            AppError::Other(m) => m@,
        }
    }

    /// Returns the class of this failure.
    pub fn error_kind(&self) -> (kind: ErrorKind)
        ensures
            kind == self.kind(),
    {
        match self {
            AppError::Database(_) => ErrorKind::Database,
            AppError::Network(_) => ErrorKind::Network,
            AppError::Io(_) => ErrorKind::Io,
            AppError::Parse(_) => ErrorKind::Parse,
            AppError::Validation(_) => ErrorKind::Validation,
            AppError::NotFound(_) => ErrorKind::NotFound,
            AppError::Keyring(_) => ErrorKind::Keyring,
            AppError::Other(_) => ErrorKind::Other,
        }
    }

    /// Returns a copy of the message of this failure.
    pub fn message(&self) -> (message: String)
        ensures
            message@ == self.text(),
    {
        match self {
            AppError::Database(m) => m.clone(),
            AppError::Network(m) => m.clone(),
            AppError::Io(m) => m.clone(),
            AppError::Parse(m) => m.clone(),
            AppError::Validation(m) => m.clone(),
            AppError::NotFound(m) => m.clone(),
            AppError::Keyring(m) => m.clone(),
            AppError::Other(m) => m.clone(),
        }
    }
}

} // verus!
