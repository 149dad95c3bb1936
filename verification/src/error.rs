//! Error types and handling utilities of the organizer.

use vstd::prelude::*;
use vstd::string::StringExecFns;

verus! {

/// What a failed file-system call reported, carried as a plain value.
#[derive(Debug, Clone, Copy, PartialEq, Eq, Structural)]
pub enum IoErrorKind {
    WouldBlock,
    Interrupted,
    Other,
}

/// The error taxonomy of a run.  Validation and resolution failures
/// short-circuit a run; the per-item failures are reported without aborting
/// the enclosing work.
#[derive(Debug)]
pub enum Error {
    FileSystem { kind: IoErrorKind, message: String },
    UserNotFound { username: String },
    EmptyUsername,
    FileOperation { operation: String, path: String, message: String },
    DirectoryOperation { operation: String, path: String, message: String },
    PermissionDenied { path: String },
    InvalidExtension { extension: String },
    InvalidLanguage { language: String },
    Cancelled,
    InvalidConfig { message: String },
}

/// The human-readable text of an error.
pub open spec fn spec_error_text(e: Error) -> Seq<char> {
    match e {
        Error::FileSystem { message, .. } => "File system error: "@ + message@,
        Error::UserNotFound { username } => "User not found: "@ + username@,
        Error::EmptyUsername => "Empty username provided"@,
        Error::FileOperation { operation, path, message } => "File operation failed: "@
            + operation@ + " on "@ + path@ + " - "@ + message@,
        Error::DirectoryOperation { operation, path, message } => "Directory operation failed: "@
            + operation@ + " on "@ + path@ + " - "@ + message@,
        Error::PermissionDenied { path } => "Permission denied: "@ + path@,
        Error::InvalidExtension { extension } => "Invalid file extension: "@ + extension@,
        Error::InvalidLanguage { language } => "Invalid language code: "@ + language@,
        Error::Cancelled => "Cancelled operation"@,
        Error::InvalidConfig { message } => "Invalid configuration: "@ + message@,
    }
}

/// Whether an error ends the whole run rather than one item.
pub open spec fn spec_is_fatal(e: Error) -> bool {
    ||| e is PermissionDenied
    ||| e is InvalidConfig
    ||| e is InvalidLanguage
    ||| e is EmptyUsername
}

/// Whether a failed operation is worth retrying: a file-system call that
/// merely would have blocked or was interrupted.
pub open spec fn spec_is_retryable(e: Error) -> bool {
    e matches Error::FileSystem { kind, .. } && (kind == IoErrorKind::WouldBlock || kind
        == IoErrorKind::Interrupted)
}

impl Error {
    /// The human-readable text of this error.
    pub fn message(&self) -> (r: String)
        ensures
            r@ == spec_error_text(*self),
    {
        match self {
            Error::FileSystem { message, .. } => {
                let mut r: String = "File system error: ".to_owned();
                r.append(message.as_str());
                r
            },
            Error::UserNotFound { username } => {
                let mut r: String = "User not found: ".to_owned();
                r.append(username.as_str());
                r
            },
            Error::EmptyUsername => "Empty username provided".to_owned(),
            Error::FileOperation { operation, path, message } => {
                let mut r: String = "File operation failed: ".to_owned();
                r.append(operation.as_str());
                r.append(" on ");
                r.append(path.as_str());
                r.append(" - ");
                r.append(message.as_str());
                r
            },
            Error::DirectoryOperation { operation, path, message } => {
                let mut r: String = "Directory operation failed: ".to_owned();
                r.append(operation.as_str());
                r.append(" on ");
                r.append(path.as_str());
                r.append(" - ");
                r.append(message.as_str());
                r
            },
            Error::PermissionDenied { path } => {
                let mut r: String = "Permission denied: ".to_owned();
                r.append(path.as_str());
                r
            },
            Error::InvalidExtension { extension } => {
                let mut r: String = "Invalid file extension: ".to_owned();
                r.append(extension.as_str());
                r
            },
            Error::InvalidLanguage { language } => {
                let mut r: String = "Invalid language code: ".to_owned();
                r.append(language.as_str());
                r
            },
            Error::Cancelled => "Cancelled operation".to_owned(),
            Error::InvalidConfig { message } => {
                let mut r: String = "Invalid configuration: ".to_owned();
                r.append(message.as_str());
                r
            },
        }
    }
}

/// Context attached to an error for diagnosis.
#[derive(Debug, Clone)]
pub struct ErrorContext {
    pub operation: String,
    pub path: Option<String>,
    pub user_info: Option<String>,
}

impl ErrorContext {
    /// A fresh context naming the operation.
    pub fn new(operation: &str) -> (r: ErrorContext)
        ensures
            r.operation@ == operation@,
            r.path is None,
            r.user_info is None,
    {
        ErrorContext { operation: operation.to_owned(), path: None, user_info: None }
    }

    /// The same context with a path attached.
    pub fn with_path(self, path: &str) -> (r: ErrorContext)
        ensures
            r.operation == self.operation,
            r.path matches Some(p) && p@ == path@,
            r.user_info == self.user_info,
    {
        ErrorContext { path: Some(path.to_owned()), ..self }
    }

    /// The same context with user information attached.
    pub fn with_user_info(self, user_info: &str) -> (r: ErrorContext)
        ensures
            r.operation == self.operation,
            r.path == self.path,
            r.user_info matches Some(u) && u@ == user_info@,
    {
        ErrorContext { user_info: Some(user_info.to_owned()), ..self }
    }
}

/// Error handling utilities.
pub struct ErrorHandler;

impl ErrorHandler {
    /// Wraps a failed file operation's details into an error value.
    pub fn handle_file_operation(operation: &str, path: &str, message: &str) -> (r: Error)
        ensures
            r matches Error::FileOperation { operation: o, path: p, message: m } && o@
                == operation@ && p@ == path@ && m@ == message@,
    {
        Error::FileOperation {
            operation: operation.to_owned(),
            path: path.to_owned(),
            message: message.to_owned(),
        }
    }

    /// Wraps a failed directory operation's details into an error value.
    pub fn handle_directory_operation(operation: &str, path: &str, message: &str) -> (r: Error)
        ensures
            r matches Error::DirectoryOperation { operation: o, path: p, message: m } && o@
                == operation@ && p@ == path@ && m@ == message@,
    {
        Error::DirectoryOperation {
            operation: operation.to_owned(),
            path: path.to_owned(),
            message: message.to_owned(),
        }
    }

    /// Whether a failed operation is worth retrying.
    pub fn is_retryable_error(error: &Error) -> (r: bool)
        ensures
            r == spec_is_retryable(*error),
    {
        match error {
            Error::FileSystem { kind: IoErrorKind::WouldBlock, .. } => true,
            Error::FileSystem { kind: IoErrorKind::Interrupted, .. } => true,
            _ => false,
        }
    }

    /// Whether an error ends the whole run rather than one item.
    pub fn is_fatal_error(error: &Error) -> (r: bool)
        ensures
            r == spec_is_fatal(*error),
    {
        match error {
            Error::PermissionDenied { .. } => true,
            Error::InvalidConfig { .. } => true,
            Error::InvalidLanguage { .. } => true,
            Error::EmptyUsername => true,
            _ => false,
        }
    }
}

} // verus!
