use vstd::prelude::*;

use crate::text::{owned, push_str};

verus! {

#[verifier::external_type_specification]
#[verifier::external_body]
pub struct ExIoError(std::io::Error);

#[verifier::external_type_specification]
#[verifier::external_body]
pub struct ExJsonError(serde_json::Error);

/// Why reading, parsing, checking or writing the saved board failed.
#[derive(Debug)]
pub enum AppError {
    FileNotFound(String),
    PermissionDenied(String),
    Io { path: String, source: std::io::Error },
    Json(serde_json::Error),
    Validation(String),
}

/// The kinds of I/O failure that the application tells apart.
#[derive(Debug, Clone, Copy, PartialEq, Eq, Structural)]
pub enum IoErrorClass {
    NotFound,
    PermissionDenied,
    Other,
}

/// How `std::io::Error::kind` classes `error`: `NotFound`,
/// `PermissionDenied`, or any other kind. The kind is part of the error
/// value, so the class depends on the error alone.
pub uninterp spec fn io_error_kind_class(error: std::io::Error) -> IoErrorClass;

/// Calls `std::io::Error::kind` and tells `NotFound` and `PermissionDenied`
/// apart from every other kind; the result is named `io_error_kind_class`.
#[verifier::external_body]
fn io_error_class(error: &std::io::Error) -> (r: IoErrorClass)
    ensures
        r == io_error_kind_class(*error),
{
    match error.kind() {
        std::io::ErrorKind::NotFound => IoErrorClass::NotFound,
        std::io::ErrorKind::PermissionDenied => IoErrorClass::PermissionDenied,
        _ => IoErrorClass::Other,
    }
}

impl AppError {
    /// The message shown to the user for this error.
    pub open spec fn message_spec(&self) -> Seq<char> {
        match self {
            AppError::FileNotFound(path) => "No saved board found at "@ + path@
                + ". Starting with default board."@,
            AppError::PermissionDenied(path) => "Permission denied for "@ + path@
                + ". Check file access rights."@,
            AppError::Io { path, .. } => "Storage I/O error at "@ + path@,
            AppError::Json(_) => "Saved board is corrupted (invalid JSON). Starting with default board."@,
            AppError::Validation(message) => "Saved data is invalid: "@ + message@,
        }
    }

    /// The error for an I/O failure of class `class` at `path`: a missing
    /// file, a refused access, or any other failure with its source kept.
    pub fn from_io_class(path: String, class: IoErrorClass, error: std::io::Error) -> (r: AppError)
        ensures
            match class {
                IoErrorClass::NotFound => r matches AppError::FileNotFound(p) && p@ == path@,
                IoErrorClass::PermissionDenied => r matches AppError::PermissionDenied(p) && p@ == path@,
                IoErrorClass::Other => r matches AppError::Io { path: p, source } && p@ == path@ && source == error,
            },
    {
        match class {
            IoErrorClass::NotFound => AppError::FileNotFound(path),
            IoErrorClass::PermissionDenied => AppError::PermissionDenied(path),
            IoErrorClass::Other => AppError::Io { path, source: error },
        }
    }

    /// Turns an I/O failure at the path shown as `path` into the
    /// application's error: a missing file, a refused access, or any other
    /// failure with its source kept; the path is kept in every variant.
    pub fn from_io(path: String, error: std::io::Error) -> (r: AppError)
        ensures
            match io_error_kind_class(error) {
                IoErrorClass::NotFound => r matches AppError::FileNotFound(p) && p@ == path@,
                IoErrorClass::PermissionDenied => r matches AppError::PermissionDenied(p) && p@ == path@,
                IoErrorClass::Other => r matches AppError::Io { path: p, source } && p@ == path@ && source == error,
            },
    {
        let class = io_error_class(&error);
        Self::from_io_class(path, class, error)
    }

    /// A short message for the user.
    pub fn user_message(&self) -> (r: String)
        ensures
            r@ == self.message_spec(),
    {
        match self {
            AppError::FileNotFound(path) => {
                let mut s = owned("No saved board found at ");
                push_str(&mut s, path.as_str());
                push_str(&mut s, ". Starting with default board.");
                s
            },
            AppError::PermissionDenied(path) => {
                let mut s = owned("Permission denied for ");
                push_str(&mut s, path.as_str());
                push_str(&mut s, ". Check file access rights.");
                s
            },
            AppError::Json(_) => owned(
                "Saved board is corrupted (invalid JSON). Starting with default board.",
            ),
            AppError::Validation(message) => {
                let mut s = owned("Saved data is invalid: ");
                push_str(&mut s, message.as_str());
                s
            },
            AppError::Io { path, .. } => {
                let mut s = owned("Storage I/O error at ");
                push_str(&mut s, path.as_str());
                s
            },
        }
    }
}

} // verus!
