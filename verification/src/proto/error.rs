//! Canonical error model. Every component maps its failures onto
//! `QwanError` with a stable `QwanCode`.

use vstd::prelude::*;
use crate::proto::id::CaseId;
use crate::text::{owned, push_str};

verus! {

/// Canonical error codes, stable across the wire.
#[derive(Debug, Clone, Copy, PartialEq, Eq, Structural)]
pub enum QwanCode {
    /// Caller supplied an invalid argument.
    InvalidArg,
    /// A referenced resource was not found.
    NotFound,
    /// Authentication failed (bad case token).
    Unauthenticated,
    /// Authenticated but not permitted.
    PermissionDenied,
    /// The resource already exists.
    AlreadyExists,
    /// A precondition for the operation is not met.
    FailedPrecondition,
    /// The operation cannot be completed right now.
    Unavailable,
    /// Host resource caps exhausted (no free slot).
    ResourceExhausted,
    /// Internal or unexpected failure.
    Internal,
    /// Deadline exceeded.
    DeadlineExceeded,
    /// An upstream service returned an error.
    Upstream,
}

/// The HTTP status suggested for each code.
pub open spec fn status_of(c: QwanCode) -> u16 {
    match c {
        QwanCode::InvalidArg | QwanCode::FailedPrecondition => 400,
        QwanCode::Unauthenticated => 401,
        QwanCode::PermissionDenied => 403,
        QwanCode::NotFound => 404,
        QwanCode::AlreadyExists => 409,
        QwanCode::ResourceExhausted => 429,
        QwanCode::Unavailable => 503,
        QwanCode::DeadlineExceeded => 504,
        QwanCode::Internal | QwanCode::Upstream => 502,
    }
}

/// The display name of each code (its variant name).
pub open spec fn code_name(c: QwanCode) -> Seq<char> {
    match c {
        QwanCode::InvalidArg => "InvalidArg"@,
        QwanCode::NotFound => "NotFound"@,
        QwanCode::Unauthenticated => "Unauthenticated"@,
        QwanCode::PermissionDenied => "PermissionDenied"@,
        QwanCode::AlreadyExists => "AlreadyExists"@,
        QwanCode::FailedPrecondition => "FailedPrecondition"@,
        QwanCode::Unavailable => "Unavailable"@,
        QwanCode::ResourceExhausted => "ResourceExhausted"@,
        QwanCode::Internal => "Internal"@,
        QwanCode::DeadlineExceeded => "DeadlineExceeded"@,
        QwanCode::Upstream => "Upstream"@,
    }
}

impl QwanCode {
    /// Suggested HTTP status for a code.
    pub fn http_status(self) -> (r: u16)
        ensures
            r == status_of(self),
    {
        match self {
            QwanCode::InvalidArg | QwanCode::FailedPrecondition => 400,
            QwanCode::Unauthenticated => 401,
            QwanCode::PermissionDenied => 403,
            QwanCode::NotFound => 404,
            QwanCode::AlreadyExists => 409,
            QwanCode::ResourceExhausted => 429,
            QwanCode::Unavailable => 503,
            QwanCode::DeadlineExceeded => 504,
            QwanCode::Internal | QwanCode::Upstream => 502,
        }
    }

    /// The code's display text (its variant name).
    pub fn name(self) -> (r: &'static str)
        ensures
            r@ == code_name(self),
    {
        match self {
            QwanCode::InvalidArg => "InvalidArg",
            QwanCode::NotFound => "NotFound",
            QwanCode::Unauthenticated => "Unauthenticated",
            QwanCode::PermissionDenied => "PermissionDenied",
            QwanCode::AlreadyExists => "AlreadyExists",
            QwanCode::FailedPrecondition => "FailedPrecondition",
            QwanCode::Unavailable => "Unavailable",
            QwanCode::ResourceExhausted => "ResourceExhausted",
            QwanCode::Internal => "Internal",
            QwanCode::DeadlineExceeded => "DeadlineExceeded",
            QwanCode::Upstream => "Upstream",
        }
    }
}

/// The canonical qwanban error.
#[derive(Debug)]
pub enum QwanError {
    /// A structured error: code, message and optionally the case it concerns.
    Structured { code: QwanCode, message: String, case_id: Option<CaseId> },
    /// A wrapped foreign error, carried by its display text.
    Other(String),
}

/// The result type used across the library.
pub type QwanResult<T> = Result<T, QwanError>;

/// Is `e` the structured error with this code and message and no case?
pub open spec fn is_error(e: QwanError, code: QwanCode, message: Seq<char>) -> bool {
    e matches QwanError::Structured { code: c, message: m, case_id: None } && c == code && m@
        == message
}

/// The code an error reports (`Internal` for wrapped foreign errors).
pub open spec fn code_of(e: QwanError) -> QwanCode {
    match e {
        QwanError::Structured { code, .. } => code,
        QwanError::Other(_) => QwanCode::Internal,
    }
}

/// The message an error reports.
pub open spec fn message_of(e: QwanError) -> Seq<char> {
    match e {
        QwanError::Structured { message, .. } => message@,
        QwanError::Other(s) => s@,
    }
}

/// The display text of an error: `"<code>: <message>"` for structured
/// errors, the wrapped text otherwise.
pub open spec fn display_of(e: QwanError) -> Seq<char> {
    match e {
        QwanError::Structured { code, message, .. } => code_name(code) + ": "@ + message@,
        QwanError::Other(s) => s@,
    }
}

impl QwanError {
    /// A structured error with no case attached.
    pub fn new(code: QwanCode, message: &str) -> (r: Self)
        ensures
            is_error(r, code, message@),
    {
        QwanError::Structured { code, message: owned(message), case_id: None }
    }

    /// Attach the case an error pertains to (structured errors only).
    pub fn with_case(self, case_id: CaseId) -> (r: Self)
        ensures
            match self {
                QwanError::Structured { code, message, .. } => r == (QwanError::Structured {
                    code,
                    message,
                    case_id: Some(case_id),
                }),
                QwanError::Other(s) => r == QwanError::Other(s),
            },
    {
        match self {
            QwanError::Structured { code, message, .. } => QwanError::Structured {
                code,
                message,
                case_id: Some(case_id),
            },
            QwanError::Other(s) => QwanError::Other(s),
        }
    }

    /// The error's code.
    pub fn code(&self) -> (r: QwanCode)
        ensures
            r == code_of(*self),
    {
        match self {
            QwanError::Structured { code, .. } => *code,
            QwanError::Other(_) => QwanCode::Internal,
        }
    }

    /// The error's message.
    pub fn message(&self) -> (r: String)
        ensures
            r@ == message_of(*self),
    {
        match self {
            QwanError::Structured { message, .. } => message.clone(),
            QwanError::Other(s) => s.clone(),
        }
    }

    /// The error's display text.
    pub fn to_display_string(&self) -> (r: String)
        ensures
            r@ == display_of(*self),
    {
        match self {
            QwanError::Structured { code, message, .. } => {
                let mut s = owned(code.name());
                push_str(&mut s, ": ");
                push_str(&mut s, message.as_str());
                s
            },
            QwanError::Other(s) => s.clone(),
        }
    }
}

/// Convenience: an invalid-argument error.
pub fn invalid_arg(msg: &str) -> (r: QwanError)
    ensures
        is_error(r, QwanCode::InvalidArg, msg@),
{
    QwanError::new(QwanCode::InvalidArg, msg)
}

/// Convenience: a not-found error.
pub fn not_found(msg: &str) -> (r: QwanError)
    ensures
        is_error(r, QwanCode::NotFound, msg@),
{
    QwanError::new(QwanCode::NotFound, msg)
}

/// Convenience: an internal error.
pub fn internal(msg: &str) -> (r: QwanError)
    ensures
        is_error(r, QwanCode::Internal, msg@),
{
    QwanError::new(QwanCode::Internal, msg)
}

} // verus!
