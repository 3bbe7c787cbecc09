//! Error values of the subject operations.
use vstd::prelude::*;
use vstd::string::*;

verus! {

/// Errors that can occur during subject operations.
#[derive(Debug, Clone, PartialEq, Eq)]
pub enum SubjectError {
    /// Invalid subject format
    InvalidFormat(String),
    /// Invalid pattern
    InvalidPattern(String),
    /// Parse error
    ParseError(String),
    /// Permission denied
    PermissionDenied(String),
    /// Translation error
    TranslationError(String),
    /// Composition error
    CompositionError(String),
    /// Validation error
    ValidationError(String),
    /// Not found
    NotFound(String),
}

/// Result type of the subject operations.
pub type Result<T> = core::result::Result<T, SubjectError>;

/// The heading that the text of each kind of error starts with.
pub open spec fn error_heading(e: SubjectError) -> Seq<char> {
    match e {
        SubjectError::InvalidFormat(_) => "Invalid subject format: "@,
        SubjectError::InvalidPattern(_) => "Invalid pattern: "@,
        SubjectError::ParseError(_) => "Parse error: "@,
        SubjectError::PermissionDenied(_) => "Permission denied: "@,
        SubjectError::TranslationError(_) => "Translation error: "@,
        SubjectError::CompositionError(_) => "Composition error: "@,
        SubjectError::ValidationError(_) => "Validation error: "@,
        SubjectError::NotFound(_) => "Not found: "@,
    }
}

/// The message that an error carries.
pub open spec fn error_message(e: SubjectError) -> Seq<char> {
    match e {
        SubjectError::InvalidFormat(m) => m@,
        SubjectError::InvalidPattern(m) => m@,
        SubjectError::ParseError(m) => m@,
        SubjectError::PermissionDenied(m) => m@,
        SubjectError::TranslationError(m) => m@,
        SubjectError::CompositionError(m) => m@,
        SubjectError::ValidationError(m) => m@,
        SubjectError::NotFound(m) => m@,
    }
}

impl SubjectError {
    /// Create an invalid format error
    pub fn invalid_format(msg: &str) -> (r: Self)
        ensures
            r is InvalidFormat,
            error_message(r) == msg@,
    {
        SubjectError::InvalidFormat(String::from_str(msg))
    }

    /// Create an invalid pattern error
    pub fn invalid_pattern(msg: &str) -> (r: Self)
        ensures
            r is InvalidPattern,
            error_message(r) == msg@,
    {
        SubjectError::InvalidPattern(String::from_str(msg))
    }

    /// Create a parse error
    pub fn parse_error(msg: &str) -> (r: Self)
        ensures
            r is ParseError,
            error_message(r) == msg@,
    {
        SubjectError::ParseError(String::from_str(msg))
    }

    /// Create a permission denied error
    pub fn permission_denied(msg: &str) -> (r: Self)
        ensures
            r is PermissionDenied,
            error_message(r) == msg@,
    {
        SubjectError::PermissionDenied(String::from_str(msg))
    }

    /// Create a translation error
    pub fn translation_error(msg: &str) -> (r: Self)
        ensures
            r is TranslationError,
            error_message(r) == msg@,
    {
        SubjectError::TranslationError(String::from_str(msg))
    }

    /// Create a composition error
    pub fn composition_error(msg: &str) -> (r: Self)
        ensures
            r is CompositionError,
            error_message(r) == msg@,
    {
        SubjectError::CompositionError(String::from_str(msg))
    }

    /// Create a validation error
    pub fn validation_error(msg: &str) -> (r: Self)
        ensures
            r is ValidationError,
            error_message(r) == msg@,
    {
        SubjectError::ValidationError(String::from_str(msg))
    }

    /// Create a not found error
    pub fn not_found(msg: &str) -> (r: Self)
        ensures
            r is NotFound,
            error_message(r) == msg@,
    {
        SubjectError::NotFound(String::from_str(msg))
    }

    /// The human-readable text of the error: its heading, then its message.
    pub fn to_string(&self) -> (r: String)
        ensures
            r@ == error_heading(*self) + error_message(*self),
    {
        let (heading, msg) = match self {
            SubjectError::InvalidFormat(m) => ("Invalid subject format: ", m),
            SubjectError::InvalidPattern(m) => ("Invalid pattern: ", m),
            SubjectError::ParseError(m) => ("Parse error: ", m),
            SubjectError::PermissionDenied(m) => ("Permission denied: ", m),
            SubjectError::TranslationError(m) => ("Translation error: ", m),
            SubjectError::CompositionError(m) => ("Composition error: ", m),
            SubjectError::ValidationError(m) => ("Validation error: ", m),
            SubjectError::NotFound(m) => ("Not found: ", m),
        };
        let mut r = String::from_str(heading);
        r.append(msg.as_str());
        r
    }
}

} // verus!
