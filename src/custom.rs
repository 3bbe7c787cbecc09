//! Interfaces through which callers supply their own rule functions. The
//! library calls them and assumes nothing of what they return: their
//! implementations are ordinary Rust outside the verified library.
use vstd::prelude::*;
use crate::error::SubjectError;
use crate::subject::{Subject, SubjectParts};

verus! {

/// A rewrite of one subject into another, supplied by the caller.
pub trait SubjectTransform: Send + Sync {
    /// Rewrite `subject`.
    fn apply(&self, subject: &Subject) -> Result<Subject, SubjectError>;
}

/// A combination of two subjects into one, supplied by the caller.
pub trait SubjectComposer: Send + Sync {
    /// Combine `left` and `right`.
    fn compose(&self, left: &Subject, right: &Subject) -> Result<Subject, SubjectError>;
}

/// A parser of subject text into components, supplied by the caller.
pub trait SubjectParse: Send + Sync {
    /// Parse `subject`.
    fn parse(&self, subject: &str) -> Result<SubjectParts, SubjectError>;
}

/// A check on parsed components, supplied by the caller.
pub trait PartsValidator: Send + Sync {
    /// Accept or reject `parts`.
    fn validate(&self, parts: &SubjectParts) -> Result<(), SubjectError>;
}

} // verus!
