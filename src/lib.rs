//! Subject addressing and routing algebra for publish/subscribe messaging.
//!
//! A subject is a four-part hierarchical address
//! (`context.aggregate.event_type.version`). Patterns match subjects with the
//! wildcards `*` (one token) and `>` (one or more trailing tokens) and are
//! ordered by specificity; permissions, the composition algebra and the
//! translator all dispatch on them.
use vstd::prelude::*;

pub mod algebra;
pub mod custom;
pub mod error;
pub mod parser;
pub mod pattern;
pub mod permissions;
pub mod registry;
pub mod subject;
pub mod text;
pub mod translator;

pub use algebra::{AlgebraOperation, CompositionRule, SubjectAlgebra, SubjectLattice, Transformation};
pub use custom::{PartsValidator, SubjectComposer, SubjectParse, SubjectTransform};
pub use error::{Result, SubjectError};
pub use parser::{ParseRule, ParserBuilder, SubjectParser, ValidationRule};
pub use pattern::{Pattern, PatternMatcher};
pub use permissions::{Operation, PermissionRule, Permissions, PermissionsBuilder, Policy};
pub use subject::{Subject, SubjectBuilder, SubjectParts};
pub use translator::{MessageTranslator, TranslationRule, Translator, TranslatorBuilder};

verus! {

} // verus!
