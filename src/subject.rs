//! Subjects: four-part hierarchical message addresses, their parser and builder.
use vstd::prelude::*;
use vstd::string::*;
use crate::error::SubjectError;
use crate::text::{has_no, is_token_char, join_with, lemma_join_split, lemma_split_concat, lemma_split_single, split_on, split_text, token_chars_ok, valid_token, views};

verus! {

/// The four components of a subject, as character sequences.
pub struct SubjectView {
    pub context: Seq<char>,
    pub aggregate: Seq<char>,
    pub event_type: Seq<char>,
    pub version: Seq<char>,
}

/// The components of a subject in order.
pub open spec fn components(v: SubjectView) -> Seq<Seq<char>> {
    seq![v.context, v.aggregate, v.event_type, v.version]
}

/// The text of a subject: its components joined by dots.
pub open spec fn subject_string(v: SubjectView) -> Seq<char> {
    v.context + seq!['.'] + v.aggregate + seq!['.'] + v.event_type + seq!['.'] + v.version
}

/// A subject whose every component is a non-empty token of allowed characters.
pub open spec fn valid_subject(v: SubjectView) -> bool {
    valid_token(v.context) && valid_token(v.aggregate) && valid_token(v.event_type)
        && valid_token(v.version)
}

/// What parsing `s` gives: the four dot-separated components when there are
/// exactly four and each is a valid token, nothing otherwise.
pub open spec fn parse_subject(s: Seq<char>) -> Option<SubjectView> {
    let t = split_on(s, '.');
    if t.len() == 4 && valid_token(t[0]) && valid_token(t[1]) && valid_token(t[2]) && valid_token(
        t[3],
    ) {
        Some(SubjectView { context: t[0], aggregate: t[1], event_type: t[2], version: t[3] })
    } else {
        None
    }
}

/// The views of a sequence of subjects.
pub open spec fn subject_views(v: Seq<Subject>) -> Seq<SubjectView> {
    v.map_values(|s: Subject| s@)
}

pub proof fn lemma_subject_string_split(v: SubjectView)
    requires
        has_no(v.context, '.'),
        has_no(v.aggregate, '.'),
        has_no(v.event_type, '.'),
        has_no(v.version, '.'),
    ensures
        split_on(subject_string(v), '.') == components(v),
{
    let d = seq!['.'];
    lemma_split_single(v.context, '.');
    lemma_split_single(v.aggregate, '.');
    lemma_split_single(v.event_type, '.');
    lemma_split_single(v.version, '.');
    let ab = v.context + d + v.aggregate;
    let abc = ab + d + v.event_type;
    lemma_split_concat(v.context, v.aggregate, '.');
    lemma_split_concat(ab, v.event_type, '.');
    lemma_split_concat(abc, v.version, '.');
    assert(split_on(subject_string(v), '.') =~= components(v));
}

/// Round trip: the text of a valid subject parses back to that same subject.
pub proof fn lemma_parse_round_trip(v: SubjectView)
    requires
        valid_subject(v),
    ensures
        parse_subject(subject_string(v)) == Some(v),
{
    assert(has_no(v.context, '.')) by {
        assert forall|i: int| 0 <= i < v.context.len() implies v.context[i] != '.' by {
            assert(is_token_char(v.context[i]));
        }
    }
    assert(has_no(v.aggregate, '.')) by {
        assert forall|i: int| 0 <= i < v.aggregate.len() implies v.aggregate[i] != '.' by {
            assert(is_token_char(v.aggregate[i]));
        }
    }
    assert(has_no(v.event_type, '.')) by {
        assert forall|i: int| 0 <= i < v.event_type.len() implies v.event_type[i] != '.' by {
            assert(is_token_char(v.event_type[i]));
        }
    }
    assert(has_no(v.version, '.')) by {
        assert forall|i: int| 0 <= i < v.version.len() implies v.version[i] != '.' by {
            assert(is_token_char(v.version[i]));
        }
    }
    lemma_subject_string_split(v);
}

/// A subject that parses is spelled exactly as its components joined by dots.
pub proof fn lemma_parsed_spelling(s: Seq<char>)
    requires
        parse_subject(s) is Some,
    ensures
        subject_string(parse_subject(s)->0) == s,
{
    let t = split_on(s, '.');
    lemma_join_split(s, '.');
    let t1 = t.drop_last().drop_last().drop_last();
    let t2 = t.drop_last().drop_last();
    let t3 = t.drop_last();
    assert(t1 =~= seq![t[0]]);
    assert(join_with(t1, '.') == t[0]);
    assert(join_with(t2, '.') == join_with(t1, '.') + seq!['.'] + t[1]);
    assert(join_with(t3, '.') == join_with(t2, '.') + seq!['.'] + t[2]);
    assert(join_with(t, '.') == join_with(t3, '.') + seq!['.'] + t[3]);
    assert(subject_string(parse_subject(s)->0) =~= join_with(t, '.'));
}

/// Components of a parsed subject.
#[derive(Debug, PartialEq, Eq, Hash)]
pub struct SubjectParts {
    /// Bounded context name (e.g., "people", "organizations")
    pub context: String,
    /// Aggregate root type (e.g., "person", "company")
    pub aggregate: String,
    /// Event type (e.g., "created", "updated", "deleted")
    pub event_type: String,
    /// Schema version (e.g., "v1", "v2")
    pub version: String,
}

impl View for SubjectParts {
    type V = SubjectView;

    open spec fn view(&self) -> SubjectView {
        SubjectView {
            context: self.context@,
            aggregate: self.aggregate@,
            event_type: self.event_type@,
            version: self.version@,
        }
    }
}

impl SubjectParts {
    /// Create new subject parts
    pub fn new(context: &str, aggregate: &str, event_type: &str, version: &str) -> (r: Self)
        ensures
            r@ == (SubjectView {
                context: context@,
                aggregate: aggregate@,
                event_type: event_type@,
                version: version@,
            }),
    {
        SubjectParts {
            context: String::from_str(context),
            aggregate: String::from_str(aggregate),
            event_type: String::from_str(event_type),
            version: String::from_str(version),
        }
    }

    /// Parse a subject string: exactly four dot-separated non-empty tokens of
    /// `[A-Za-z0-9_-]`.
    pub fn parse(subject: &str) -> (r: Result<Self, SubjectError>)
        ensures
            r is Ok <==> parse_subject(subject@) is Some,
            r is Ok ==> r->Ok_0@ == parse_subject(subject@)->0,
            r is Err ==> r->Err_0 is InvalidFormat,
    {
        let parts = split_text(subject, '.');
        if parts.len() != 4 {
            return Err(SubjectError::invalid_format("Subject must have exactly 4 parts separated by dots"));
        }
        let mut i: usize = 0;
        while i < 4
            invariant
                parts@.len() == 4,
                views(parts@) == split_on(subject@, '.'),
                i <= 4,
                forall|j: int| 0 <= j < i ==> valid_token(#[trigger] views(parts@)[j]),
            decreases 4 - i,
        {
            let part = parts[i].as_str();
            if part.is_empty() {
                return Err(SubjectError::invalid_format("Subject parts cannot be empty"));
            }
            if !token_chars_ok(part) {
                return Err(SubjectError::invalid_format("Subject part contains invalid characters"));
            }
            i = i + 1;
        }
        assert(valid_token(views(parts@)[0]));
        assert(valid_token(views(parts@)[1]));
        assert(valid_token(views(parts@)[2]));
        assert(valid_token(views(parts@)[3]));
        Ok(SubjectParts {
            context: parts[0].clone(),
            aggregate: parts[1].clone(),
            event_type: parts[2].clone(),
            version: parts[3].clone(),
        })
    }

    /// Convert back to a subject string
    pub fn to_subject(&self) -> (r: String)
        ensures
            r@ == subject_string(self@),
    {
        proof {
            reveal_strlit(".");
        }
        let mut r = self.context.clone();
        r.append(".");
        r.append(self.aggregate.as_str());
        r.append(".");
        r.append(self.event_type.as_str());
        r.append(".");
        r.append(self.version.as_str());
        r
    }

    /// The subject string of these parts.
    pub fn to_string(&self) -> (r: String)
        ensures
            r@ == subject_string(self@),
    {
        self.to_subject()
    }

    fn duplicate(&self) -> (r: Self)
        ensures
            r@ == self@,
    {
        SubjectParts {
            context: self.context.clone(),
            aggregate: self.aggregate.clone(),
            event_type: self.event_type.clone(),
            version: self.version.clone(),
        }
    }
}

/// A subject: a hierarchical message address `context.aggregate.event_type.version`.
#[derive(Debug, PartialEq, Eq, Hash)]
pub struct Subject {
    raw: String,
    parts: SubjectParts,
}

impl View for Subject {
    type V = SubjectView;

    closed spec fn view(&self) -> SubjectView {
        self.parts@
    }
}

impl Subject {
    #[verifier::type_invariant]
    spec fn spelled_by_parts(&self) -> bool {
        self.raw@ == subject_string(self.parts@)
    }

    /// Create a new subject from a string.
    pub fn new(subject: &str) -> (r: Result<Self, SubjectError>)
        ensures
            r is Ok <==> parse_subject(subject@) is Some,
            r is Ok ==> r->Ok_0@ == parse_subject(subject@)->0 && subject_string(r->Ok_0@)
                == subject@,
            r is Err ==> r->Err_0 is InvalidFormat,
    {
        let parts = SubjectParts::parse(subject)?;
        proof {
            lemma_parsed_spelling(subject@);
        }
        Ok(Subject { raw: String::from_str(subject), parts })
    }

    /// Create a subject from pre-parsed parts
    pub fn from_parts(parts: SubjectParts) -> (r: Self)
        ensures
            r@ == parts@,
    {
        let raw = parts.to_subject();
        Subject { raw, parts }
    }

    /// Get the raw subject string
    pub fn as_str(&self) -> (r: &str)
        ensures
            r@ == subject_string(self@),
    {
        proof {
            use_type_invariant(self);
        }
        self.raw.as_str()
    }

    /// The subject string.
    pub fn to_string(&self) -> (r: String)
        ensures
            r@ == subject_string(self@),
    {
        proof {
            use_type_invariant(self);
        }
        self.raw.clone()
    }

    /// Get the parsed parts
    pub fn parts(&self) -> (r: &SubjectParts)
        ensures
            r@ == self@,
    {
        &self.parts
    }

    /// Decompose into parts
    pub fn into_parts(self) -> (r: SubjectParts)
        ensures
            r@ == self@,
    {
        self.parts
    }

    /// Get the context component
    pub fn context(&self) -> (r: &str)
        ensures
            r@ == self@.context,
    {
        self.parts.context.as_str()
    }

    /// Get the aggregate component
    pub fn aggregate(&self) -> (r: &str)
        ensures
            r@ == self@.aggregate,
    {
        self.parts.aggregate.as_str()
    }

    /// Get the event type component
    pub fn event_type(&self) -> (r: &str)
        ensures
            r@ == self@.event_type,
    {
        self.parts.event_type.as_str()
    }

    /// Get the version component
    pub fn version(&self) -> (r: &str)
        ensures
            r@ == self@.version,
    {
        self.parts.version.as_str()
    }

    /// Create a new subject with a different event type
    pub fn with_event_type(&self, event_type: &str) -> (r: Self)
        ensures
            r@ == (SubjectView { event_type: event_type@, ..self@ }),
    {
        let mut parts = self.parts.duplicate();
        parts.event_type = String::from_str(event_type);
        Self::from_parts(parts)
    }

    /// Create a new subject with a different version
    pub fn with_version(&self, version: &str) -> (r: Self)
        ensures
            r@ == (SubjectView { version: version@, ..self@ }),
    {
        let mut parts = self.parts.duplicate();
        parts.version = String::from_str(version);
        Self::from_parts(parts)
    }

    fn duplicate(&self) -> (r: Self)
        ensures
            r@ == self@,
    {
        Self::from_parts(self.parts.duplicate())
    }

    /// Whether two subjects are equal component by component.
    pub fn same_as(&self, other: &Subject) -> (r: bool)
        ensures
            r == (self@ == other@),
    {
        self.parts.context == other.parts.context && self.parts.aggregate == other.parts.aggregate
            && self.parts.event_type == other.parts.event_type && self.parts.version
            == other.parts.version
    }
}

impl Clone for SubjectParts {
    fn clone(&self) -> (r: Self)
        ensures
            r@ == self@,
    {
        self.duplicate()
    }
}

impl Clone for Subject {
    fn clone(&self) -> (r: Self)
        ensures
            r@ == self@,
    {
        self.duplicate()
    }
}

/// The fields that a subject builder has been given so far.
pub struct SubjectBuilderView {
    pub context: Option<Seq<char>>,
    pub aggregate: Option<Seq<char>>,
    pub event_type: Option<Seq<char>>,
    pub version: Option<Seq<char>>,
}

pub open spec fn opt_view(o: Option<String>) -> Option<Seq<char>> {
    match o {
        Some(s) => Some(s@),
        None => None,
    }
}

/// Builder for constructing subjects
#[derive(Debug, Clone)]
pub struct SubjectBuilder {
    context: Option<String>,
    aggregate: Option<String>,
    event_type: Option<String>,
    version: Option<String>,
}

impl View for SubjectBuilder {
    type V = SubjectBuilderView;

    closed spec fn view(&self) -> SubjectBuilderView {
        SubjectBuilderView {
            context: opt_view(self.context),
            aggregate: opt_view(self.aggregate),
            event_type: opt_view(self.event_type),
            version: opt_view(self.version),
        }
    }
}

impl Default for SubjectBuilder {
    fn default() -> (r: Self)
        ensures
            r@ == (SubjectBuilderView {
                context: None,
                aggregate: None,
                event_type: None,
                version: None,
            }),
    {
        Self::new()
    }
}

impl std::str::FromStr for Subject {
    type Err = SubjectError;

    fn from_str(s: &str) -> Result<Self, SubjectError> {
        Subject::new(s)
    }
}

impl std::str::FromStr for SubjectParts {
    type Err = SubjectError;

    fn from_str(s: &str) -> Result<Self, SubjectError> {
        SubjectParts::parse(s)
    }
}

impl SubjectBuilder {
    /// Create a new subject builder
    pub fn new() -> (r: Self)
        ensures
            r@ == (SubjectBuilderView {
                context: None,
                aggregate: None,
                event_type: None,
                version: None,
            }),
    {
        SubjectBuilder { context: None, aggregate: None, event_type: None, version: None }
    }

    /// Set the context
    pub fn context(self, context: &str) -> (r: Self)
        ensures
            r@ == (SubjectBuilderView { context: Some(context@), ..self@ }),
    {
        SubjectBuilder { context: Some(String::from_str(context)), ..self }
    }

    /// Set the aggregate
    pub fn aggregate(self, aggregate: &str) -> (r: Self)
        ensures
            r@ == (SubjectBuilderView { aggregate: Some(aggregate@), ..self@ }),
    {
        SubjectBuilder { aggregate: Some(String::from_str(aggregate)), ..self }
    }

    /// Set the event type
    pub fn event_type(self, event_type: &str) -> (r: Self)
        ensures
            r@ == (SubjectBuilderView { event_type: Some(event_type@), ..self@ }),
    {
        SubjectBuilder { event_type: Some(String::from_str(event_type)), ..self }
    }

    /// Set the version
    pub fn version(self, version: &str) -> (r: Self)
        ensures
            r@ == (SubjectBuilderView { version: Some(version@), ..self@ }),
    {
        SubjectBuilder { version: Some(String::from_str(version)), ..self }
    }

    /// Build the subject; every component must have been set.
    pub fn build(self) -> (r: Result<Subject, SubjectError>)
        ensures
            r is Ok <==> (self@.context is Some && self@.aggregate is Some && self@.event_type is Some
                && self@.version is Some),
            r is Ok ==> r->Ok_0@ == (SubjectView {
                context: self@.context->0,
                aggregate: self@.aggregate->0,
                event_type: self@.event_type->0,
                version: self@.version->0,
            }),
            r is Err ==> r->Err_0 is ValidationError,
    {
        let context = match self.context {
            Some(c) => c,
            None => return Err(SubjectError::validation_error("Context is required")),
        };
        let aggregate = match self.aggregate {
            Some(a) => a,
            None => return Err(SubjectError::validation_error("Aggregate is required")),
        };
        let event_type = match self.event_type {
            Some(e) => e,
            None => return Err(SubjectError::validation_error("Event type is required")),
        };
        let version = match self.version {
            Some(v) => v,
            None => return Err(SubjectError::validation_error("Version is required")),
        };
        Ok(Subject::from_parts(SubjectParts { context, aggregate, event_type, version }))
    }
}

} // verus!
