//! Subject parsing with per-context parse rules and a chain of validators.
use vstd::prelude::*;
use vstd::string::*;
use crate::custom::{PartsValidator, SubjectParse};
use crate::error::SubjectError;
use crate::registry::{name_index, name_views, registered, Registry};
use crate::subject::{parse_subject, Subject, SubjectParts, SubjectView};
use crate::text::{join_with, split_on, split_text, views};

verus! {

/// The longest context, in characters, that the standard rules accept.
pub const MAX_CONTEXT_LEN: usize = 32;

/// How a parse rule turns text into components.
pub enum ParserFn {
    /// At least three dot-separated tokens: the first is the context, the last
    /// two the event type and version, and those between, joined by dots, the
    /// aggregate.
    Flexible,
    /// A parser supplied by the caller.
    Custom(Box<dyn SubjectParse>),
}

/// What flexible parsing gives for `s`.
pub open spec fn flexible_parts(s: Seq<char>) -> Option<SubjectView> {
    let t = split_on(s, '.');
    if t.len() < 3 {
        None
    } else {
        Some(
            SubjectView {
                context: t[0],
                aggregate: join_with(t.subrange(1, t.len() - 2), '.'),
                event_type: t[t.len() - 2],
                version: t[t.len() - 1],
            },
        )
    }
}

/// What a parser gives for `s`: `Some(Some(v))` the components `v`,
/// `Some(None)` an error, `None` when the caller supplied the parser.
pub open spec fn parser_outcome(f: ParserFn, s: Seq<char>) -> Option<Option<SubjectView>> {
    match f {
        ParserFn::Flexible => Some(flexible_parts(s)),
        ParserFn::Custom(_) => None,
    }
}

/// A custom parsing rule
pub struct ParseRule {
    /// Name of the rule
    pub name: String,
    /// Description
    pub description: String,
    /// Parser function
    pub parser: ParserFn,
}

impl ParseRule {
    /// Create a new parse rule with a caller-supplied parser
    pub fn new(name: &str, description: &str, parser: Box<dyn SubjectParse>) -> (r: Self)
        ensures
            r.name@ == name@,
            r.description@ == description@,
            r.parser is Custom,
    {
        ParseRule {
            name: String::from_str(name),
            description: String::from_str(description),
            parser: ParserFn::Custom(parser),
        }
    }

    /// Parse a subject using this rule
    pub fn parse(&self, subject: &str) -> (r: Result<SubjectParts, SubjectError>)
        ensures
            match parser_outcome(self.parser, subject@) {
                Some(Some(v)) => r is Ok && r->Ok_0@ == v,
                Some(None) => r is Err && r->Err_0 is InvalidFormat,
                None => true,
            },
    {
        match &self.parser {
            ParserFn::Flexible => {
                let parts = split_text(subject, '.');
                let ghost t = views(parts@);
                let n = parts.len();
                if n < 3 {
                    return Err(
                        SubjectError::invalid_format("Flexible format requires at least 3 parts"),
                    );
                }
                let mut aggregate = parts[1].clone();
                let mut i: usize = 2;
                assert(t.subrange(1, 2) =~= seq![t[1]]);
                while i < n - 2
                    invariant
                        t == views(parts@),
                        n == t.len(),
                        n >= 3,
                        2 <= i <= n - 2 || (i == 2 && n == 3),
                        i <= n,
                        aggregate@ == join_with(t.subrange(1, i as int), '.'),
                    decreases n - i,
                {
                    proof {
                        reveal_strlit(".");
                    }
                    assert(t.subrange(1, i + 1).drop_last() =~= t.subrange(1, i as int));
                    aggregate.append(".");
                    aggregate.append(parts[i].as_str());
                    i = i + 1;
                }
                if n == 3 {
                    aggregate = String::new();
                    assert(t.subrange(1, 1) =~= Seq::<Seq<char>>::empty());
                }
                Ok(SubjectParts {
                    context: parts[0].clone(),
                    aggregate,
                    event_type: parts[n - 2].clone(),
                    version: parts[n - 1].clone(),
                })
            },
            ParserFn::Custom(p) => p.parse(subject),
        }
    }
}

/// How a validation rule checks components.
pub enum ValidatorFn {
    /// The version must start with `v`.
    VersionPrefix,
    /// The context may have at most this many characters.
    MaxContextLength(usize),
    /// A validator supplied by the caller.
    Custom(Box<dyn PartsValidator>),
}

/// Whether a validator accepts `p`: `Some(true)` or `Some(false)`, `None`
/// when the caller supplied the validator.
pub open spec fn validator_outcome(f: ValidatorFn, p: SubjectView) -> Option<bool> {
    match f {
        ValidatorFn::VersionPrefix => Some(p.version.len() > 0 && p.version[0] == 'v'),
        ValidatorFn::MaxContextLength(m) => Some(p.context.len() <= m),
        ValidatorFn::Custom(_) => None,
    }
}

/// A validation rule
pub struct ValidationRule {
    /// Name of the rule
    pub name: String,
    /// Validator function
    pub validator: ValidatorFn,
}

impl ValidationRule {
    /// Create a new validation rule with a caller-supplied validator
    pub fn new(name: &str, validator: Box<dyn PartsValidator>) -> (r: Self)
        ensures
            r.name@ == name@,
            r.validator is Custom,
    {
        ValidationRule { name: String::from_str(name), validator: ValidatorFn::Custom(validator) }
    }

    /// Validate subject parts
    pub fn validate(&self, parts: &SubjectParts) -> (r: Result<(), SubjectError>)
        ensures
            match validator_outcome(self.validator, parts@) {
                Some(true) => r is Ok,
                Some(false) => r is Err && r->Err_0 is ValidationError,
                None => true,
            },
    {
        match &self.validator {
            ValidatorFn::VersionPrefix => {
                let v = parts.version.as_str();
                if v.unicode_len() == 0 || v.get_char(0) != 'v' {
                    return Err(SubjectError::validation_error("Version must start with 'v'"));
                }
                Ok(())
            },
            ValidatorFn::MaxContextLength(m) => {
                if parts.context.as_str().unicode_len() > *m {
                    return Err(SubjectError::validation_error("Context name too long"));
                }
                Ok(())
            },
            ValidatorFn::Custom(f) => f.validate(parts),
        }
    }
}

/// What running the validators in order gives for `p`: `Some(true)` when all
/// accept, `Some(false)` when the first to reject is known, `None` when a
/// caller-supplied validator decides.
pub open spec fn validation_outcome(vs: Seq<ValidationRule>, p: SubjectView) -> Option<bool>
    decreases vs.len(),
{
    if vs.len() == 0 {
        Some(true)
    } else {
        match validator_outcome(vs[0].validator, p) {
            Some(true) => validation_outcome(vs.skip(1), p),
            Some(false) => Some(false),
            None => None,
        }
    }
}

/// What parsing `s` gives before validation: the rule registered for its first
/// token, or else the standard four-part parse.
pub open spec fn parse_stage(names: Seq<Seq<char>>, rules: Seq<ParseRule>, s: Seq<char>) -> Option<Option<SubjectView>> {
    match name_index(names, split_on(s, '.')[0]) {
        Some(k) => parser_outcome(rules[k].parser, s),
        None => Some(parse_subject(s)),
    }
}

/// Parser for subjects with custom rules
pub struct SubjectParser {
    rules: Registry<ParseRule>,
    validators: Registry<ValidationRule>,
}

impl Default for SubjectParser {
    fn default() -> (r: Self)
        ensures
            r.rule_contexts().len() == 0,
            r.rule_list().len() == 0,
            r.validator_names().len() == 0,
            r.validator_list().len() == 0,
    {
        Self::new()
    }
}

impl SubjectParser {
    /// The contexts that have a parse rule, in order.
    pub closed spec fn rule_contexts(&self) -> Seq<Seq<char>> {
        self.rules.names()
    }

    /// The parse rules, in order.
    pub closed spec fn rule_list(&self) -> Seq<ParseRule> {
        self.rules.items()
    }

    /// The names of the validators, in order.
    pub closed spec fn validator_names(&self) -> Seq<Seq<char>> {
        self.validators.names()
    }

    /// The validators, in the order they run.
    pub closed spec fn validator_list(&self) -> Seq<ValidationRule> {
        self.validators.items()
    }

    /// Create a new subject parser
    pub fn new() -> (r: Self)
        ensures
            r.rule_contexts().len() == 0,
            r.rule_list().len() == 0,
            r.validator_names().len() == 0,
            r.validator_list().len() == 0,
    {
        SubjectParser { rules: Registry::new(), validators: Registry::new() }
    }

    /// Register a custom parsing rule for a context
    pub fn register_rule(&mut self, context: &str, rule: ParseRule)
        ensures
            final(self).rule_contexts() == crate::registry::names_after(old(self).rule_contexts(), context@),
            final(self).rule_list() == crate::registry::items_after(
                old(self).rule_contexts(),
                old(self).rule_list(),
                context@,
                rule,
            ),
            final(self).validator_names() == old(self).validator_names(),
            final(self).validator_list() == old(self).validator_list(),
    {
        self.rules.register(context, rule);
    }

    /// Register a validation rule; validators run in the order of first registration.
    pub fn register_validator(&mut self, name: &str, validator: ValidationRule)
        ensures
            final(self).validator_names() == crate::registry::names_after(old(self).validator_names(), name@),
            final(self).validator_list() == crate::registry::items_after(
                old(self).validator_names(),
                old(self).validator_list(),
                name@,
                validator,
            ),
            final(self).rule_contexts() == old(self).rule_contexts(),
            final(self).rule_list() == old(self).rule_list(),
    {
        self.validators.register(name, validator);
    }

    /// Parse a subject string: the rule registered for its first token parses
    /// it, or else the standard four-part parse; then every validator runs in
    /// order and the first rejection is returned.
    pub fn parse(&self, subject: &str) -> (r: Result<Subject, SubjectError>)
        ensures
            match parse_stage(self.rule_contexts(), self.rule_list(), subject@) {
                Some(Some(v)) => match validation_outcome(self.validator_list(), v) {
                    Some(true) => r is Ok && r->Ok_0@ == v,
                    Some(false) => r is Err && r->Err_0 is ValidationError,
                    None => r is Ok ==> r->Ok_0@ == v,
                },
                Some(None) => r is Err && r->Err_0 is InvalidFormat,
                None => true,
            },
            r is Ok ==> validation_outcome(self.validator_list(), r->Ok_0@) != Some(false),
    {
        let parts = split_text(subject, '.');
        assert(views(parts@)[0] == parts@[0]@);
        let parsed = match self.rules.find(parts[0].as_str()) {
            Some(k) => self.rules.get(k).parse(subject),
            None => SubjectParts::parse(subject),
        };
        self.finish(parsed)
    }

    /// What parsing makes of the components a parse rule returned: an error
    /// comes back unchanged; components go through every validator in order,
    /// and become the subject when none rejects them.
    pub fn finish(&self, parsed: Result<SubjectParts, SubjectError>) -> (r: Result<Subject, SubjectError>)
        ensures
            parsed is Err ==> r == Err::<Subject, SubjectError>(parsed->Err_0),
            parsed is Ok ==> match validation_outcome(self.validator_list(), parsed->Ok_0@) {
                Some(true) => r is Ok && r->Ok_0@ == parsed->Ok_0@,
                Some(false) => r is Err && r->Err_0 is ValidationError,
                None => r is Ok ==> r->Ok_0@ == parsed->Ok_0@,
            },
            r is Ok ==> parsed is Ok && r->Ok_0@ == parsed->Ok_0@ && validation_outcome(
                self.validator_list(),
                r->Ok_0@,
            ) != Some(false),
    {
        match parsed {
            Err(e) => Err(e),
            Ok(p) => match self.validate(&p) {
                Err(e) => Err(e),
                Ok(()) => Ok(Subject::from_parts(p)),
            },
        }
    }

    /// Run every validator in order; the first rejection is returned.
    pub fn validate(&self, parts: &SubjectParts) -> (r: Result<(), SubjectError>)
        ensures
            match validation_outcome(self.validator_list(), parts@) {
                Some(true) => r is Ok,
                Some(false) => r is Err && r->Err_0 is ValidationError,
                None => true,
            },
            r is Ok ==> validation_outcome(self.validator_list(), parts@) != Some(false),
    {
        let ghost all = self.validator_list();
        let n = self.validators.len();
        let mut i: usize = 0;
        assert(all.skip(0) =~= all);
        while i < n
            invariant
                n == all.len(),
                all == self.validator_list(),
                i <= n,
                validation_outcome(all, parts@) == validation_outcome(all.skip(i as int), parts@)
                    || validation_outcome(all, parts@) is None,
            decreases n - i,
        {
            let v = self.validators.get(i);
            assert(all.skip(i as int)[0] == all[i as int]);
            assert(all.skip(i as int).skip(1) =~= all.skip(i + 1));
            match v.validate(parts) {
                Err(e) => {
                    return Err(e);
                },
                Ok(()) => {},
            }
            i = i + 1;
        }
        assert(all.skip(i as int).len() == 0);
        Ok(())
    }

    /// A parser with the standard validators: `version_format` (the version
    /// starts with `v`) and `context_length` (at most 32 characters of context).
    pub fn with_standard_rules() -> (r: Self)
        ensures
            r.rule_list().len() == 0,
            r.rule_contexts().len() == 0,
            r.validator_names() == seq!["version_format"@, "context_length"@],
            r.validator_list().len() == 2,
            r.validator_list()[0].validator is VersionPrefix,
            r.validator_list()[1].validator == ValidatorFn::MaxContextLength(MAX_CONTEXT_LEN),
    {
        proof {
            reveal_strlit("version_format");
            reveal_strlit("context_length");
        }
        let mut parser = Self::new();
        parser.register_validator(
            "version_format",
            ValidationRule {
                name: String::from_str("Version Format"),
                validator: ValidatorFn::VersionPrefix,
            },
        );
        assert(parser.validator_names() =~= seq!["version_format"@]);
        assert("version_format"@[0] != "context_length"@[0]);
        assert(parser.validator_names()[0] != "context_length"@);
        proof {
            crate::registry::lemma_first_where(
                1,
                |i: int| parser.validator_names()[i] == "context_length"@,
            );
        }
        parser.register_validator(
            "context_length",
            ValidationRule {
                name: String::from_str("Context Length"),
                validator: ValidatorFn::MaxContextLength(MAX_CONTEXT_LEN),
            },
        );
        assert(parser.validator_names() =~= seq!["version_format"@, "context_length"@]);
        parser
    }
}

/// Builder for creating parsers with rules
pub struct ParserBuilder {
    rule_contexts: Vec<String>,
    rules: Vec<ParseRule>,
    validator_names: Vec<String>,
    validators: Vec<ValidationRule>,
}

impl Default for ParserBuilder {
    fn default() -> (r: Self)
        ensures
            r.pending_contexts().len() == 0,
            r.pending_rules().len() == 0,
            r.pending_validator_names().len() == 0,
            r.pending_validators().len() == 0,
    {
        Self::new()
    }
}

impl ParserBuilder {
    #[verifier::type_invariant]
    spec fn paired(&self) -> bool {
        self.rule_contexts@.len() == self.rules@.len() && self.validator_names@.len()
            == self.validators@.len()
    }

    /// The contexts of the collected parse rules, in order.
    pub closed spec fn pending_contexts(&self) -> Seq<Seq<char>> {
        name_views(self.rule_contexts@)
    }

    /// The collected parse rules, in order.
    pub closed spec fn pending_rules(&self) -> Seq<ParseRule> {
        self.rules@
    }

    /// The names of the collected validators, in order.
    pub closed spec fn pending_validator_names(&self) -> Seq<Seq<char>> {
        name_views(self.validator_names@)
    }

    /// The collected validators, in order.
    pub closed spec fn pending_validators(&self) -> Seq<ValidationRule> {
        self.validators@
    }

    /// Create a new parser builder
    pub fn new() -> (r: Self)
        ensures
            r.pending_contexts().len() == 0,
            r.pending_rules().len() == 0,
            r.pending_validator_names().len() == 0,
            r.pending_validators().len() == 0,
    {
        ParserBuilder {
            rule_contexts: Vec::new(),
            rules: Vec::new(),
            validator_names: Vec::new(),
            validators: Vec::new(),
        }
    }

    /// Add a parsing rule for a context
    pub fn with_rule(self, context: &str, rule: ParseRule) -> (r: Self)
        ensures
            r.pending_contexts() == self.pending_contexts().push(context@),
            r.pending_rules() == self.pending_rules().push(rule),
            r.pending_validator_names() == self.pending_validator_names(),
            r.pending_validators() == self.pending_validators(),
    {
        proof {
            use_type_invariant(&self);
        }
        let ParserBuilder { mut rule_contexts, mut rules, validator_names, validators } = self;
        let ghost before = rule_contexts@;
        rule_contexts.push(String::from_str(context));
        rules.push(rule);
        assert(name_views(rule_contexts@) =~= name_views(before).push(context@));
        ParserBuilder { rule_contexts, rules, validator_names, validators }
    }

    /// Add a validation rule
    pub fn with_validator(self, name: &str, validator: ValidationRule) -> (r: Self)
        ensures
            r.pending_contexts() == self.pending_contexts(),
            r.pending_rules() == self.pending_rules(),
            r.pending_validator_names() == self.pending_validator_names().push(name@),
            r.pending_validators() == self.pending_validators().push(validator),
    {
        proof {
            use_type_invariant(&self);
        }
        let ParserBuilder { rule_contexts, rules, mut validator_names, mut validators } = self;
        let ghost before = validator_names@;
        validator_names.push(String::from_str(name));
        validators.push(validator);
        assert(name_views(validator_names@) =~= name_views(before).push(name@));
        ParserBuilder { rule_contexts, rules, validator_names, validators }
    }

    /// Add a flexible parsing rule, named `<context>_flexible`, for a context
    pub fn with_flexible_context(self, context: &str) -> (r: Self)
        ensures
            r.pending_contexts() == self.pending_contexts().push(context@),
            r.pending_rules().len() == self.pending_rules().len() + 1,
            r.pending_rules().drop_last() == self.pending_rules(),
            r.pending_rules().last().name@ == context@ + "_flexible"@,
            r.pending_rules().last().description@ == "Flexible parsing for "@ + context@
                + " context"@,
            r.pending_rules().last().parser is Flexible,
            r.pending_validator_names() == self.pending_validator_names(),
            r.pending_validators() == self.pending_validators(),
    {
        let mut name = String::from_str(context);
        name.append("_flexible");
        let mut description = String::from_str("Flexible parsing for ");
        description.append(context);
        description.append(" context");
        let rule = ParseRule { name, description, parser: ParserFn::Flexible };
        let r = self.with_rule(context, rule);
        assert(r.pending_rules().drop_last() =~= self.pending_rules());
        r
    }

    /// Build the parser: rules and validators are registered in order, a
    /// later one replacing an earlier one of the same name.
    pub fn build(self) -> (r: SubjectParser)
        ensures
            (r.rule_contexts(), r.rule_list()) == registered(self.pending_contexts(), self.pending_rules()),
            (r.validator_names(), r.validator_list()) == registered(
                self.pending_validator_names(),
                self.pending_validators(),
            ),
    {
        proof {
            use_type_invariant(&self);
        }
        let ParserBuilder { rule_contexts, rules, validator_names, validators } = self;
        let mut rule_registry = Registry::new();
        rule_registry.register_all(rule_contexts, rules);
        let mut validator_registry = Registry::new();
        validator_registry.register_all(validator_names, validators);
        SubjectParser { rules: rule_registry, validators: validator_registry }
    }
}

} // verus!
