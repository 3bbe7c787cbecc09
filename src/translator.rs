//! Pattern-driven, optionally bidirectional rewriting of subjects between schemas.
use vstd::prelude::*;
use vstd::string::*;
use crate::custom::SubjectTransform;
use crate::error::SubjectError;
use crate::pattern::{pattern_matches, valid_pattern, Pattern};
use crate::subject::{parse_subject, subject_string, Subject, SubjectParts, SubjectView};
use crate::registry::{
    first_where, items_after, lemma_first_where, lemma_registered_distinct, name_views,
    names_after, registered, Registry,
};
use crate::text::{decimal, decimal_text, lemma_decimal_injective, replace_all, replace_text};

verus! {

/// The text that the template `t` becomes for the subject `v`: `{context}`,
/// `{aggregate}`, `{event}` and `{version}` are replaced, in that order.
pub open spec fn filled_template(t: Seq<char>, v: SubjectView) -> Seq<char> {
    replace_all(
        replace_all(
            replace_all(replace_all(t, "{context}"@, v.context), "{aggregate}"@, v.aggregate),
            "{event}"@,
            v.event_type,
        ),
        "{version}"@,
        v.version,
    )
}

/// The function of a translation rule.
pub enum TranslateFn {
    /// Fill a template with the subject's components and parse the text.
    Template(String),
    /// Replace the subject's context.
    Context(String),
    /// A rewrite supplied by the caller.
    Custom(Box<dyn SubjectTransform>),
}

/// What a rewrite gives for `s`: `Some(Some(v))` the subject `v`, `Some(None)`
/// an error, `None` when the caller supplied the rewrite.
pub open spec fn rewrite_outcome(f: TranslateFn, s: SubjectView) -> Option<Option<SubjectView>> {
    match f {
        TranslateFn::Template(t) => Some(parse_subject(filled_template(t@, s))),
        TranslateFn::Context(c) => Some(Some(SubjectView { context: c@, ..s })),
        TranslateFn::Custom(_) => None,
    }
}

/// A result meets an outcome: it is the subject, or an error, as the outcome says.
pub open spec fn meets(r: Result<Subject, SubjectError>, o: Option<Option<SubjectView>>) -> bool {
    match o {
        Some(Some(v)) => r is Ok && r->Ok_0@ == v,
        Some(None) => r is Err,
        None => true,
    }
}

/// The rewrite is a template whose filled text is not a subject.
pub open spec fn template_fails(f: TranslateFn, s: SubjectView) -> bool {
    f is Template && parse_subject(filled_template(f->Template_0@, s)) is None
}

impl TranslateFn {
    /// Apply the rewrite to a subject.
    pub fn apply(&self, subject: &Subject) -> (r: Result<Subject, SubjectError>)
        ensures
            meets(r, rewrite_outcome(*self, subject@)),
            template_fails(*self, subject@) ==> r is Err && r->Err_0 is InvalidFormat,
    {
        match self {
            TranslateFn::Template(t) => {
                proof {
                    reveal_strlit("{context}");
                    reveal_strlit("{aggregate}");
                    reveal_strlit("{event}");
                    reveal_strlit("{version}");
                }
                let a = replace_text(t.as_str(), "{context}", subject.context());
                let b = replace_text(a.as_str(), "{aggregate}", subject.aggregate());
                let c = replace_text(b.as_str(), "{event}", subject.event_type());
                let d = replace_text(c.as_str(), "{version}", subject.version());
                Subject::new(d.as_str())
            },
            TranslateFn::Context(c) => {
                let parts = SubjectParts::new(
                    c.as_str(),
                    subject.aggregate(),
                    subject.event_type(),
                    subject.version(),
                );
                Ok(Subject::from_parts(parts))
            },
            TranslateFn::Custom(f) => f.apply(subject),
        }
    }
}

/// The result `v` is acceptable to the optional target pattern.
pub open spec fn target_ok(tp: Option<Pattern>, v: SubjectView) -> bool {
    match tp {
        Some(p) => pattern_matches(p@, subject_string(v)),
        None => true,
    }
}

/// A translation rule
pub struct TranslationRule {
    /// Name of the rule
    pub name: String,
    /// Source pattern
    pub source_pattern: Pattern,
    /// Target pattern (optional, for validation)
    pub target_pattern: Option<Pattern>,
    /// Translation function
    pub translate_fn: TranslateFn,
    /// Reverse translation function (optional)
    pub reverse_fn: Option<TranslateFn>,
}

pub open spec fn source_matches(r: TranslationRule, s: SubjectView) -> bool {
    pattern_matches(r.source_pattern@, subject_string(s))
}

pub open spec fn target_matches(r: TranslationRule, s: SubjectView) -> bool {
    match r.target_pattern {
        Some(p) => pattern_matches(p@, subject_string(s)),
        None => false,
    }
}

/// What the rule's forward translation gives for `s`, as `rewrite_outcome`
/// tells it; a result outside the target pattern is an error.
pub open spec fn forward_outcome(r: TranslationRule, s: SubjectView) -> Option<Option<SubjectView>> {
    match rewrite_outcome(r.translate_fn, s) {
        Some(Some(v)) => if target_ok(r.target_pattern, v) { Some(Some(v)) } else { Some(None) },
        o => o,
    }
}

/// What the rule's reverse translation gives for `t`; without a reverse
/// function it is an error.
pub open spec fn backward_outcome(r: TranslationRule, t: SubjectView) -> Option<Option<SubjectView>> {
    match r.reverse_fn {
        Some(g) => rewrite_outcome(g, t),
        None => Some(None),
    }
}

impl TranslationRule {
    /// Create a new translation rule with a caller-supplied rewrite
    pub fn new(name: &str, source_pattern: Pattern, translate_fn: Box<dyn SubjectTransform>) -> (r: Self)
        ensures
            r.name@ == name@,
            r.source_pattern@ == source_pattern@,
            r.target_pattern is None,
            r.translate_fn is Custom,
            r.reverse_fn is None,
    {
        TranslationRule {
            name: String::from_str(name),
            source_pattern,
            target_pattern: None,
            translate_fn: TranslateFn::Custom(translate_fn),
            reverse_fn: None,
        }
    }

    /// Add a target pattern for validation
    pub fn with_target_pattern(self, pattern: Pattern) -> (r: Self)
        ensures
            r == (TranslationRule { target_pattern: Some(pattern), ..self }),
    {
        TranslationRule { target_pattern: Some(pattern), ..self }
    }

    /// Add a caller-supplied reverse translation
    pub fn with_reverse(self, reverse_fn: Box<dyn SubjectTransform>) -> (r: Self)
        ensures
            r == (TranslationRule { reverse_fn: Some(TranslateFn::Custom(reverse_fn)), ..self }),
    {
        TranslationRule { reverse_fn: Some(TranslateFn::Custom(reverse_fn)), ..self }
    }

    /// Check if this rule matches a source subject
    pub fn matches_source(&self, subject: &Subject) -> (r: bool)
        ensures
            r == source_matches(*self, subject@),
    {
        self.source_pattern.matches(subject)
    }

    /// Check if this rule matches a target subject; a rule without a target
    /// pattern matches none.
    pub fn matches_target(&self, subject: &Subject) -> (r: bool)
        ensures
            r == target_matches(*self, subject@),
    {
        match &self.target_pattern {
            Some(p) => p.matches(subject),
            None => false,
        }
    }

    /// Hold the result of the rewrite to the target pattern: errors pass
    /// through, a subject outside the target pattern becomes a translation error.
    pub fn check_output(&self, produced: Result<Subject, SubjectError>) -> (r: Result<
        Subject,
        SubjectError,
    >)
        ensures
            produced is Err ==> r == produced,
            produced is Ok && target_ok(self.target_pattern, produced->Ok_0@) ==> r == produced,
            produced is Ok && !target_ok(self.target_pattern, produced->Ok_0@) ==> r is Err
                && r->Err_0 is TranslationError,
    {
        match produced {
            Ok(result) => {
                if let Some(target_pattern) = &self.target_pattern {
                    if !target_pattern.matches(&result) {
                        return Err(
                            SubjectError::translation_error(
                                "Translation result does not match target pattern",
                            ),
                        );
                    }
                }
                Ok(result)
            },
            Err(e) => Err(e),
        }
    }

    /// Translate a subject; the result must match the target pattern, if any.
    pub fn translate(&self, subject: &Subject) -> (r: Result<Subject, SubjectError>)
        ensures
            meets(r, forward_outcome(*self, subject@)),
            r is Ok ==> target_ok(self.target_pattern, r->Ok_0@),
            template_fails(self.translate_fn, subject@) ==> r is Err && r->Err_0 is InvalidFormat,
    {
        let produced = self.translate_fn.apply(subject);
        self.check_output(produced)
    }

    /// Reverse translate a subject; fails when the rule has no reverse function.
    pub fn reverse_translate(&self, subject: &Subject) -> (r: Result<Subject, SubjectError>)
        ensures
            meets(r, backward_outcome(*self, subject@)),
            self.reverse_fn is None ==> r is Err && r->Err_0 is TranslationError,
    {
        match &self.reverse_fn {
            Some(g) => g.apply(subject),
            None => Err(SubjectError::translation_error("No reverse translation available")),
        }
    }
}

/// The first rule whose source pattern matches `s`.
pub open spec fn first_source(rules: Seq<TranslationRule>, s: SubjectView) -> Option<int> {
    first_where(rules.len() as int, |i: int| source_matches(rules[i], s))
}

/// The first rule whose target pattern matches `t`.
pub open spec fn first_target(rules: Seq<TranslationRule>, t: SubjectView) -> Option<int> {
    first_where(rules.len() as int, |i: int| target_matches(rules[i], t))
}

/// What translating `s` gives: the first rule whose source pattern matches
/// decides; with none, `s` itself.
pub open spec fn translation_outcome(rules: Seq<TranslationRule>, s: SubjectView) -> Option<
    Option<SubjectView>,
> {
    match first_source(rules, s) {
        Some(i) => forward_outcome(rules[i], s),
        None => Some(Some(s)),
    }
}

/// What reverse translating `t` gives: the first rule whose target pattern
/// matches decides; with none, `t` itself.
pub open spec fn reverse_outcome(rules: Seq<TranslationRule>, t: SubjectView) -> Option<
    Option<SubjectView>,
> {
    match first_target(rules, t) {
        Some(i) => backward_outcome(rules[i], t),
        None => Some(Some(t)),
    }
}

/// Round trip: when the rule that translates `s` into `t` has a target
/// pattern and a reverse function that takes `t` back to `s`, and no rule
/// before it claims `t` by its target pattern, reverse translation of `t`
/// gives `s`.
pub proof fn lemma_translation_round_trip(rules: Seq<TranslationRule>, s: SubjectView, t: SubjectView, i: int)
    requires
        first_source(rules, s) == Some(i),
        translation_outcome(rules, s) == Some(Some(t)),
        rules[i].target_pattern is Some,
        backward_outcome(rules[i], t) == Some(Some(s)),
        forall|j: int| 0 <= j < i ==> !target_matches(#[trigger] rules[j], t),
    ensures
        reverse_outcome(rules, t) == Some(Some(s)),
{
    let ps = |k: int| source_matches(rules[k], s);
    let pt = |k: int| target_matches(rules[k], t);
    lemma_first_where(rules.len() as int, ps);
    lemma_first_where(rules.len() as int, pt);
    assert(target_matches(rules[i], t));
    assert(pt(i));
    assert forall|j: int| 0 <= j < i implies !#[trigger] pt(j) by {
        assert(!target_matches(rules[j], t));
    }
    assert(first_target(rules, t) == Some(i));
}

/// Translator for converting subjects between different schemas. Rules are
/// kept by name in the order of their first registration, and tried in that
/// order.
pub struct Translator {
    rules: Registry<TranslationRule>,
}

impl Default for Translator {
    fn default() -> (r: Self)
        ensures
            r.rule_names().len() == 0,
            r.rule_list().len() == 0,
    {
        Self::new()
    }
}

impl Translator {
    /// The names of the registered rules, in order.
    pub closed spec fn rule_names(&self) -> Seq<Seq<char>> {
        self.rules.names()
    }

    /// The registered rules, in order.
    pub closed spec fn rule_list(&self) -> Seq<TranslationRule> {
        self.rules.items()
    }

    /// Create a new translator
    pub fn new() -> (r: Self)
        ensures
            r.rule_names().len() == 0,
            r.rule_list().len() == 0,
    {
        Translator { rules: Registry::new() }
    }

    /// Register a translation rule; one of the same name is replaced in place.
    pub fn register_rule(&mut self, name: &str, rule: TranslationRule)
        ensures
            final(self).rule_names() == names_after(old(self).rule_names(), name@),
            final(self).rule_list() == items_after(old(self).rule_names(), old(self).rule_list(), name@, rule),
    {
        self.rules.register(name, rule);
    }

    /// Translate a subject: the first rule whose source pattern matches
    /// rewrites it; when no rule matches, the subject passes through unchanged.
    pub fn translate(&self, subject: &Subject) -> (r: Result<Subject, SubjectError>)
        ensures
            meets(r, translation_outcome(self.rule_list(), subject@)),
            first_source(self.rule_list(), subject@) is None ==> r is Ok && r->Ok_0@ == subject@,
            forall|i: int|
                first_source(self.rule_list(), subject@) == Some(i) && r is Ok ==> target_ok(
                    #[trigger] self.rule_list()[i].target_pattern,
                    r->Ok_0@,
                ),
            forall|i: int|
                first_source(self.rule_list(), subject@) == Some(i) && template_fails(
                    (#[trigger] self.rule_list()[i]).translate_fn,
                    subject@,
                ) ==> r is Err && r->Err_0 is InvalidFormat,
    {
        let ghost rules = self.rule_list();
        let ghost pred = |i: int| source_matches(rules[i], subject@);
        proof {
            lemma_first_where(rules.len() as int, pred);
        }
        let mut i: usize = 0;
        let n = self.rules.len();
        while i < n
            invariant
                n == rules.len(),
                rules == self.rule_list(),
                pred == (|i: int| source_matches(rules[i], subject@)),
                i <= rules.len(),
                forall|j: int| 0 <= j < i ==> !#[trigger] pred(j),
                first_where(rules.len() as int, pred) is None <==> (forall|j: int|
                    0 <= j < rules.len() ==> !#[trigger] pred(j)),
                forall|k: int|
                    first_where(rules.len() as int, pred) == Some(k) <==> (0 <= k < rules.len()
                        && pred(k) && forall|j: int| 0 <= j < k ==> !#[trigger] pred(j)),
            decreases rules.len() - i,
        {
            let rule = self.rules.get(i);
            if rule.matches_source(subject) {
                assert(pred(i as int));
                assert(first_source(rules, subject@) == Some(i as int));
                return rule.translate(subject);
            }
            i = i + 1;
        }
        Ok(subject.clone())
    }

    /// Reverse translate a subject: the first rule whose target pattern
    /// matches reverses it; when no rule matches, the subject passes through.
    pub fn reverse_translate(&self, subject: &Subject) -> (r: Result<Subject, SubjectError>)
        ensures
            meets(r, reverse_outcome(self.rule_list(), subject@)),
            first_target(self.rule_list(), subject@) is None ==> r is Ok && r->Ok_0@ == subject@,
    {
        let ghost rules = self.rule_list();
        let ghost pred = |i: int| target_matches(rules[i], subject@);
        proof {
            lemma_first_where(rules.len() as int, pred);
        }
        let mut i: usize = 0;
        let n = self.rules.len();
        while i < n
            invariant
                n == rules.len(),
                rules == self.rule_list(),
                pred == (|i: int| target_matches(rules[i], subject@)),
                i <= rules.len(),
                forall|j: int| 0 <= j < i ==> !#[trigger] pred(j),
                first_where(rules.len() as int, pred) is None <==> (forall|j: int|
                    0 <= j < rules.len() ==> !#[trigger] pred(j)),
                forall|k: int|
                    first_where(rules.len() as int, pred) == Some(k) <==> (0 <= k < rules.len()
                        && pred(k) && forall|j: int| 0 <= j < k ==> !#[trigger] pred(j)),
            decreases rules.len() - i,
        {
            let rule = self.rules.get(i);
            if rule.matches_target(subject) {
                assert(pred(i as int));
                assert(first_target(rules, subject@) == Some(i as int));
                return rule.reverse_translate(subject);
            }
            i = i + 1;
        }
        Ok(subject.clone())
    }

    /// Create a translator from forward rules, named `forward_0`, `forward_1`,
    /// ..., followed by reverse rules, named `reverse_0`, ...
    pub fn bidirectional(forward_rules: Vec<TranslationRule>, reverse_rules: Vec<TranslationRule>) -> (r: Self)
        ensures
            r.rule_list() == forward_rules@ + reverse_rules@,
            r.rule_names().len() == forward_rules@.len() + reverse_rules@.len(),
            forall|k: int|
                0 <= k < forward_rules@.len() ==> #[trigger] r.rule_names()[k] == "forward_"@
                    + decimal(k as nat),
            forall|k: int|
                0 <= k < reverse_rules@.len() ==> #[trigger] r.rule_names()[forward_rules@.len() + k]
                    == "reverse_"@ + decimal(k as nat),
    {
        proof {
            reveal_strlit("forward_");
            reveal_strlit("reverse_");
        }
        let ghost fwd = forward_rules@;
        let ghost rev = reverse_rules@;
        let nf = forward_rules.len();
        let nr = reverse_rules.len();
        let mut names: Vec<String> = Vec::new();
        let mut rules: Vec<TranslationRule> = Vec::new();
        let mut rest = forward_rules;
        let mut i: usize = 0;
        while rest.len() > 0
            invariant
                nf == fwd.len(),
                rules@ + rest@ == fwd,
                i == rules@.len(),
                names@.len() == i,
                forall|k: int| 0 <= k < i ==> #[trigger] names@[k]@ == "forward_"@ + decimal(k as nat),
            decreases rest@.len(),
        {
            let r = rest.remove(0);
            let mut name = String::from_str("forward_");
            name.append(decimal_text(i).as_str());
            names.push(name);
            rules.push(r);
            i = i + 1;
            assert(rules@ + rest@ =~= fwd);
        }
        let mut rest = reverse_rules;
        let mut j: usize = 0;
        while rest.len() > 0
            invariant
                nf == fwd.len(),
                nr == rev.len(),
                rules@ + rest@ == fwd + rev,
                j + nf == rules@.len(),
                j + rest@.len() == nr,
                names@.len() == rules@.len(),
                forall|k: int| 0 <= k < nf ==> #[trigger] names@[k]@ == "forward_"@ + decimal(k as nat),
                forall|k: int|
                    nf <= k < nf + j ==> #[trigger] names@[k]@ == "reverse_"@ + decimal((k - nf) as nat),
            decreases rest@.len(),
        {
            let r = rest.remove(0);
            let mut name = String::from_str("reverse_");
            name.append(decimal_text(j).as_str());
            names.push(name);
            rules.push(r);
            j = j + 1;
            assert(rules@ + rest@ =~= fwd + rev);
        }
        assert(rules@ =~= fwd + rev);
        let ghost nv = name_views(names@);
        proof {
            assert forall|a: int, b: int| 0 <= a < nv.len() && 0 <= b < nv.len() && a != b implies nv[a] != nv[b] by {
                let pa = if a < nf { "forward_"@ } else { "reverse_"@ };
                let pb = if b < nf { "forward_"@ } else { "reverse_"@ };
                let da = if a < nf { decimal(a as nat) } else { decimal((a - nf) as nat) };
                let db = if b < nf { decimal(b as nat) } else { decimal((b - nf) as nat) };
                assert(nv[a] == pa + da);
                assert(nv[b] == pb + db);
                if nv[a] == nv[b] {
                    assert(nv[a][0] == pa[0]);
                    assert(nv[b][0] == pb[0]);
                    assert(pa == pb);
                    assert((pa + da).skip(8) =~= da);
                    assert((pb + db).skip(8) =~= db);
                    if a < nf {
                        lemma_decimal_injective(a as nat, b as nat);
                    } else {
                        lemma_decimal_injective((a - nf) as nat, (b - nf) as nat);
                    }
                }
            }
        }
        proof {
            lemma_registered_distinct(nv, rules@);
        }
        let ghost all = rules@;
        let mut registry = Registry::new();
        registry.register_all(names, rules);
        assert(registry.items() == all);
        assert(registry.names() == nv);
        assert forall|k: int| 0 <= k < nr implies #[trigger] nv[nf + k] == "reverse_"@ + decimal(k as nat) by {
            assert(nv[nf + k] == names@[nf + k]@);
        }
        Translator { rules: registry }
    }
}

/// Builder for creating translators
pub struct TranslatorBuilder {
    names: Vec<String>,
    rules: Vec<TranslationRule>,
}

impl Default for TranslatorBuilder {
    fn default() -> (r: Self)
        ensures
            r.pending_names().len() == 0,
            r.pending_rules().len() == 0,
    {
        Self::new()
    }
}

impl TranslatorBuilder {
    #[verifier::type_invariant]
    spec fn paired(&self) -> bool {
        self.names@.len() == self.rules@.len()
    }

    /// The names under which the collected rules will be registered, in order.
    pub closed spec fn pending_names(&self) -> Seq<Seq<char>> {
        name_views(self.names@)
    }

    /// The collected rules, in order.
    pub closed spec fn pending_rules(&self) -> Seq<TranslationRule> {
        self.rules@
    }

    /// Create a new translator builder
    pub fn new() -> (r: Self)
        ensures
            r.pending_names().len() == 0,
            r.pending_rules().len() == 0,
    {
        TranslatorBuilder { names: Vec::new(), rules: Vec::new() }
    }

    fn push(self, name: String, rule: TranslationRule) -> (r: Self)
        ensures
            r.pending_names() == self.pending_names().push(name@),
            r.pending_rules() == self.pending_rules().push(rule),
    {
        proof {
            use_type_invariant(&self);
        }
        let mut names = self.names;
        let mut rules = self.rules;
        let ghost before = names@;
        names.push(name);
        rules.push(rule);
        assert(name_views(names@) =~= name_views(before).push(name@));
        TranslatorBuilder { names, rules }
    }

    /// Add a mapping rule named `map_<source_pattern>` that fills the target
    /// template with `{context}`, `{aggregate}`, `{event}` and `{version}`.
    pub fn map(self, source_pattern: &str, target_template: &str) -> (r: Result<Self, SubjectError>)
        ensures
            r is Ok <==> valid_pattern(source_pattern@),
            r is Err ==> r->Err_0 is InvalidPattern,
            r is Ok ==> ({
                let b = r->Ok_0;
                let rule = b.pending_rules().last();
                &&& b.pending_names() == self.pending_names().push("map_"@ + source_pattern@)
                &&& b.pending_rules().drop_last() == self.pending_rules()
                &&& b.pending_rules().len() == self.pending_rules().len() + 1
                &&& rule.name@ == "map_"@ + source_pattern@
                &&& rule.source_pattern@ == source_pattern@
                &&& rule.target_pattern is None
                &&& rule.reverse_fn is None
                &&& rule.translate_fn is Template
                &&& rule.translate_fn->Template_0@ == target_template@
            }),
    {
        let pattern = Pattern::new(source_pattern)?;
        let mut name = String::from_str("map_");
        name.append(source_pattern);
        let rule = TranslationRule {
            name: name.clone(),
            source_pattern: pattern,
            target_pattern: None,
            translate_fn: TranslateFn::Template(String::from_str(target_template)),
            reverse_fn: None,
        };
        let r = self.push(name, rule);
        assert(r.pending_rules().drop_last() =~= self.pending_rules());
        Ok(r)
    }

    /// Add a rule named `context_<from>_<to>` that moves subjects of context
    /// `from` (pattern `<from>.>`) to context `to`.
    pub fn translate_context(self, from_context: &str, to_context: &str) -> (r: Result<Self, SubjectError>)
        ensures
            r is Ok <==> valid_pattern(from_context@ + ".>"@),
            r is Err ==> r->Err_0 is InvalidPattern,
            r is Ok ==> ({
                let b = r->Ok_0;
                let rule = b.pending_rules().last();
                let name = "context_"@ + from_context@ + "_"@ + to_context@;
                &&& b.pending_names() == self.pending_names().push(name)
                &&& b.pending_rules().drop_last() == self.pending_rules()
                &&& b.pending_rules().len() == self.pending_rules().len() + 1
                &&& rule.name@ == name
                &&& rule.source_pattern@ == from_context@ + ".>"@
                &&& rule.target_pattern is None
                &&& rule.reverse_fn is None
                &&& rule.translate_fn is Context
                &&& rule.translate_fn->Context_0@ == to_context@
            }),
    {
        let mut text = String::from_str(from_context);
        text.append(".>");
        let pattern = Pattern::new(text.as_str())?;
        let mut name = String::from_str("context_");
        name.append(from_context);
        name.append("_");
        name.append(to_context);
        let rule = TranslationRule {
            name: name.clone(),
            source_pattern: pattern,
            target_pattern: None,
            translate_fn: TranslateFn::Context(String::from_str(to_context)),
            reverse_fn: None,
        };
        let r = self.push(name, rule);
        assert(r.pending_rules().drop_last() =~= self.pending_rules());
        Ok(r)
    }

    /// Add a custom translation rule
    pub fn custom(self, name: &str, rule: TranslationRule) -> (r: Self)
        ensures
            r.pending_names() == self.pending_names().push(name@),
            r.pending_rules() == self.pending_rules().push(rule),
    {
        self.push(String::from_str(name), rule)
    }

    /// Build the translator: the rules are registered in order, a later rule
    /// replacing an earlier one of the same name.
    pub fn build(self) -> (r: Translator)
        ensures
            (r.rule_names(), r.rule_list()) == registered(self.pending_names(), self.pending_rules()),
    {
        proof {
            use_type_invariant(&self);
        }
        let mut registry = Registry::new();
        registry.register_all(self.names, self.rules);
        Translator { rules: registry }
    }
}

/// Schema mapping for complex translations
#[derive(Debug, Clone)]
pub struct SchemaMapping {
    /// Name of the mapping
    pub name: String,
    /// Source schema identifier
    pub source_schema: String,
    /// Target schema identifier
    pub target_schema: String,
    /// Field mappings
    pub field_mappings: Vec<FieldMapping>,
}

/// Field mapping between schemas
#[derive(Debug, Clone)]
pub struct FieldMapping {
    /// Source field path
    pub source_path: String,
    /// Target field path
    pub target_path: String,
    /// Optional transformation
    pub transform: Option<String>,
}

/// Types that translate messages between two forms.
pub trait MessageTranslator<Source, Target> {
    /// Error type
    type Error;

    /// Convert a message forward
    fn translate(&self, from: Source) -> Result<Target, Self::Error>;

    /// Convert a message back
    fn reverse(&self, to: Target) -> Result<Source, Self::Error>;
}

} // verus!
