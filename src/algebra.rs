//! The subject algebra: composition of subjects, named transformations, and
//! a lattice view over a set of subjects.
use vstd::prelude::*;
use vstd::string::*;
use crate::custom::{SubjectComposer, SubjectTransform};
use crate::error::SubjectError;
use crate::pattern::{pattern_matches, Pattern};
use crate::registry::{first_where, items_after, lemma_first_where, name_index, names_after, Registry};
use crate::subject::{subject_string, subject_views, Subject, SubjectParts, SubjectView};
use crate::text::{join_text, join_with, same_text, views};

verus! {

/// Algebraic operations on subjects
#[derive(Debug, Clone)]
pub enum AlgebraOperation {
    /// Sequential composition (happens-before)
    Sequence,
    /// Parallel composition (concurrent)
    Parallel,
    /// Choice between subjects based on condition
    Choice {
        /// The condition that determines which subject to choose
        condition: String,
    },
    /// Transform subject using named transformation
    Transform {
        /// The name of the transformation to apply
        name: String,
    },
    /// Project specific fields from subject
    Project {
        /// The fields to project from the subject
        fields: Vec<String>,
    },
    /// Inject additional context into subject
    Inject {
        /// The context to inject into the subject
        context: String,
    },
}

/// The key under which a composition rule for `op` on `l` and `r` is looked up.
pub open spec fn composition_key(op: AlgebraOperation, l: SubjectView, r: SubjectView) -> Seq<char> {
    match op {
        AlgebraOperation::Sequence => "sequence:"@ + l.event_type + ":"@ + r.event_type,
        AlgebraOperation::Parallel => "parallel:"@ + l.event_type + ":"@ + r.event_type,
        AlgebraOperation::Choice { condition } => "choice:"@ + l.event_type + ":"@ + r.event_type
            + ":"@ + condition@,
        AlgebraOperation::Project { fields } => "project:"@ + l.event_type + ":"@ + join_with(
            views(fields@),
            ',',
        ),
        AlgebraOperation::Inject { context } => "inject:"@ + l.context + ":"@ + context@,
        AlgebraOperation::Transform { name } => name@,
    }
}

/// What `op` makes of `l` and `r` when no composition rule is registered for it.
pub open spec fn default_composition(op: AlgebraOperation, l: SubjectView, r: SubjectView) -> SubjectView {
    match op {
        AlgebraOperation::Sequence => SubjectView {
            context: l.context + "-"@ + r.context,
            aggregate: l.aggregate + "-"@ + r.aggregate,
            event_type: "sequenced"@,
            version: "v1"@,
        },
        AlgebraOperation::Parallel => SubjectView {
            context: l.context + "+"@ + r.context,
            aggregate: l.aggregate + "+"@ + r.aggregate,
            event_type: "parallel"@,
            version: "v1"@,
        },
        AlgebraOperation::Choice { condition } => SubjectView {
            context: l.context,
            aggregate: l.aggregate + "|"@ + r.aggregate,
            event_type: "choice_"@ + condition@,
            version: "v1"@,
        },
        AlgebraOperation::Project { fields } => SubjectView {
            context: l.context,
            aggregate: l.aggregate,
            event_type: "projected_"@ + join_with(views(fields@), '_'),
            version: l.version,
        },
        AlgebraOperation::Inject { context } => SubjectView {
            context: context@,
            aggregate: l.aggregate,
            event_type: l.event_type,
            version: l.version,
        },
        AlgebraOperation::Transform { .. } => l,
    }
}

/// A composition rule defines how subjects can be composed
pub struct CompositionRule {
    /// Name of the rule
    pub name: String,
    /// Pattern for left operand
    pub left_pattern: Pattern,
    /// Pattern for right operand
    pub right_pattern: Pattern,
    /// Function to compose subjects
    pub composer: Box<dyn SubjectComposer>,
}

/// A transformation on subjects
pub struct Transformation {
    /// Name of the transformation
    pub name: String,
    /// Input pattern
    pub input_pattern: Pattern,
    /// Transformation function
    pub transform: Box<dyn SubjectTransform>,
}

impl Transformation {
    /// Accept a subject for the transformation: it must match the input
    /// pattern, else a validation error is returned.
    pub fn accepts(&self, subject: &Subject) -> (r: Result<(), SubjectError>)
        ensures
            r is Ok <==> pattern_matches(self.input_pattern@, subject_string(subject@)),
            r is Err ==> r->Err_0 is ValidationError,
    {
        if !self.input_pattern.matches(subject) {
            return Err(
                SubjectError::validation_error("Subject does not match transformation pattern"),
            );
        }
        Ok(())
    }

    /// Apply the transformation: a subject that `accepts` rejects gets its
    /// validation error and the function is not called; an accepted subject
    /// gets whatever the caller-supplied function returns, unchanged.
    pub fn apply(&self, subject: &Subject) -> (r: Result<Subject, SubjectError>)
        ensures
            !pattern_matches(self.input_pattern@, subject_string(subject@)) ==> r is Err
                && r->Err_0 is ValidationError,
    {
        match self.accepts(subject) {
            Err(e) => Err(e),
            Ok(()) => self.transform.apply(subject),
        }
    }
}

/// `prefix` `a` `:` `b`
fn key_of(prefix: &str, a: &str, b: &str) -> (r: String)
    ensures
        r@ == prefix@ + a@ + ":"@ + b@,
{
    let mut k = String::from_str(prefix);
    k.append(a);
    k.append(":");
    k.append(b);
    k
}

/// `a` `sep` `b`
fn joined(a: &str, sep: &str, b: &str) -> (r: String)
    ensures
        r@ == a@ + sep@ + b@,
{
    let mut k = String::from_str(a);
    k.append(sep);
    k.append(b);
    k
}

/// The Subject Algebra system for compositional operations
pub struct SubjectAlgebra {
    rules: Registry<CompositionRule>,
    transformations: Registry<Transformation>,
}

impl Default for SubjectAlgebra {
    fn default() -> (r: Self)
        ensures
            r.rule_names().len() == 0,
            r.transformation_names().len() == 0,
    {
        Self::new()
    }
}

impl SubjectAlgebra {
    /// The keys of the registered composition rules, in order.
    pub closed spec fn rule_names(&self) -> Seq<Seq<char>> {
        self.rules.names()
    }

    /// The registered composition rules, in order.
    pub closed spec fn rule_list(&self) -> Seq<CompositionRule> {
        self.rules.items()
    }

    /// The names of the registered transformations, in order.
    pub closed spec fn transformation_names(&self) -> Seq<Seq<char>> {
        self.transformations.names()
    }

    /// The registered transformations, in order.
    pub closed spec fn transformation_list(&self) -> Seq<Transformation> {
        self.transformations.items()
    }

    /// Create a new Subject Algebra instance
    pub fn new() -> (r: Self)
        ensures
            r.rule_names().len() == 0,
            r.transformation_names().len() == 0,
    {
        SubjectAlgebra { rules: Registry::new(), transformations: Registry::new() }
    }

    /// Register a composition rule under a key such as `sequence:created:reserved`;
    /// one of the same key is replaced.
    pub fn register_rule(&mut self, name: &str, rule: CompositionRule)
        ensures
            final(self).rule_names() == names_after(old(self).rule_names(), name@),
            final(self).rule_list() == items_after(old(self).rule_names(), old(self).rule_list(), name@, rule),
            final(self).transformation_names() == old(self).transformation_names(),
            final(self).transformation_list() == old(self).transformation_list(),
    {
        self.rules.register(name, rule);
    }

    /// Register a transformation; one of the same name is replaced.
    pub fn register_transformation(&mut self, name: &str, transform: Transformation)
        ensures
            final(self).transformation_names() == names_after(old(self).transformation_names(), name@),
            final(self).transformation_list() == items_after(
                old(self).transformation_names(),
                old(self).transformation_list(),
                name@,
                transform,
            ),
            final(self).rule_names() == old(self).rule_names(),
            final(self).rule_list() == old(self).rule_list(),
    {
        self.transformations.register(name, transform);
    }

    /// Compose two subjects. A composition rule registered under the
    /// operation's key decides; without one the default composition applies.
    /// `Transform` applies the named transformation to `left`; `Project` and
    /// `Inject` read `left` alone.
    pub fn compose(&self, left: &Subject, right: &Subject, operation: AlgebraOperation) -> (r: Result<Subject, SubjectError>)
        ensures
            !(operation is Transform) && name_index(
                self.rule_names(),
                composition_key(operation, left@, right@),
            ) is None ==> r is Ok && r->Ok_0@ == default_composition(operation, left@, right@),
            operation is Transform && name_index(
                self.transformation_names(),
                composition_key(operation, left@, right@),
            ) is None ==> r is Err && r->Err_0 is NotFound,
            forall|k: int|
                operation is Transform && name_index(
                    self.transformation_names(),
                    composition_key(operation, left@, right@),
                ) == Some(k) && !pattern_matches(
                    (#[trigger] self.transformation_list()[k]).input_pattern@,
                    subject_string(left@),
                ) ==> r is Err && r->Err_0 is ValidationError,
    {
        match operation {
            AlgebraOperation::Sequence => self.sequence(left, right),
            AlgebraOperation::Parallel => self.parallel(left, right),
            AlgebraOperation::Choice { condition } => self.choice(left, right, &condition),
            AlgebraOperation::Transform { name } => self.transform(left, &name),
            AlgebraOperation::Project { fields } => self.project(left, &fields),
            AlgebraOperation::Inject { context } => self.inject(left, &context),
        }
    }

    /// Sequential composition: left happens before right
    fn sequence(&self, left: &Subject, right: &Subject) -> (r: Result<Subject, SubjectError>)
        ensures
            name_index(
                self.rule_names(),
                composition_key(AlgebraOperation::Sequence, left@, right@),
            ) is None ==> r is Ok && r->Ok_0@ == default_composition(
                AlgebraOperation::Sequence,
                left@,
                right@,
            ),
    {
        proof {
            reveal_strlit(":");
        }
        let key = key_of("sequence:", left.event_type(), right.event_type());
        match self.rules.find(key.as_str()) {
            Some(k) => self.rules.get(k).composer.compose(left, right),
            None => {
                let parts = SubjectParts {
                    context: joined(left.context(), "-", right.context()),
                    aggregate: joined(left.aggregate(), "-", right.aggregate()),
                    event_type: String::from_str("sequenced"),
                    version: String::from_str("v1"),
                };
                Ok(Subject::from_parts(parts))
            },
        }
    }

    /// Parallel composition: left and right happen concurrently
    fn parallel(&self, left: &Subject, right: &Subject) -> (r: Result<Subject, SubjectError>)
        ensures
            name_index(
                self.rule_names(),
                composition_key(AlgebraOperation::Parallel, left@, right@),
            ) is None ==> r is Ok && r->Ok_0@ == default_composition(
                AlgebraOperation::Parallel,
                left@,
                right@,
            ),
    {
        proof {
            reveal_strlit(":");
        }
        let key = key_of("parallel:", left.event_type(), right.event_type());
        match self.rules.find(key.as_str()) {
            Some(k) => self.rules.get(k).composer.compose(left, right),
            None => {
                let parts = SubjectParts {
                    context: joined(left.context(), "+", right.context()),
                    aggregate: joined(left.aggregate(), "+", right.aggregate()),
                    event_type: String::from_str("parallel"),
                    version: String::from_str("v1"),
                };
                Ok(Subject::from_parts(parts))
            },
        }
    }

    /// Choice composition: choose left or right based on condition
    fn choice(&self, left: &Subject, right: &Subject, condition: &String) -> (r: Result<Subject, SubjectError>)
        ensures
            name_index(
                self.rule_names(),
                composition_key(AlgebraOperation::Choice { condition: *condition }, left@, right@),
            ) is None ==> r is Ok && r->Ok_0@ == default_composition(
                AlgebraOperation::Choice { condition: *condition },
                left@,
                right@,
            ),
    {
        proof {
            reveal_strlit(":");
            reveal_strlit("_");
            reveal_strlit("choice");
            reveal_strlit("choice_");
        }
        let mut key = key_of("choice:", left.event_type(), right.event_type());
        key.append(":");
        key.append(condition.as_str());
        assert(key@ =~= composition_key(AlgebraOperation::Choice { condition: *condition }, left@, right@));
        match self.rules.find(key.as_str()) {
            Some(k) => self.rules.get(k).composer.compose(left, right),
            None => {
                let parts = SubjectParts {
                    context: String::from_str(left.context()),
                    aggregate: joined(left.aggregate(), "|", right.aggregate()),
                    event_type: joined("choice", "_", condition.as_str()),
                    version: String::from_str("v1"),
                };
                assert(parts.event_type@ =~= "choice_"@ + condition@);
                Ok(Subject::from_parts(parts))
            },
        }
    }

    /// Transform a subject using a named transformation
    fn transform(&self, subject: &Subject, transform_name: &String) -> (r: Result<Subject, SubjectError>)
        ensures
            name_index(self.transformation_names(), transform_name@) is None ==> r is Err
                && r->Err_0 is NotFound,
            forall|k: int|
                name_index(self.transformation_names(), transform_name@) == Some(k)
                    && !pattern_matches(
                    (#[trigger] self.transformation_list()[k]).input_pattern@,
                    subject_string(subject@),
                ) ==> r is Err && r->Err_0 is ValidationError,
    {
        match self.transformations.find(transform_name.as_str()) {
            Some(k) => self.transformations.get(k).apply(subject),
            None => Err(SubjectError::not_found("Transformation not registered")),
        }
    }

    /// Project specific fields from a subject
    fn project(&self, subject: &Subject, fields: &Vec<String>) -> (r: Result<Subject, SubjectError>)
        ensures
            name_index(
                self.rule_names(),
                composition_key(AlgebraOperation::Project { fields: *fields }, subject@, subject@),
            ) is None ==> r is Ok && r->Ok_0@ == default_composition(
                AlgebraOperation::Project { fields: *fields },
                subject@,
                subject@,
            ),
    {
        proof {
            reveal_strlit(":");
            reveal_strlit(",");
            reveal_strlit("_");
            reveal_strlit("projected");
            reveal_strlit("projected_");
        }
        let key = key_of("project:", subject.event_type(), join_text(fields, ",").as_str());
        match self.rules.find(key.as_str()) {
            Some(k) => self.rules.get(k).composer.compose(subject, subject),
            None => {
                let parts = SubjectParts {
                    context: String::from_str(subject.context()),
                    aggregate: String::from_str(subject.aggregate()),
                    event_type: joined("projected", "_", join_text(fields, "_").as_str()),
                    version: String::from_str(subject.version()),
                };
                assert(parts.event_type@ =~= "projected_"@ + join_with(views(fields@), '_'));
                Ok(Subject::from_parts(parts))
            },
        }
    }

    /// Inject a subject into a different context
    fn inject(&self, subject: &Subject, new_context: &String) -> (r: Result<Subject, SubjectError>)
        ensures
            name_index(
                self.rule_names(),
                composition_key(AlgebraOperation::Inject { context: *new_context }, subject@, subject@),
            ) is None ==> r is Ok && r->Ok_0@ == default_composition(
                AlgebraOperation::Inject { context: *new_context },
                subject@,
                subject@,
            ),
    {
        proof {
            reveal_strlit(":");
        }
        let key = key_of("inject:", subject.context(), new_context.as_str());
        match self.rules.find(key.as_str()) {
            Some(k) => self.rules.get(k).composer.compose(subject, subject),
            None => {
                let parts = SubjectParts {
                    context: new_context.clone(),
                    aggregate: String::from_str(subject.aggregate()),
                    event_type: String::from_str(subject.event_type()),
                    version: String::from_str(subject.version()),
                };
                Ok(Subject::from_parts(parts))
            },
        }
    }

    /// The subjects of a list that match a pattern, in order.
    pub fn find_matching(&self, pattern: &Pattern, subjects: &[Subject]) -> (r: Vec<Subject>)
        ensures
            subject_views(r@) == subject_views(subjects@).filter(
                |v: SubjectView| pattern_matches(pattern@, subject_string(v)),
            ),
    {
        let ghost all = subject_views(subjects@);
        let ghost pred = |v: SubjectView| pattern_matches(pattern@, subject_string(v));
        let mut out: Vec<Subject> = Vec::new();
        let mut i: usize = 0;
        while i < subjects.len()
            invariant
                all == subject_views(subjects@),
                pred == (|v: SubjectView| pattern_matches(pattern@, subject_string(v))),
                i <= subjects@.len(),
                subject_views(out@) == all.subrange(0, i as int).filter(pred),
            decreases subjects@.len() - i,
        {
            let ghost before = out@;
            assert(all.subrange(0, i + 1).drop_last() =~= all.subrange(0, i as int));
            assert(all.subrange(0, i + 1).last() == subjects@[i as int]@);
            reveal(Seq::filter);
            if pattern.matches(&subjects[i]) {
                out.push(subjects[i].clone());
                assert(subject_views(out@) =~= subject_views(before).push(subjects@[i as int]@));
            } else {
                assert(subject_views(out@) =~= subject_views(before));
            }
            i = i + 1;
        }
        assert(all.subrange(0, i as int) =~= all);
        out
    }

    /// Create a subject lattice over a list of subjects
    pub fn create_lattice(&self, subjects: &[Subject]) -> (r: SubjectLattice)
        ensures
            r.members() == subject_views(subjects@),
            r.order() == lattice_pairs(subject_views(subjects@), subjects@.len() as int),
    {
        SubjectLattice::new(subjects)
    }
}

/// `a` is less specific than `b`: same context, and `a`'s event type is `*`,
/// or `changed` while `b`'s is `created`, `updated` or `deleted`.
pub open spec fn less_specific(a: SubjectView, b: SubjectView) -> bool {
    a.context == b.context && (a.event_type == "*"@ || (a.event_type == "changed"@ && (b.event_type
        == "created"@ || b.event_type == "updated"@ || b.event_type == "deleted"@)))
}

/// The pairs `(i, j)` with `j < n`, `j != i` and member `i` less specific
/// than member `j`, by increasing `j`.
pub open spec fn row_pairs(vs: Seq<SubjectView>, i: int, n: int) -> Seq<(usize, usize)>
    decreases n,
{
    if n <= 0 {
        Seq::<(usize, usize)>::empty()
    } else {
        let p = row_pairs(vs, i, n - 1);
        if i != n - 1 && less_specific(vs[i], vs[n - 1]) {
            p.push((i as usize, (n - 1) as usize))
        } else {
            p
        }
    }
}

/// The ordering pairs of the first `m` rows, row by row.
pub open spec fn lattice_pairs(vs: Seq<SubjectView>, m: int) -> Seq<(usize, usize)>
    decreases m,
{
    if m <= 0 {
        Seq::<(usize, usize)>::empty()
    } else {
        lattice_pairs(vs, m - 1) + row_pairs(vs, m - 1, vs.len() as int)
    }
}

pub open spec fn member_at(vs: Seq<SubjectView>, k: int, a: SubjectView) -> bool {
    vs[k] == a
}

/// Member `i` is a recorded ancestor (less specific) of the members at `ai` and `bi`.
pub open spec fn ancestor_of_both(order: Seq<(usize, usize)>, ai: int, bi: int, i: int) -> bool {
    order.contains((i as usize, ai as usize)) && order.contains((i as usize, bi as usize))
}

/// The join of `a` and `b`: the first member that is a recorded ancestor of
/// both the first member equal to `a` and the first member equal to `b`.
pub open spec fn lattice_join(vs: Seq<SubjectView>, order: Seq<(usize, usize)>, a: SubjectView, b: SubjectView) -> Option<SubjectView> {
    match (
        first_where(vs.len() as int, |k: int| member_at(vs, k, a)),
        first_where(vs.len() as int, |k: int| member_at(vs, k, b)),
    ) {
        (Some(ai), Some(bi)) => match first_where(
            vs.len() as int,
            |i: int| ancestor_of_both(order, ai, bi, i),
        ) {
            Some(i) => Some(vs[i]),
            None => None,
        },
        _ => None,
    }
}

/// A lattice structure for subjects (partial order)
#[derive(Debug, Clone)]
pub struct SubjectLattice {
    subjects: Vec<Subject>,
    ordering: Vec<(usize, usize)>,
}

impl SubjectLattice {
    /// The subjects of the lattice, in order.
    pub closed spec fn members(&self) -> Seq<SubjectView> {
        subject_views(self.subjects@)
    }

    /// The recorded pairs `(less, more)` of member positions.
    pub closed spec fn order(&self) -> Seq<(usize, usize)> {
        self.ordering@
    }

    /// Create a new subject lattice
    pub fn new(subjects: &[Subject]) -> (r: Self)
        ensures
            r.members() == subject_views(subjects@),
            r.order() == lattice_pairs(subject_views(subjects@), subjects@.len() as int),
    {
        let mut copies: Vec<Subject> = Vec::new();
        let mut i: usize = 0;
        while i < subjects.len()
            invariant
                i <= subjects@.len(),
                subject_views(copies@) == subject_views(subjects@).subrange(0, i as int),
            decreases subjects@.len() - i,
        {
            let ghost before = copies@;
            copies.push(subjects[i].clone());
            i = i + 1;
            assert(subject_views(copies@) =~= subject_views(before).push(subjects@[i - 1]@));
            assert(subject_views(copies@) =~= subject_views(subjects@).subrange(0, i as int));
        }
        assert(subject_views(subjects@).subrange(0, i as int) =~= subject_views(subjects@));
        let mut lattice = SubjectLattice { subjects: copies, ordering: Vec::new() };
        lattice.compute_ordering();
        lattice
    }

    /// Compute the ordering relationships
    fn compute_ordering(&mut self)
        requires
            old(self).ordering@.len() == 0,
        ensures
            final(self).subjects@ == old(self).subjects@,
            final(self).ordering@ == lattice_pairs(subject_views(old(self).subjects@), old(self).subjects@.len() as int),
    {
        let ghost vs = subject_views(self.subjects@);
        let n = self.subjects.len();
        let mut i: usize = 0;
        while i < n
            invariant
                n == self.subjects@.len(),
                vs == subject_views(self.subjects@),
                self.subjects@ == old(self).subjects@,
                i <= n,
                self.ordering@ == lattice_pairs(vs, i as int),
            decreases n - i,
        {
            let ghost start = self.ordering@;
            let mut j: usize = 0;
            while j < n
                invariant
                    n == self.subjects@.len(),
                    vs == subject_views(self.subjects@),
                    self.subjects@ == old(self).subjects@,
                    i < n,
                    j <= n,
                    self.ordering@ == start + row_pairs(vs, i as int, j as int),
                decreases n - j,
            {
                if i != j && self.is_less_specific(i, j) {
                    self.ordering.push((i, j));
                }
                assert(self.ordering@ =~= start + row_pairs(vs, i as int, j + 1));
                j = j + 1;
            }
            assert(vs.len() == n);
            i = i + 1;
        }
    }

    /// Check if the subject at `i` is less specific than the one at `j`
    fn is_less_specific(&self, i: usize, j: usize) -> (r: bool)
        requires
            i < self.subjects@.len(),
            j < self.subjects@.len(),
        ensures
            r == less_specific(self.subjects@[i as int]@, self.subjects@[j as int]@),
    {
        let si = &self.subjects[i];
        let sj = &self.subjects[j];
        if !same_text(si.context(), sj.context()) {
            return false;
        }
        let ei = si.event_type();
        let ej = sj.event_type();
        same_text(ei, "*") || (same_text(ei, "changed") && (same_text(ej, "created") || same_text(
            ej,
            "updated",
        ) || same_text(ej, "deleted")))
    }

    /// The recorded ordering pairs `(less, more)`.
    pub fn ordering(&self) -> (r: &Vec<(usize, usize)>)
        ensures
            r@ == self.order(),
    {
        &self.ordering
    }

    /// Find the join of two subjects: the first member that is a recorded
    /// ancestor (a less specific generalization) of both; none when either
    /// is not a member or no such member exists.
    pub fn join(&self, a: &Subject, b: &Subject) -> (r: Option<Subject>)
        ensures
            match lattice_join(self.members(), self.order(), a@, b@) {
                Some(v) => r is Some && r->0@ == v,
                None => r is None,
            },
    {
        let ghost vs = self.members();
        let a_idx = match self.position(a) {
            Some(k) => k,
            None => return None,
        };
        let b_idx = match self.position(b) {
            Some(k) => k,
            None => return None,
        };
        let ghost pred = |i: int| ancestor_of_both(self.order(), a_idx as int, b_idx as int, i);
        proof {
            lemma_first_where(vs.len() as int, pred);
        }
        let n = self.subjects.len();
        let mut i: usize = 0;
        while i < n
            invariant
                n == vs.len(),
                vs == self.members(),
                pred == (|i: int| ancestor_of_both(self.order(), a_idx as int, b_idx as int, i)),
                first_where(self.members().len() as int, |k: int| member_at(self.members(), k, a@)) == Some(a_idx as int),
                first_where(self.members().len() as int, |k: int| member_at(self.members(), k, b@)) == Some(b_idx as int),
                i <= n,
                forall|j: int| 0 <= j < i ==> !#[trigger] pred(j),
                first_where(vs.len() as int, pred) is None <==> (forall|j: int|
                    0 <= j < vs.len() ==> !#[trigger] pred(j)),
                forall|k: int|
                    first_where(vs.len() as int, pred) == Some(k) <==> (0 <= k < vs.len() && pred(k)
                        && forall|j: int| 0 <= j < k ==> !#[trigger] pred(j)),
            decreases n - i,
        {
            if self.is_ancestor(i, a_idx) && self.is_ancestor(i, b_idx) {
                assert(pred(i as int));
                assert(first_where(vs.len() as int, pred) == Some(i as int));
                assert(lattice_join(vs, self.order(), a@, b@) == Some(vs[i as int]));
                assert(vs[i as int] == self.subjects@[i as int]@);
                return Some(self.subjects[i].clone());
            }
            i = i + 1;
        }
        None
    }

    /// The first member equal to `s`.
    fn position(&self, s: &Subject) -> (r: Option<usize>)
        ensures
            match r {
                Some(k) => first_where(self.members().len() as int, |k: int| member_at(self.members(), k, s@)) == Some(k as int),
                None => first_where(self.members().len() as int, |k: int| member_at(self.members(), k, s@)) is None,
            },
    {
        let ghost vs = self.members();
        let ghost pred = |k: int| member_at(vs, k, s@);
        proof {
            lemma_first_where(vs.len() as int, pred);
        }
        let n = self.subjects.len();
        let mut i: usize = 0;
        while i < n
            invariant
                n == vs.len(),
                vs == self.members(),
                pred == (|k: int| member_at(vs, k, s@)),
                i <= n,
                forall|j: int| 0 <= j < i ==> !#[trigger] pred(j),
                first_where(vs.len() as int, pred) is None <==> (forall|j: int|
                    0 <= j < vs.len() ==> !#[trigger] pred(j)),
                forall|k: int|
                    first_where(vs.len() as int, pred) == Some(k) <==> (0 <= k < vs.len() && pred(k)
                        && forall|j: int| 0 <= j < k ==> !#[trigger] pred(j)),
            decreases n - i,
        {
            if self.subjects[i].same_as(s) {
                assert(pred(i as int));
                return Some(i);
            }
            i = i + 1;
        }
        None
    }

    /// Whether `(a, b)` is a recorded pair
    fn is_ancestor(&self, a: usize, b: usize) -> (r: bool)
        ensures
            r == self.order().contains((a, b)),
    {
        let mut k: usize = 0;
        while k < self.ordering.len()
            invariant
                k <= self.ordering@.len(),
                forall|j: int| 0 <= j < k ==> self.ordering@[j] != (a, b),
            decreases self.ordering@.len() - k,
        {
            let (x, y) = self.ordering[k];
            if x == a && y == b {
                assert(self.ordering@[k as int] == (a, b));
                return true;
            }
            k = k + 1;
        }
        false
    }
}

} // verus!
