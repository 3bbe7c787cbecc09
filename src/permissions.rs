//! Subject-based permissions: access decisions by the most specific matching rule.
use vstd::prelude::*;
use vstd::string::*;
use crate::error::SubjectError;
use crate::pattern::{
    lemma_more_specific_irreflexive, lemma_more_specific_split, lemma_more_specific_transitive,
    more_specific, pattern_matches, valid_pattern, Pattern,
};
use crate::subject::{subject_string, subject_views, Subject, SubjectView};

verus! {

/// Operations that can be performed on subjects
#[derive(Debug, Clone, Copy, PartialEq, Eq, Hash, Structural)]
pub enum Operation {
    /// Publish messages to a subject
    Publish,
    /// Subscribe to receive messages from a subject
    Subscribe,
    /// Make request-reply calls on a subject
    Request,
    /// All operations
    All,
}

/// Permission policy
#[derive(Debug, Clone, Copy, PartialEq, Eq, Hash, Structural)]
pub enum Policy {
    /// Allow the operation
    Allow,
    /// Deny the operation
    Deny,
}

impl Operation {
    /// The basic operations (not including `All`).
    pub fn all_operations() -> (r: Vec<Operation>)
        ensures
            r@ == seq![Operation::Publish, Operation::Subscribe, Operation::Request],
    {
        let mut ops: Vec<Operation> = Vec::new();
        ops.push(Operation::Publish);
        ops.push(Operation::Subscribe);
        ops.push(Operation::Request);
        ops
    }
}

/// A permission rule as the contracts see it.
pub struct RuleView {
    pub pattern: Seq<char>,
    pub operations: Set<Operation>,
    pub policy: Policy,
    pub description: Option<Seq<char>>,
}

/// A permission rule
#[derive(Debug, Clone)]
pub struct PermissionRule {
    /// Pattern to match subjects
    pub pattern: Pattern,
    /// Operations this rule applies to
    pub operations: Vec<Operation>,
    /// Policy (allow or deny)
    pub policy: Policy,
    /// Optional description
    pub description: Option<String>,
}

impl View for PermissionRule {
    type V = RuleView;

    open spec fn view(&self) -> RuleView {
        RuleView {
            pattern: self.pattern@,
            operations: self.operations@.to_set(),
            policy: self.policy,
            description: match self.description {
                Some(d) => Some(d@),
                None => None,
            },
        }
    }
}

pub open spec fn rule_views(v: Seq<PermissionRule>) -> Seq<RuleView> {
    v.map_values(|r: PermissionRule| r@)
}

/// Rule `r` governs operation `op` on the subject text `s`.
pub open spec fn rule_applies(r: RuleView, s: Seq<char>, op: Operation) -> bool {
    pattern_matches(r.pattern, s) && r.operations.contains(op)
}

/// Rule `w` decides: it applies, no applicable rule is more specific, and it
/// is more specific than every applicable rule registered before it (so
/// among equally specific rules the earliest one decides).
pub open spec fn is_winner(rules: Seq<RuleView>, s: Seq<char>, op: Operation, w: int) -> bool {
    &&& 0 <= w < rules.len()
    &&& rule_applies(rules[w], s, op)
    &&& forall|j: int|
        0 <= j < rules.len() && rule_applies(#[trigger] rules[j], s, op) ==> !more_specific(
            rules[j].pattern,
            rules[w].pattern,
        )
    &&& forall|j: int|
        0 <= j < w && rule_applies(#[trigger] rules[j], s, op) ==> more_specific(
            rules[w].pattern,
            rules[j].pattern,
        )
}

pub open spec fn any_applies(rules: Seq<RuleView>, s: Seq<char>, op: Operation) -> bool {
    exists|j: int| 0 <= j < rules.len() && rule_applies(#[trigger] rules[j], s, op)
}

/// The access decision: the winning rule's policy, or the default policy when
/// no rule applies.
pub open spec fn decision(rules: Seq<RuleView>, default_policy: Policy, s: Seq<char>, op: Operation) -> bool {
    if any_applies(rules, s, op) {
        exists|w: int| is_winner(rules, s, op, w) && rules[w].policy == Policy::Allow
    } else {
        default_policy == Policy::Allow
    }
}

/// At most one rule wins.
pub proof fn lemma_winner_unique(rules: Seq<RuleView>, s: Seq<char>, op: Operation, a: int, b: int)
    requires
        is_winner(rules, s, op, a),
        is_winner(rules, s, op, b),
    ensures
        a == b,
{
    if a < b {
        assert(rule_applies(rules[a], s, op));
    } else if b < a {
        assert(rule_applies(rules[b], s, op));
    }
}

/// The permission set as the contracts see it.
pub struct PermissionsView {
    pub rules: Seq<RuleView>,
    pub default_policy: Policy,
}

/// Permissions for subject-based operations
#[derive(Debug, Clone)]
pub struct Permissions {
    rules: Vec<PermissionRule>,
    default_policy: Policy,
}

impl View for Permissions {
    type V = PermissionsView;

    closed spec fn view(&self) -> PermissionsView {
        PermissionsView { rules: rule_views(self.rules@), default_policy: self.default_policy }
    }
}

/// Whether the permission set allows `op` on the subject text `s`.
pub open spec fn allows(p: PermissionsView, s: Seq<char>, op: Operation) -> bool {
    decision(p.rules, p.default_policy, s, op)
}

/// The subjects of `v` on which `op` is allowed, in order.
pub open spec fn allowed_subjects(p: PermissionsView, v: Seq<SubjectView>, op: Operation) -> Seq<
    SubjectView,
> {
    v.filter(|x: SubjectView| allows(p, subject_string(x), op))
}

/// The rule that two allow rules give together when their operations meet:
/// the more specific pattern (the second on a tie), with the common operations.
pub open spec fn meet_rule(a: RuleView, b: RuleView) -> RuleView {
    RuleView {
        pattern: if more_specific(a.pattern, b.pattern) { a.pattern } else { b.pattern },
        operations: a.operations.intersect(b.operations),
        policy: Policy::Allow,
        description: None,
    }
}

pub open spec fn rules_meet(a: RuleView, b: RuleView) -> bool {
    a.policy == Policy::Allow && b.policy == Policy::Allow && a.operations.intersect(b.operations)
        != Set::<Operation>::empty()
}

/// The meets of rule `a` with each rule of `bs`, in order.
pub open spec fn meets_with(a: RuleView, bs: Seq<RuleView>) -> Seq<RuleView>
    decreases bs.len(),
{
    if bs.len() == 0 {
        Seq::<RuleView>::empty()
    } else {
        let prev = meets_with(a, bs.drop_last());
        if rules_meet(a, bs.last()) {
            prev.push(meet_rule(a, bs.last()))
        } else {
            prev
        }
    }
}

/// The meets of every rule of `as_` with every rule of `bs`, row by row.
pub open spec fn intersect_rules(as_: Seq<RuleView>, bs: Seq<RuleView>) -> Seq<RuleView>
    decreases as_.len(),
{
    if as_.len() == 0 {
        Seq::<RuleView>::empty()
    } else {
        intersect_rules(as_.drop_last(), bs) + meets_with(as_.last(), bs)
    }
}

fn has_operation(ops: &Vec<Operation>, op: Operation) -> (r: bool)
    ensures
        r == ops@.contains(op),
{
    let mut i: usize = 0;
    while i < ops.len()
        invariant
            i <= ops@.len(),
            forall|j: int| 0 <= j < i ==> ops@[j] != op,
        decreases ops@.len() - i,
    {
        if ops[i] == op {
            return true;
        }
        i = i + 1;
    }
    false
}

fn copy_operations(ops: &[Operation]) -> (r: Vec<Operation>)
    ensures
        r@ == ops@,
{
    let mut out: Vec<Operation> = Vec::new();
    let mut i: usize = 0;
    while i < ops.len()
        invariant
            i <= ops@.len(),
            out@ == ops@.subrange(0, i as int),
        decreases ops@.len() - i,
    {
        out.push(ops[i]);
        i = i + 1;
        assert(out@ =~= ops@.subrange(0, i as int));
    }
    assert(out@ =~= ops@);
    out
}

/// The operations of `a` that `b` holds too.
fn common_operations(a: &Vec<Operation>, b: &Vec<Operation>) -> (r: Vec<Operation>)
    ensures
        r@.to_set() == a@.to_set().intersect(b@.to_set()),
{
    let mut out: Vec<Operation> = Vec::new();
    let mut i: usize = 0;
    while i < a.len()
        invariant
            i <= a@.len(),
            out@.to_set() == a@.subrange(0, i as int).to_set().intersect(b@.to_set()),
        decreases a@.len() - i,
    {
        let ghost before = out@;
        let ghost pre = a@.subrange(0, i as int);
        if has_operation(b, a[i]) {
            out.push(a[i]);
        }
        i = i + 1;
        assert(a@.subrange(0, i as int) =~= pre.push(a@[i - 1]));
        proof {
            Seq::lemma_to_set_insert_commutes(pre, a@[i - 1]);
            Seq::lemma_to_set_insert_commutes(before, a@[i - 1]);
        }
        proof {
            let x = a@[i - 1];
            let target = a@.subrange(0, i as int).to_set().intersect(b@.to_set());
            assert(pre + seq![x] =~= pre.push(x));
            assert(before + seq![x] =~= before.push(x));
            assert(a@.subrange(0, i as int).to_set() == pre.to_set().insert(x));
            if b@.contains(x) {
                assert(out@ == before.push(x));
                assert(out@.to_set() == before.to_set().insert(x));
                assert(b@.to_set().contains(x));
            } else {
                assert(out@ == before);
                assert(!b@.to_set().contains(x));
            }
            assert(out@.to_set() =~= target);
        }
        assert(out@.to_set() =~= a@.subrange(0, i as int).to_set().intersect(b@.to_set()));
    }
    assert(a@.subrange(0, a@.len() as int) =~= a@);
    out
}

impl PermissionRule {
    /// Create a new permission rule
    pub fn new(pattern: Pattern, operations: Vec<Operation>, policy: Policy) -> (r: Self)
        ensures
            r.pattern@ == pattern@,
            r.operations@ == operations@,
            r.policy == policy,
            r.description is None,
    {
        PermissionRule { pattern, operations, policy, description: None }
    }

    /// Create an allow rule
    pub fn allow(pattern: Pattern, operations: Vec<Operation>) -> (r: Self)
        ensures
            r.pattern@ == pattern@,
            r.operations@ == operations@,
            r.policy == Policy::Allow,
            r.description is None,
    {
        Self::new(pattern, operations, Policy::Allow)
    }

    /// Create a deny rule
    pub fn deny(pattern: Pattern, operations: Vec<Operation>) -> (r: Self)
        ensures
            r.pattern@ == pattern@,
            r.operations@ == operations@,
            r.policy == Policy::Deny,
            r.description is None,
    {
        Self::new(pattern, operations, Policy::Deny)
    }

    /// Add a description
    pub fn with_description(self, description: &str) -> (r: Self)
        ensures
            r@ == (RuleView { description: Some(description@), ..self@ }),
    {
        PermissionRule { description: Some(String::from_str(description)), ..self }
    }

    /// Check if this rule matches a subject and operation
    pub fn matches(&self, subject: &Subject, operation: Operation) -> (r: bool)
        ensures
            r == rule_applies(self@, subject_string(subject@), operation),
    {
        self.pattern.matches(subject) && has_operation(&self.operations, operation)
    }
}

impl Default for Permissions {
    fn default() -> (r: Self)
        ensures
            r@.rules.len() == 0,
            r@.default_policy == Policy::Deny,
    {
        Self::new(Policy::Deny)
    }
}

impl Permissions {
    /// Create new permissions with a default policy
    pub fn new(default_policy: Policy) -> (r: Self)
        ensures
            r@.rules.len() == 0,
            r@.default_policy == default_policy,
    {
        Permissions { rules: Vec::new(), default_policy }
    }

    /// The rules, in the order they were added.
    pub fn rules(&self) -> (r: &Vec<PermissionRule>)
        ensures
            rule_views(r@) == self@.rules,
    {
        &self.rules
    }

    /// The policy that applies when no rule does.
    pub fn default_policy(&self) -> (r: Policy)
        ensures
            r == self@.default_policy,
    {
        self.default_policy
    }

    /// Add a permission rule
    pub fn add_rule(&mut self, rule: PermissionRule)
        ensures
            final(self)@.rules == old(self)@.rules.push(rule@),
            final(self)@.default_policy == old(self)@.default_policy,
    {
        let ghost r = rule@;
        self.rules.push(rule);
        assert(rule_views(self.rules@) =~= rule_views(old(self).rules@).push(r));
    }

    /// Check if an operation is allowed on a subject: the most specific rule
    /// that matches the subject and holds the operation decides; among equally
    /// specific ones the earliest registered; with none, the default policy.
    pub fn is_allowed(&self, subject: &Subject, operation: Operation) -> (r: bool)
        ensures
            r == allows(self@, subject_string(subject@), operation),
    {
        let ghost rules = self@.rules;
        let ghost s = subject_string(subject@);
        let mut best: Option<usize> = None;
        let mut i: usize = 0;
        while i < self.rules.len()
            invariant
                rules == rule_views(self.rules@),
                s == subject_string(subject@),
                i <= rules.len(),
                match best {
                    None => forall|j: int| 0 <= j < i ==> !rule_applies(#[trigger] rules[j], s, operation),
                    Some(b) => {
                        &&& b < i
                        &&& rule_applies(rules[b as int], s, operation)
                        &&& forall|j: int|
                            0 <= j < i && rule_applies(#[trigger] rules[j], s, operation)
                                ==> !more_specific(rules[j].pattern, rules[b as int].pattern)
                        &&& forall|j: int|
                            0 <= j < b && rule_applies(#[trigger] rules[j], s, operation)
                                ==> more_specific(rules[b as int].pattern, rules[j].pattern)
                    },
                },
            decreases rules.len() - i,
        {
            let rule = &self.rules[i];
            assert(rules[i as int] == rule@);
            if rule.matches(subject, operation) {
                match best {
                    None => {
                        best = Some(i);
                        proof {
                            assert forall|j: int|
                                0 <= j < i + 1 && rule_applies(#[trigger] rules[j], s, operation)
                                implies !more_specific(rules[j].pattern, rules[i as int].pattern) by {
                                lemma_more_specific_irreflexive(rules[i as int].pattern);
                            }
                        }
                    },
                    Some(b) => {
                        if rule.pattern.is_more_specific_than(&self.rules[b].pattern) {
                            assert(rules[b as int] == self.rules@[b as int]@);
                            proof {
                                let pi = rules[i as int].pattern;
                                let pb = rules[b as int].pattern;
                                assert forall|j: int|
                                    0 <= j < i + 1 && rule_applies(#[trigger] rules[j], s, operation)
                                    implies !more_specific(rules[j].pattern, pi) by {
                                    if j < i && more_specific(rules[j].pattern, pi) {
                                        lemma_more_specific_transitive(rules[j].pattern, pi, pb);
                                    }
                                    if j == i {
                                        lemma_more_specific_irreflexive(pi);
                                    }
                                }
                                assert forall|j: int|
                                    0 <= j < i && rule_applies(#[trigger] rules[j], s, operation)
                                    implies more_specific(pi, rules[j].pattern) by {
                                    lemma_more_specific_split(pi, rules[j].pattern, pb);
                                }
                            }
                            best = Some(i);
                        } else {
                            assert(rules[b as int] == self.rules@[b as int]@);
                        }
                    },
                }
            }
            i = i + 1;
        }
        match best {
            Some(b) => {
                assert(is_winner(rules, s, operation, b as int));
                assert(any_applies(rules, s, operation));
                assert(rules[b as int] == self.rules@[b as int]@);
                proof {
                    if !(self.rules[b as int].policy == Policy::Allow) {
                        assert forall|w: int| is_winner(rules, s, operation, w) implies !(rules[w].policy == Policy::Allow) by {
                            lemma_winner_unique(rules, s, operation, w, b as int);
                        }
                    }
                }
                self.rules[b].policy == Policy::Allow
            },
            None => {
                assert(!any_applies(rules, s, operation));
                self.default_policy == Policy::Allow
            },
        }
    }

    /// Check if publishing to a subject is allowed
    pub fn can_publish(&self, subject: &Subject) -> (r: bool)
        ensures
            r == allows(self@, subject_string(subject@), Operation::Publish),
    {
        self.is_allowed(subject, Operation::Publish)
    }

    /// Check if subscribing to a subject is allowed
    pub fn can_subscribe(&self, subject: &Subject) -> (r: bool)
        ensures
            r == allows(self@, subject_string(subject@), Operation::Subscribe),
    {
        self.is_allowed(subject, Operation::Subscribe)
    }

    /// Check if requesting on a subject is allowed
    pub fn can_request(&self, subject: &Subject) -> (r: bool)
        ensures
            r == allows(self@, subject_string(subject@), Operation::Request),
    {
        self.is_allowed(subject, Operation::Request)
    }

    /// The subjects of a list on which an operation is allowed, in order.
    pub fn filter_allowed(&self, subjects: &[Subject], operation: Operation) -> (r: Vec<Subject>)
        ensures
            subject_views(r@) == allowed_subjects(self@, subject_views(subjects@), operation),
    {
        let ghost all = subject_views(subjects@);
        let mut out: Vec<Subject> = Vec::new();
        let mut i: usize = 0;
        while i < subjects.len()
            invariant
                all == subject_views(subjects@),
                i <= subjects@.len(),
                subject_views(out@) == allowed_subjects(self@, all.subrange(0, i as int), operation),
            decreases subjects@.len() - i,
        {
            let ghost before = out@;
            let ghost pre = all.subrange(0, i as int);
            assert(all.subrange(0, i + 1).drop_last() =~= pre);
            assert(all.subrange(0, i + 1).last() == subjects@[i as int]@);
            reveal(Seq::filter);
            if self.is_allowed(&subjects[i], operation) {
                out.push(subjects[i].clone());
                assert(subject_views(out@) =~= subject_views(before).push(subjects@[i as int]@));
            } else {
                assert(subject_views(out@) =~= subject_views(before));
            }
            i = i + 1;
        }
        assert(all.subrange(0, i as int) =~= all);
        out
    }

    /// Merge another permission set into this one: its rules are appended.
    pub fn merge(&mut self, other: Permissions)
        ensures
            final(self)@.rules == old(self)@.rules + other@.rules,
            final(self)@.default_policy == old(self)@.default_policy,
    {
        let mut rest = other.rules;
        let ghost before = self.rules@;
        let ghost added = rest@;
        self.rules.append(&mut rest);
        assert(rule_views(self.rules@) =~= rule_views(before) + rule_views(added));
    }

    /// A more restrictive permission set: for each pair of allow rules, one
    /// from each side, whose operations meet, the more specific pattern with the
    /// common operations; the default policy is deny.
    pub fn intersect(&self, other: &Permissions) -> (r: Permissions)
        ensures
            r@.rules == intersect_rules(self@.rules, other@.rules),
            r@.default_policy == Policy::Deny,
    {
        let ghost bs = other@.rules;
        let mut result = Permissions::new(Policy::Deny);
        let mut i: usize = 0;
        while i < self.rules.len()
            invariant
                bs == other@.rules,
                i <= self.rules@.len(),
                result@.rules == intersect_rules(self@.rules.subrange(0, i as int), bs),
                result@.default_policy == Policy::Deny,
            decreases self.rules@.len() - i,
        {
            let self_rule = &self.rules[i];
            let ghost a = self_rule@;
            let ghost start = result@.rules;
            let mut j: usize = 0;
            while j < other.rules.len()
                invariant
                    bs == other@.rules,
                    a == self_rule@,
                    j <= bs.len(),
                    result@.rules == start + meets_with(a, bs.subrange(0, j as int)),
                    result@.default_policy == Policy::Deny,
                decreases bs.len() - j,
            {
                let other_rule = &other.rules[j];
                assert(bs[j as int] == other_rule@);
                assert(bs.subrange(0, j + 1).drop_last() =~= bs.subrange(0, j as int));
                let ghost before = result@.rules;
                if self_rule.policy == Policy::Allow && other_rule.policy == Policy::Allow {
                    let common = common_operations(&self_rule.operations, &other_rule.operations);
                    if common.len() > 0 {
                        assert(common@.to_set().contains(common@[0]));
                        let pattern = if self_rule.pattern.is_more_specific_than(&other_rule.pattern) {
                            self_rule.pattern.clone()
                        } else {
                            other_rule.pattern.clone()
                        };
                        let rule = PermissionRule::new(pattern, common, Policy::Allow);
                        assert(rule@ =~= meet_rule(a, bs[j as int]));
                        result.add_rule(rule);
                        assert(result@.rules =~= start + meets_with(a, bs.subrange(0, j + 1)));
                    } else {
                        assert(common@.to_set() =~= Set::<Operation>::empty());
                        assert(result@.rules =~= start + meets_with(a, bs.subrange(0, j + 1)));
                    }
                } else {
                    assert(result@.rules =~= start + meets_with(a, bs.subrange(0, j + 1)));
                }
                j = j + 1;
            }
            assert(bs.subrange(0, j as int) =~= bs);
            assert(self@.rules[i as int] == a);
            assert(self@.rules.subrange(0, i + 1).drop_last() =~= self@.rules.subrange(0, i as int));
            i = i + 1;
        }
        assert(self@.rules.subrange(0, i as int) =~= self@.rules);
        result
    }
}

/// Builder for permissions
#[derive(Debug)]
pub struct PermissionsBuilder {
    rules: Vec<PermissionRule>,
    default_policy: Option<Policy>,
}

/// What a permissions builder has collected so far.
pub struct PermissionsBuilderView {
    pub rules: Seq<RuleView>,
    pub default_policy: Option<Policy>,
}

impl View for PermissionsBuilder {
    type V = PermissionsBuilderView;

    closed spec fn view(&self) -> PermissionsBuilderView {
        PermissionsBuilderView { rules: rule_views(self.rules@), default_policy: self.default_policy }
    }
}

/// The rule that a builder adds for a pattern text and a list of operations.
pub open spec fn built_rule(pattern: Seq<char>, ops: Seq<Operation>, policy: Policy) -> RuleView {
    RuleView { pattern, operations: ops.to_set(), policy, description: None }
}

impl Default for PermissionsBuilder {
    fn default() -> (r: Self)
        ensures
            r@.rules.len() == 0,
            r@.default_policy is None,
    {
        Self::new()
    }
}

impl PermissionsBuilder {
    /// Create a new permissions builder
    pub fn new() -> (r: Self)
        ensures
            r@.rules.len() == 0,
            r@.default_policy is None,
    {
        PermissionsBuilder { rules: Vec::new(), default_policy: None }
    }

    /// Set the default policy
    pub fn default_policy(self, policy: Policy) -> (r: Self)
        ensures
            r@.rules == self@.rules,
            r@.default_policy == Some(policy),
    {
        PermissionsBuilder { rules: self.rules, default_policy: Some(policy) }
    }

    fn push_rule(self, pattern: &str, operations: &[Operation], policy: Policy) -> (r: Result<Self, SubjectError>)
        ensures
            r is Ok <==> valid_pattern(pattern@),
            r is Ok ==> r->Ok_0@ == (PermissionsBuilderView {
                rules: self@.rules.push(built_rule(pattern@, operations@, policy)),
                ..self@
            }),
            r is Err ==> r->Err_0 is InvalidPattern,
    {
        let pattern = Pattern::new(pattern)?;
        let ops = copy_operations(operations);
        let rule = PermissionRule::new(pattern, ops, policy);
        let mut rules = self.rules;
        let ghost before = rules@;
        rules.push(rule);
        assert(rule_views(rules@) =~= rule_views(before).push(rule@));
        Ok(PermissionsBuilder { rules, default_policy: self.default_policy })
    }

    /// Allow a pattern for specific operations
    pub fn allow(self, pattern: &str, operations: &[Operation]) -> (r: Result<Self, SubjectError>)
        ensures
            r is Ok <==> valid_pattern(pattern@),
            r is Ok ==> r->Ok_0@ == (PermissionsBuilderView {
                rules: self@.rules.push(built_rule(pattern@, operations@, Policy::Allow)),
                ..self@
            }),
            r is Err ==> r->Err_0 is InvalidPattern,
    {
        self.push_rule(pattern, operations, Policy::Allow)
    }

    /// Deny a pattern for specific operations
    pub fn deny(self, pattern: &str, operations: &[Operation]) -> (r: Result<Self, SubjectError>)
        ensures
            r is Ok <==> valid_pattern(pattern@),
            r is Ok ==> r->Ok_0@ == (PermissionsBuilderView {
                rules: self@.rules.push(built_rule(pattern@, operations@, Policy::Deny)),
                ..self@
            }),
            r is Err ==> r->Err_0 is InvalidPattern,
    {
        self.push_rule(pattern, operations, Policy::Deny)
    }

    /// Allow publish, subscribe and request on a pattern
    pub fn allow_all(self, pattern: &str) -> (r: Result<Self, SubjectError>)
        ensures
            r is Ok <==> valid_pattern(pattern@),
            r is Ok ==> r->Ok_0@ == (PermissionsBuilderView {
                rules: self@.rules.push(
                    built_rule(
                        pattern@,
                        seq![Operation::Publish, Operation::Subscribe, Operation::Request],
                        Policy::Allow,
                    ),
                ),
                ..self@
            }),
            r is Err ==> r->Err_0 is InvalidPattern,
    {
        let ops = Operation::all_operations();
        self.push_rule(pattern, ops.as_slice(), Policy::Allow)
    }

    /// Deny publish, subscribe and request on a pattern
    pub fn deny_all(self, pattern: &str) -> (r: Result<Self, SubjectError>)
        ensures
            r is Ok <==> valid_pattern(pattern@),
            r is Ok ==> r->Ok_0@ == (PermissionsBuilderView {
                rules: self@.rules.push(
                    built_rule(
                        pattern@,
                        seq![Operation::Publish, Operation::Subscribe, Operation::Request],
                        Policy::Deny,
                    ),
                ),
                ..self@
            }),
            r is Err ==> r->Err_0 is InvalidPattern,
    {
        let ops = Operation::all_operations();
        self.push_rule(pattern, ops.as_slice(), Policy::Deny)
    }

    /// Build the permissions; the default policy is deny unless set.
    pub fn build(self) -> (r: Permissions)
        ensures
            r@.rules == self@.rules,
            r@.default_policy == match self@.default_policy {
                Some(p) => p,
                None => Policy::Deny,
            },
    {
        let default_policy = match self.default_policy {
            Some(p) => p,
            None => Policy::Deny,
        };
        Permissions { rules: self.rules, default_policy }
    }
}

} // verus!
