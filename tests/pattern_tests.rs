//! Unit-level tests of patterns.

use cim_subject::{Pattern, PatternMatcher, Subject, SubjectError};

#[test]
fn test_exact_pattern() {
    let pattern = Pattern::new("people.person.created.v1").unwrap();
    let subject = Subject::new("people.person.created.v1").unwrap();

    assert!(pattern.matches(&subject));
    assert!(!pattern.matches_str("people.person.updated.v1"));
}

#[test]
fn test_single_wildcard() {
    let pattern = Pattern::new("people.*.created.v1").unwrap();

    assert!(pattern.matches_str("people.person.created.v1"));
    assert!(pattern.matches_str("people.employee.created.v1"));
    assert!(!pattern.matches_str("organizations.company.created.v1"));
    assert!(!pattern.matches_str("people.person.employee.created.v1")); // * matches exactly one
}

#[test]
fn test_multi_wildcard() {
    let pattern = Pattern::new("people.>").unwrap();

    assert!(pattern.matches_str("people.person.created.v1"));
    assert!(pattern.matches_str("people.employee.manager.assigned.v2"));
    assert!(!pattern.matches_str("organizations.company.created.v1"));
}

#[test]
fn test_combined_wildcards() {
    let pattern = Pattern::new("*.*.created.>").unwrap();

    assert!(pattern.matches_str("people.person.created.v1"));
    assert!(pattern.matches_str("orders.order.created.v2"));
    assert!(pattern.matches_str("inventory.product.created.v1.beta"));
    assert!(!pattern.matches_str("people.created.v1")); // Too few parts
}

#[test]
fn test_invalid_patterns() {
    // Empty pattern
    assert!(Pattern::new("").is_err());

    // Empty token
    assert!(Pattern::new("people..created.v1").is_err());

    // > not at end
    assert!(Pattern::new("people.>.created.v1").is_err());

    // Invalid characters
    assert!(Pattern::new("people.per$on.*.v1").is_err());
}

#[test]
fn test_specificity() {
    let p1 = Pattern::new("people.person.created.v1").unwrap();
    let p2 = Pattern::new("people.*.created.v1").unwrap();
    let p3 = Pattern::new("people.*.*.v1").unwrap();
    let p4 = Pattern::new("people.>").unwrap();

    assert!(p1.is_more_specific_than(&p2));
    assert!(p2.is_more_specific_than(&p3));
    assert!(p3.is_more_specific_than(&p4));
    assert!(!p4.is_more_specific_than(&p1));
}

#[test]
fn pattern_test_pattern_matcher_trait() {
    let pattern = Pattern::new("events.*.completed.>").unwrap();
    let subject = Subject::new("events.workflow.completed.v1").unwrap();

    assert!(subject.matches_pattern(&pattern));
    assert!("events.task.completed.v2".matches_pattern(&pattern));
    assert!(String::from("events.job.completed.v1.final").matches_pattern(&pattern));
}

#[test]
fn specificity_chain_is_strict_and_transitive() {
    let chain: Vec<Pattern> = ["a.b.c.d", "a.*.c.d", "a.*.*.d", "a.>", ">"]
        .iter()
        .map(|p| Pattern::new(p).unwrap())
        .collect();
    for i in 0..chain.len() {
        assert!(!chain[i].is_more_specific_than(&chain[i]));
        for j in (i + 1)..chain.len() {
            assert!(chain[i].is_more_specific_than(&chain[j]), "{i} {j}");
            assert!(!chain[j].is_more_specific_than(&chain[i]), "{j} {i}");
        }
    }
}

#[test]
fn equally_specific_patterns_beat_neither_way() {
    let a = Pattern::new("a.*.c").unwrap();
    let b = Pattern::new("x.*.z").unwrap();
    assert!(!a.is_more_specific_than(&b));
    assert!(!b.is_more_specific_than(&a));
}

#[test]
fn pattern_errors_are_invalid_pattern() {
    for text in ["", "a..b", ".a", "a.", "a.>.b", "a.b$", "a.b c", "a.**", "a.>>"] {
        assert!(matches!(Pattern::new(text), Err(SubjectError::InvalidPattern(_))), "{text}");
    }
    assert_eq!(Pattern::new("a.*.>").unwrap().as_str(), "a.*.>");
}

#[test]
fn matching_any_text_never_fails() {
    let p = Pattern::new("a.*.>").unwrap();
    for text in ["", ".", "..", "a", "a.", "a..", "a.b", "a.b.c", "a..c", "\u{e9}.b.c"] {
        let _ = p.matches_str(text);
    }
    assert!(p.matches_str("a..c"));
    assert!(!p.matches_str("a.b"));
    assert!(!p.matches_str("a."));
    let exact = Pattern::new("orders.*.created.v1").unwrap();
    assert!(exact.matches_str("orders.order.created.v1"));
    assert!(!exact.matches_str("orders.order.item.created.v1"));
}

#[test]
fn pattern_clone_keeps_text_and_tokens() {
    let p = Pattern::new("users.*.created.>").unwrap();
    let q = p.clone();
    assert_eq!(q.to_string(), "users.*.created.>");
    assert!(q.matches_str("users.x.created.v1"));
}
