//! Tests of the configurable subject parser.

use cim_subject::{ParseRule, ParserBuilder, PartsValidator, SubjectError, SubjectParse, SubjectParser, SubjectParts, ValidationRule};

struct WorkflowParser;

impl SubjectParse for WorkflowParser {
    fn parse(&self, subject: &str) -> Result<SubjectParts, SubjectError> {
        // Custom format: workflow.<id>.<step>.<status>
        let parts: Vec<&str> = subject.split('.').collect();
        if parts.len() != 4 || parts[0] != "workflow" {
            return Err(SubjectError::invalid_format("Not a workflow subject"));
        }

        Ok(SubjectParts::new(
            "workflow",
            parts[1],                                  // workflow ID as aggregate
            &format!("{}_{}", parts[2], parts[3]), // step_status as event
            "v1",
        ))
    }
}

struct NoTestContext;

impl PartsValidator for NoTestContext {
    fn validate(&self, parts: &SubjectParts) -> Result<(), SubjectError> {
        if parts.context == "test" {
            return Err(SubjectError::validation_error(
                "Test context not allowed in production",
            ));
        }
        Ok(())
    }
}

#[test]
fn test_standard_parser() {
    let parser = SubjectParser::with_standard_rules();

    // Valid subject
    let subject = parser.parse("users.person.created.v1").unwrap();
    assert_eq!(subject.context(), "users");

    // Invalid version format
    let result = parser.parse("users.person.created.1");
    assert!(result.is_err());
}

#[test]
fn test_custom_rule() {
    let parser = ParserBuilder::new()
        .with_rule(
            "workflow",
            ParseRule::new(
                "workflow_parser",
                "Custom parser for workflow subjects",
                Box::new(WorkflowParser),
            ),
        )
        .build();

    let subject = parser.parse("workflow.order123.validation.completed").unwrap();
    assert_eq!(subject.aggregate(), "order123");
    assert_eq!(subject.event_type(), "validation_completed");
}

#[test]
fn test_flexible_context() {
    let parser = ParserBuilder::new()
        .with_flexible_context("graph")
        .build();

    // Standard format still works
    let s1 = parser.parse("graph.node.created.v1").unwrap();
    assert_eq!(s1.aggregate(), "node");

    // Flexible format with nested aggregate
    let s2 = parser.parse("graph.workflow.step.node.updated.v2").unwrap();
    assert_eq!(s2.aggregate(), "workflow.step.node");
    assert_eq!(s2.event_type(), "updated");
    assert_eq!(s2.version(), "v2");
}

#[test]
fn test_validation_rules() {
    let parser = ParserBuilder::new()
        .with_validator(
            "no_test_context",
            ValidationRule::new("No Test Context", Box::new(NoTestContext)),
        )
        .build();

    // Normal subject passes
    assert!(parser.parse("users.person.created.v1").is_ok());

    // Test context fails validation
    assert!(parser.parse("test.entity.created.v1").is_err());
}

#[test]
fn standard_rules_limit_context_length() {
    let parser = SubjectParser::with_standard_rules();
    let ok = format!("{}.a.b.v1", "c".repeat(32));
    assert!(parser.parse(&ok).is_ok());
    let long = format!("{}.a.b.v1", "c".repeat(33));
    assert!(matches!(parser.parse(&long), Err(SubjectError::ValidationError(_))));
    assert!(matches!(parser.parse("a.b.c.1"), Err(SubjectError::ValidationError(_))));
    assert!(matches!(parser.parse("a.b.c"), Err(SubjectError::InvalidFormat(_))));
}

#[test]
fn flexible_rule_needs_three_tokens() {
    let parser = ParserBuilder::new().with_flexible_context("graph").build();
    assert!(matches!(parser.parse("graph.v1"), Err(SubjectError::InvalidFormat(_))));
    let three = parser.parse("graph.updated.v2").unwrap();
    assert_eq!(three.context(), "graph");
    assert_eq!(three.aggregate(), "");
    assert_eq!(three.event_type(), "updated");
    // Other contexts still take the standard parse.
    assert!(parser.parse("other.workflow.step.node.updated.v2").is_err());
}

#[test]
fn custom_rule_errors_pass_through() {
    let parser = ParserBuilder::new()
        .with_rule("workflow", ParseRule::new("wf", "workflow", Box::new(WorkflowParser)))
        .build();
    assert!(matches!(parser.parse("workflow.a.b"), Err(SubjectError::InvalidFormat(_))));
    let rule = ParseRule::new("wf", "workflow", Box::new(WorkflowParser));
    assert_eq!(rule.parse("workflow.x.y.z").unwrap().event_type, "y_z");
}

#[test]
fn registration_replaces_by_name() {
    let mut parser = SubjectParser::new();
    parser.register_validator("ctx", ValidationRule::new("No Test Context", Box::new(NoTestContext)));
    assert!(parser.parse("test.a.b.v1").is_err());
    parser.register_rule("test", ParseRule::new("wf", "workflow", Box::new(WorkflowParser)));
    assert!(matches!(parser.parse("test.a.b.v1"), Err(SubjectError::InvalidFormat(_))));
    let standard = SubjectParser::with_standard_rules();
    assert!(standard.parse("t.a.b.v9").is_ok());
}

#[test]
fn finish_runs_validators_on_given_parts() {
    let parser = SubjectParser::with_standard_rules();
    let ok = parser.finish(Ok(SubjectParts::new("a", "b", "c", "v1"))).unwrap();
    assert_eq!(ok.as_str(), "a.b.c.v1");
    let rejected = parser.finish(Ok(SubjectParts::new("a", "b", "c", "1")));
    assert!(matches!(rejected, Err(SubjectError::ValidationError(_))));
    let passed_on = parser.finish(Err(SubjectError::parse_error("bad")));
    assert_eq!(passed_on.unwrap_err(), SubjectError::parse_error("bad"));
    assert!(parser.validate(&SubjectParts::new("a", "b", "c", "v2")).is_ok());
}
