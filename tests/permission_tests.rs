//! Tests of permission rules and their resolution.

use cim_subject::{Operation, PermissionRule, Permissions, PermissionsBuilder, Pattern, Policy, Subject, SubjectError};

#[test]
fn test_basic_permissions() {
    let perms = PermissionsBuilder::new()
        .default_policy(Policy::Deny)
        .allow("users.*.created.>", &[Operation::Publish])
        .unwrap()
        .allow("users.>", &[Operation::Subscribe])
        .unwrap()
        .build();

    let subject = Subject::new("users.person.created.v1").unwrap();

    assert!(perms.can_publish(&subject));
    assert!(perms.can_subscribe(&subject));
    assert!(!perms.can_request(&subject)); // Not allowed
}

#[test]
fn test_deny_overrides() {
    let perms = PermissionsBuilder::new()
        .default_policy(Policy::Allow)
        .deny("*.*.deleted.>", &[Operation::Publish])
        .unwrap()
        .build();

    let subject = Subject::new("users.person.deleted.v1").unwrap();

    assert!(!perms.can_publish(&subject)); // Explicitly denied
    assert!(perms.can_subscribe(&subject)); // Default allow
}

#[test]
fn test_permission_ordering() {
    let perms = PermissionsBuilder::new()
        .allow("users.>", &[Operation::Subscribe])
        .unwrap()
        .deny("users.admin.>", &[Operation::Subscribe])
        .unwrap()
        .build();

    let user_subject = Subject::new("users.person.created.v1").unwrap();
    let admin_subject = Subject::new("users.admin.created.v1").unwrap();

    assert!(perms.can_subscribe(&user_subject));
    assert!(!perms.can_subscribe(&admin_subject)); // More specific deny
}

#[test]
fn test_filter_allowed() {
    let perms = PermissionsBuilder::new()
        .allow("events.public.>", &[Operation::Subscribe])
        .unwrap()
        .build();

    let subjects = vec![
        Subject::new("events.public.news.v1").unwrap(),
        Subject::new("events.private.data.v1").unwrap(),
        Subject::new("events.public.alert.v1").unwrap(),
    ];

    let allowed = perms.filter_allowed(&subjects, Operation::Subscribe);
    assert_eq!(allowed.len(), 2);
    assert!(allowed.iter().all(|s| s.context() == "events" && s.aggregate() == "public"));
}

#[test]
fn test_permission_intersection() {
    let perms1 = PermissionsBuilder::new()
        .allow("users.>", &[Operation::Subscribe])
        .unwrap()
        .allow("orders.>", &[Operation::Subscribe])
        .unwrap()
        .build();

    let perms2 = PermissionsBuilder::new()
        .allow("users.person.>", &[Operation::Subscribe])
        .unwrap()
        .allow("inventory.>", &[Operation::Subscribe])
        .unwrap()
        .build();

    let intersection = perms1.intersect(&perms2);

    // Only users.person.> should be in the intersection
    let user_person = Subject::new("users.person.created.v1").unwrap();
    let user_admin = Subject::new("users.admin.created.v1").unwrap();
    let order = Subject::new("orders.order.placed.v1").unwrap();

    assert!(intersection.can_subscribe(&user_person)); // In both
    assert!(!intersection.can_subscribe(&user_admin)); // Only in perms1
    assert!(!intersection.can_subscribe(&order)); // Only in perms1
}

#[test]
fn narrower_deny_beats_broader_allow() {
    let perms = PermissionsBuilder::new()
        .default_policy(Policy::Deny)
        .allow("a.>", &[Operation::Publish])
        .unwrap()
        .deny("a.b.>", &[Operation::Publish])
        .unwrap()
        .build();
    assert!(!perms.is_allowed(&Subject::new("a.b.c.d").unwrap(), Operation::Publish));
    assert!(perms.is_allowed(&Subject::new("a.x.y.z").unwrap(), Operation::Publish));
    // Registration order does not matter.
    let reversed = PermissionsBuilder::new()
        .deny("a.b.>", &[Operation::Publish])
        .unwrap()
        .allow("a.>", &[Operation::Publish])
        .unwrap()
        .build();
    assert!(!reversed.is_allowed(&Subject::new("a.b.c.d").unwrap(), Operation::Publish));
    assert!(reversed.is_allowed(&Subject::new("a.x.y.z").unwrap(), Operation::Publish));
}

#[test]
fn equally_specific_rules_earliest_wins() {
    let deny_first = PermissionsBuilder::new()
        .deny("a.*.c.d", &[Operation::Publish])
        .unwrap()
        .allow("a.b.*.d", &[Operation::Publish])
        .unwrap()
        .build();
    let subject = Subject::new("a.b.c.d").unwrap();
    // "a.b.*.d" has its wildcard later, so it is the more specific.
    assert!(deny_first.can_publish(&subject));
    let tie = PermissionsBuilder::new()
        .deny("a.b.c.*", &[Operation::Publish])
        .unwrap()
        .allow("*.b.c.d", &[Operation::Publish])
        .unwrap()
        .allow("a.b.c.*", &[Operation::Publish])
        .unwrap()
        .build();
    assert!(!tie.can_publish(&subject));
}

#[test]
fn default_policy_when_nothing_applies() {
    let empty = Permissions::new(Policy::Allow);
    assert!(empty.can_request(&Subject::new("x.y.z.w").unwrap()));
    let default = Permissions::default();
    assert!(!default.can_request(&Subject::new("x.y.z.w").unwrap()));
    let built = PermissionsBuilder::new().build();
    assert!(!built.can_publish(&Subject::new("x.y.z.w").unwrap()));
    let all = PermissionsBuilder::new().allow_all("x.>").unwrap().deny_all("x.y.secret.>").unwrap().build();
    assert!(all.can_request(&Subject::new("x.y.z.w").unwrap()));
    assert!(!all.can_subscribe(&Subject::new("x.y.secret.w").unwrap()));
}

#[test]
fn builder_rejects_bad_pattern() {
    let r = PermissionsBuilder::new().allow("a..b", &[Operation::Publish]);
    assert!(matches!(r, Err(SubjectError::InvalidPattern(_))));
    let r = PermissionsBuilder::new().deny_all("a.>.b");
    assert!(matches!(r, Err(SubjectError::InvalidPattern(_))));
}

#[test]
fn rules_added_and_merged() {
    let mut perms = Permissions::new(Policy::Deny);
    perms.add_rule(
        PermissionRule::allow(Pattern::new("a.>").unwrap(), vec![Operation::Publish])
            .with_description("publish under a"),
    );
    let s = Subject::new("a.b.c.d").unwrap();
    assert!(perms.can_publish(&s));
    assert!(!perms.can_subscribe(&s));
    let mut other = Permissions::new(Policy::Allow);
    other.add_rule(PermissionRule::deny(Pattern::new("a.b.>").unwrap(), Operation::all_operations()));
    perms.merge(other);
    assert!(!perms.can_publish(&s));
    let rule = PermissionRule::new(Pattern::new("a.*.c.d").unwrap(), vec![Operation::Request], Policy::Allow);
    assert!(rule.matches(&s, Operation::Request));
    assert!(!rule.matches(&s, Operation::Publish));
}

#[test]
fn intersection_keeps_common_operations_only() {
    let p1 = PermissionsBuilder::new().allow("a.>", &[Operation::Publish, Operation::Subscribe]).unwrap().build();
    let p2 = PermissionsBuilder::new().allow("a.b.>", &[Operation::Subscribe, Operation::Request]).unwrap().build();
    let both = p1.intersect(&p2);
    let s = Subject::new("a.b.c.d").unwrap();
    assert!(both.can_subscribe(&s));
    assert!(!both.can_publish(&s));
    assert!(!both.can_request(&s));
    assert!(!both.can_subscribe(&Subject::new("a.x.c.d").unwrap()));
}
