use authcore::errors::AuthError;
use authcore::policy::Enforcer;
use authcore::policy::PolicyRule;
use authcore::rbac::Rbac;

fn rule(subject: &str, resource: &str, action: &str) -> PolicyRule {
    PolicyRule {
        subject: subject.to_string(),
        resource: resource.to_string(),
        action: action.to_string(),
    }
}

fn roles(names: &[&str]) -> Vec<String> {
    names.iter().map(|n| n.to_string()).collect()
}

#[test]
fn default_deny_with_no_rules() {
    let enforcer = Enforcer::new();
    assert!(!enforcer.evaluate(&roles(&["admin"]), "projects", "read"));
}

#[test]
fn default_deny_without_matching_rule() {
    let enforcer = Enforcer::with_rules(vec![rule("editor", "projects", "write")]);
    assert!(!enforcer.evaluate(&roles(&["editor"]), "projects", "delete"));
    assert!(!enforcer.evaluate(&roles(&["editor"]), "reports", "write"));
    assert!(!enforcer.evaluate(&roles(&[]), "projects", "write"));
}

#[test]
fn role_union_grants_through_any_held_role() {
    let enforcer = Enforcer::with_rules(vec![rule("editor", "projects", "write")]);
    // the first held role has no rule at all; the second carries the grant
    assert!(enforcer.evaluate(&roles(&["viewer", "editor"]), "projects", "write"));
}

#[test]
fn scenario_editor_may_write_viewer_may_not() {
    let rbac = Rbac::new(Enforcer::with_rules(vec![rule("editor", "projects", "write")]));
    let denied = rbac.check_access(&roles(&["viewer"]), "projects", "write");
    assert_eq!(denied, Err(AuthError::Forbidden));
    let granted = rbac.check_access(&roles(&["editor"]), "projects", "write");
    assert_eq!(granted, Ok(()));
}

#[test]
fn check_access_never_names_a_rule() {
    let rbac = Rbac::new(Enforcer::with_rules(vec![rule("editor", "projects", "write")]));
    match rbac.check_access(&roles(&["viewer"]), "projects", "write") {
        Err(AuthError::Forbidden) => {}
        other => panic!("expected Forbidden, got {:?}", other),
    }
}

#[test]
fn reload_swaps_the_whole_rule_set() {
    let mut enforcer = Enforcer::with_rules(vec![rule("editor", "projects", "write")]);
    assert!(enforcer.evaluate(&roles(&["editor"]), "projects", "write"));
    enforcer.reload(vec![rule("auditor", "reports", "read")]);
    // nothing of the old set survives; everything of the new set holds
    assert!(!enforcer.evaluate(&roles(&["editor"]), "projects", "write"));
    assert!(enforcer.evaluate(&roles(&["auditor"]), "reports", "read"));
}

#[test]
fn add_rule_appends_a_grant() {
    let mut enforcer = Enforcer::new();
    assert!(!enforcer.evaluate(&roles(&["viewer"]), "projects", "read"));
    enforcer.add_rule(rule("viewer", "projects", "read"));
    assert!(enforcer.evaluate(&roles(&["viewer"]), "projects", "read"));
}

#[test]
fn rbac_reload_applies_to_decisions() {
    let mut rbac = Rbac::new(Enforcer::new());
    assert_eq!(
        rbac.check_access(&roles(&["editor"]), "projects", "write"),
        Err(AuthError::Forbidden)
    );
    rbac.reload(vec![rule("editor", "projects", "write")]);
    assert_eq!(rbac.check_access(&roles(&["editor"]), "projects", "write"), Ok(()));
}
