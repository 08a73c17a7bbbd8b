//! Policy store and enforcer: explicit allow tuples (subject role, resource,
//! action) and the matching rule over them. A request tuple is permitted iff
//! at least one held role has an explicit allow rule for the resource and
//! action; every other combination is denied (default-deny). The rule set is
//! replaced whole on reload, never mutated in place.

use vstd::prelude::*;
use vstd::string::StringExecFns;

verus! {

/// One explicit allow tuple. Presence permits; absence denies.
#[derive(Debug, Clone)]
pub struct PolicyRule {
    pub subject: String,
    pub resource: String,
    pub action: String,
}

/// Whether one rule permits one held role for (resource, action).
pub open spec fn rule_matches(
    rule: PolicyRule,
    role: Seq<char>,
    resource: Seq<char>,
    action: Seq<char>,
) -> bool {
    rule.subject@ == role && rule.resource@ == resource && rule.action@ == action
}

/// Whether a rule set permits a request tuple: some rule matches some held
/// role. The absence of any match is a denial, with no further default.
pub open spec fn spec_allows(
    rules: Seq<PolicyRule>,
    roles: Seq<Seq<char>>,
    resource: Seq<char>,
    action: Seq<char>,
) -> bool {
    exists|i: int, j: int|
        0 <= i < rules.len() && 0 <= j < roles.len() && #[trigger] rule_matches(
            rules[i],
            roles[j],
            resource,
            action,
        )
}

/// String equality between an owned name and a borrowed one.
fn str_eq(a: &String, b: &str) -> (r: bool)
    ensures
        r == (a@ == b@),
{
    let bo = b.to_owned();
    *a == bo
}

/// Evaluates request tuples against the current rule set. The set is swapped
/// whole on reload, so every evaluation is a function of exactly one set.
pub struct Enforcer {
    rules: Vec<PolicyRule>,
}

impl Enforcer {
    /// The current rule set.
    pub closed spec fn rules(&self) -> Seq<PolicyRule> {
        self.rules@
    }

    /// An enforcer with no rules: it denies everything.
    pub fn new() -> (r: Self)
        ensures
            r.rules() == Seq::<PolicyRule>::empty(),
    {
        Enforcer { rules: Vec::new() }
    }

    /// An enforcer over a rule set loaded from the backing store.
    pub fn with_rules(rules: Vec<PolicyRule>) -> (r: Self)
        ensures
            r.rules() == rules@,
    {
        Enforcer { rules }
    }

    /// Appends one allow tuple (the administrative channel).
    pub fn add_rule(&mut self, rule: PolicyRule)
        ensures
            final(self).rules() == old(self).rules().push(rule),
    {
        self.rules.push(rule);
    }

    /// Replaces the whole rule set in one swap: after the call the enforcer
    /// holds exactly the new set, so no evaluation can see a mixture of old
    /// and new rules.
    pub fn reload(&mut self, rules: Vec<PolicyRule>)
        ensures
            final(self).rules() == rules@,
    {
        self.rules = rules;
    }

    /// Decides a request tuple. Pure: no side effect, and the result is
    /// exactly whether some held role has an explicit allow rule.
    pub fn evaluate(&self, roles: &Vec<String>, resource: &str, action: &str) -> (r: bool)
        ensures
            r == spec_allows(self.rules(), roles.deep_view(), resource@, action@),
    {
        let ghost rs = self.rules@;
        let ghost held = roles.deep_view();
        let mut i: usize = 0;
        while i < self.rules.len()
            invariant
                i <= rs.len(),
                rs == self.rules@,
                held == roles.deep_view(),
                forall|i2: int, j2: int|
                    0 <= i2 < i && 0 <= j2 < held.len() ==> !#[trigger] rule_matches(
                        rs[i2],
                        held[j2],
                        resource@,
                        action@,
                    ),
            decreases rs.len() - i,
        {
            let rule = &self.rules[i];
            let mut j: usize = 0;
            while j < roles.len()
                invariant
                    i < rs.len(),
                    j <= held.len(),
                    rs == self.rules@,
                    held == roles.deep_view(),
                    *rule == rs[i as int],
                    forall|j2: int|
                        0 <= j2 < j ==> !#[trigger] rule_matches(
                            rs[i as int],
                            held[j2],
                            resource@,
                            action@,
                        ),
                decreases held.len() - j,
            {
                if rule.subject == roles[j] && str_eq(&rule.resource, resource)
                    && str_eq(&rule.action, action) {
                    assert(rule_matches(rs[i as int], held[j as int], resource@, action@));
                    return true;
                }
                j += 1;
            }
            i += 1;
        }
        false
    }
}

/// Default-deny: a request tuple for which no rule matches any held role is
/// denied.
pub proof fn lemma_default_deny(
    rules: Seq<PolicyRule>,
    roles: Seq<Seq<char>>,
    resource: Seq<char>,
    action: Seq<char>,
)
    requires
        forall|i: int, j: int|
            0 <= i < rules.len() && 0 <= j < roles.len() ==> !#[trigger] rule_matches(
                rules[i],
                roles[j],
                resource,
                action,
            ),
    ensures
        !spec_allows(rules, roles, resource, action),
{
}

/// Role union: if any one held role has an allow rule for (resource, action),
/// the request is permitted, whatever the other held roles are.
pub proof fn lemma_role_union(
    rules: Seq<PolicyRule>,
    roles: Seq<Seq<char>>,
    resource: Seq<char>,
    action: Seq<char>,
    i: int,
    j: int,
)
    requires
        0 <= i < rules.len(),
        0 <= j < roles.len(),
        rule_matches(rules[i], roles[j], resource, action),
    ensures
        spec_allows(rules, roles, resource, action),
{
}

} // verus!
