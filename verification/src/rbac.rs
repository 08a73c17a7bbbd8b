//! RBAC service: the single entry point the rest of the system uses for
//! authorization. It delegates to the enforcer and converts a denial into
//! `AuthError::Forbidden`; it never fails for a permitted tuple.

use vstd::prelude::*;

use crate::errors::AuthError;
use crate::policy::Enforcer;
use crate::policy::PolicyRule;
use crate::policy::spec_allows;

verus! {

/// Wraps the enforcer behind one `check_access` contract, the single choke
/// point for authorization decisions.
pub struct Rbac {
    enforcer: Enforcer,
}

impl Rbac {
    /// The rule set the service currently decides by.
    pub closed spec fn rules(&self) -> Seq<PolicyRule> {
        self.enforcer.rules()
    }

    /// A service over a constructor-injected enforcer.
    pub fn new(enforcer: Enforcer) -> (r: Self)
        ensures
            r.rules() == enforcer.rules(),
    {
        Rbac { enforcer }
    }

    /// Succeeds exactly when some held role has an explicit allow rule for
    /// (resource, action); a denial is `Forbidden` and names no rule.
    pub fn check_access(&self, roles: &Vec<String>, resource: &str, action: &str) -> (r: Result<
        (),
        AuthError,
    >)
        ensures
            r is Ok <==> spec_allows(self.rules(), roles.deep_view(), resource@, action@),
            r is Err ==> r == Result::<(), AuthError>::Err(AuthError::Forbidden),
    {
        if self.enforcer.evaluate(roles, resource, action) {
            Ok(())
        } else {
            Err(AuthError::Forbidden)
        }
    }

    /// Replaces the whole rule set in one swap (the administrative reload):
    /// afterwards the service holds exactly the new set, so every decision is
    /// made against one whole set, never a mixture.
    pub fn reload(&mut self, rules: Vec<PolicyRule>)
        ensures
            final(self).rules() == rules@,
    {
        self.enforcer.reload(rules);
    }
}

} // verus!
