//! Access-control core: a policy-based authorization engine (role and
//! permission evaluation over explicit allow rules), a session and token
//! lifecycle (signed access and refresh tokens with expiry semantics), and a
//! deterministic classifier from internal failure kinds to wire-level
//! outcomes.

pub mod errors;
pub mod policy;
pub mod rbac;
pub mod hexnum;
pub mod claims;
pub mod token;
pub mod middleware;
pub mod projects;
