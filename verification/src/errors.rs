//! The closed failure taxonomy of the access-control core and the Error
//! Classifier: a total, pure mapping from each failure kind to the wire-level
//! outcome (status, machine-readable code, human message). Raw internal
//! detail never crosses this boundary.

use vstd::prelude::*;
use vstd::string::StringExecFns;

verus! {

/// Every failure the core can surface. Authentication failures
/// (`Unauthorized`, `InvalidToken`, `SessionExpired`, `RefreshTokenExpired`)
/// precede authorization failures (`Forbidden`); engine and unclassified
/// failures carry internal detail that the classifier suppresses.
#[derive(Debug, Clone, PartialEq, Eq)]
pub enum AuthError {
    /// No credential was supplied where one is required.
    Unauthorized,
    /// The credential is malformed or its signature does not verify.
    InvalidToken,
    /// A well-signed access token whose expiry has passed.
    SessionExpired,
    /// A well-signed refresh token whose expiry has passed; re-authentication
    /// is required.
    RefreshTokenExpired,
    /// The identity is authenticated but holds no role the policy allows.
    Forbidden,
    /// The policy engine itself failed; the detail is for internal logging.
    PolicyFailure(String),
    /// Any other internal failure, caught by the fallback bucket.
    Internal(String),
}

/// The uniform error body emitted for every failure.
#[derive(Debug, Clone, PartialEq, Eq)]
pub struct ErrorResponse {
    pub error_code: String,
    pub message: String,
    pub success: bool,
}

/// The wire status for each failure kind.
pub open spec fn spec_status(e: AuthError) -> u16 {
    match e {
        AuthError::Unauthorized => 401,
        AuthError::InvalidToken => 401,
        AuthError::SessionExpired => 401,
        AuthError::RefreshTokenExpired => 401,
        AuthError::Forbidden => 403,
        AuthError::PolicyFailure(_) => 500,
        AuthError::Internal(_) => 500,
    }
}

/// The machine-readable code for each failure kind.
pub open spec fn spec_code(e: AuthError) -> Seq<char> {
    match e {
        AuthError::Unauthorized => "unauthorized"@,
        AuthError::InvalidToken => "invalid_token"@,
        AuthError::SessionExpired => "access_token_expired"@,
        AuthError::RefreshTokenExpired => "refresh_token_expired"@,
        AuthError::Forbidden => "forbidden"@,
        AuthError::PolicyFailure(_) => "internal_server_error"@,
        AuthError::Internal(_) => "internal_server_error"@,
    }
}

/// The human-readable message for each failure kind. Internal failures share
/// one generic message: their detail is never rendered.
pub open spec fn spec_message(e: AuthError) -> Seq<char> {
    match e {
        AuthError::Unauthorized => "Authentication required. Please sign in to continue."@,
        AuthError::InvalidToken => "Invalid authentication token."@,
        AuthError::SessionExpired => "Your session has expired. Please sign in again."@,
        AuthError::RefreshTokenExpired => "Your session has permanently expired. Please sign in again."@,
        AuthError::Forbidden => "Access denied. You do not have permission to perform this action."@,
        AuthError::PolicyFailure(_) => "An internal server error occurred. Please try again later."@,
        AuthError::Internal(_) => "An internal server error occurred. Please try again later."@,
    }
}

impl AuthError {
    /// Renders this failure as its wire-level outcome. Total over the
    /// taxonomy; pure, so equal kinds always yield equal outcomes.
    pub fn classify(&self) -> (r: (u16, ErrorResponse))
        ensures
            r.0 == spec_status(*self),
            r.1.error_code@ == spec_code(*self),
            r.1.message@ == spec_message(*self),
            !r.1.success,
    {
        match self {
            AuthError::Unauthorized => (
                401,
                ErrorResponse {
                    error_code: String::from_str("unauthorized"),
                    message: String::from_str("Authentication required. Please sign in to continue."),
                    success: false,
                },
            ),
            AuthError::InvalidToken => (
                401,
                ErrorResponse {
                    error_code: String::from_str("invalid_token"),
                    message: String::from_str("Invalid authentication token."),
                    success: false,
                },
            ),
            AuthError::SessionExpired => (
                401,
                ErrorResponse {
                    error_code: String::from_str("access_token_expired"),
                    message: String::from_str("Your session has expired. Please sign in again."),
                    success: false,
                },
            ),
            AuthError::RefreshTokenExpired => (
                401,
                ErrorResponse {
                    error_code: String::from_str("refresh_token_expired"),
                    message: String::from_str("Your session has permanently expired. Please sign in again."),
                    success: false,
                },
            ),
            AuthError::Forbidden => (
                403,
                ErrorResponse {
                    error_code: String::from_str("forbidden"),
                    message: String::from_str("Access denied. You do not have permission to perform this action."),
                    success: false,
                },
            ),
            AuthError::PolicyFailure(_) => (
                500,
                ErrorResponse {
                    error_code: String::from_str("internal_server_error"),
                    message: String::from_str("An internal server error occurred. Please try again later."),
                    success: false,
                },
            ),
            AuthError::Internal(_) => (
                500,
                ErrorResponse {
                    error_code: String::from_str("internal_server_error"),
                    message: String::from_str("An internal server error occurred. Please try again later."),
                    success: false,
                },
            ),
        }
    }
}

/// Classification is idempotent: the same failure kind maps to the same
/// (status, code, message) triple on every call.
pub proof fn lemma_classification_idempotent(e1: AuthError, e2: AuthError)
    requires
        e1 == e2,
    ensures
        spec_status(e1) == spec_status(e2),
        spec_code(e1) == spec_code(e2),
        spec_message(e1) == spec_message(e2),
{
}

/// Internal detail is suppressed: engine or unclassified failures with
/// different internal detail render to the same wire-level outcome, so no raw
/// detail can leak through the classifier.
pub proof fn lemma_internal_detail_suppressed(d1: Seq<char>, d2: Seq<char>, s1: String, s2: String)
    requires
        s1@ == d1,
        s2@ == d2,
    ensures
        spec_status(AuthError::PolicyFailure(s1)) == spec_status(AuthError::PolicyFailure(s2)),
        spec_code(AuthError::PolicyFailure(s1)) == spec_code(AuthError::PolicyFailure(s2)),
        spec_message(AuthError::PolicyFailure(s1)) == spec_message(AuthError::PolicyFailure(s2)),
        spec_status(AuthError::Internal(s1)) == spec_status(AuthError::Internal(s2)),
        spec_code(AuthError::Internal(s1)) == spec_code(AuthError::Internal(s2)),
        spec_message(AuthError::Internal(s1)) == spec_message(AuthError::Internal(s2)),
{
}

} // verus!
